//! `forbidden_imports`: flag `use` items whose introduced paths match
//! configured import-path globs.

use vstd::prelude::*;

use crate::config::ForbiddenImports;
use crate::rules::use_tree::{self, use_paths};
use crate::rules::{concat_all, first_glob_hit, first_hit, lemma_concat_new_step, rule_live, scope_applies};
use crate::syntax::UseTree;
use crate::text::replace_all;
use crate::violations::ViolationView;
use crate::visitor::{push_violation, violation_at, Visitor, WalkCtx, WalkEnv};

verus! {

/// The message for `use <path>` matching `pattern`: the configured template
/// with `{pattern}` substituted, or the default text.
pub open spec fn import_message(rule: ForbiddenImports, path: Seq<char>, pattern: Seq<char>) -> Seq<char> {
    match rule.message {
        Some(t) => replace_all(t@, "{pattern}"@, pattern),
        None => "`use "@ + path + "` matches forbidden pattern `"@ + pattern + "`"@,
    }
}

/// The violation, if any, for one imported path under one rule: the first
/// matching pattern wins.
pub open spec fn import_path_hit(env: WalkEnv, line: usize, rule: ForbiddenImports, path: Seq<char>) -> Seq<ViolationView> {
    match first_glob_hit(rule.patterns@, path) {
        Some(p) => seq![violation_at(env, line, rule.rule@, import_message(rule, path, p))],
        None => Seq::empty(),
    }
}

/// The violations of rule entry `k` for the imported `paths`.
pub open spec fn import_rule_violations(
    env: WalkEnv,
    c: WalkCtx,
    line: usize,
    paths: Seq<Seq<char>>,
    k: int,
) -> Seq<ViolationView> {
    let rule = env.cfg.forbidden_imports@[k];
    if rule_live(
        env,
        c,
        rule.in_layers@,
        rule.in_layers_except@,
        rule.in_files@,
        rule.allow_in_test_context,
    ) {
        concat_all(Seq::new(paths.len(), |j: int| import_path_hit(env, line, rule, paths[j])))
    } else {
        Seq::empty()
    }
}

pub open spec fn import_rule_fn(env: WalkEnv, c: WalkCtx, line: usize, paths: Seq<Seq<char>>) -> spec_fn(int) -> Seq<ViolationView> {
    |k: int| import_rule_violations(env, c, line, paths, k)
}

/// The violations of a `use` item at `line`: rule entries in order, and for
/// each the paths the tree introduces in order.
pub open spec fn import_violations(env: WalkEnv, c: WalkCtx, line: usize, tree: UseTree) -> Seq<ViolationView> {
    concat_all(Seq::new(env.cfg.forbidden_imports@.len(), import_rule_fn(env, c, line, use_paths(tree))))
}

/// The message for `use <path>` matching `pattern`.
fn message_for(rule: &ForbiddenImports, path: &String, pattern: &String) -> (r: String)
    ensures
        r@ == import_message(*rule, path@, pattern@),
{
    match &rule.message {
        Some(t) => {
            proof {
                reveal_strlit("{pattern}");
            }
            crate::text::replace(t.as_str(), "{pattern}", pattern.as_str())
        },
        None => {
            let mut m = String::from_str("`use ");
            m.append(path.as_str());
            m.append("` matches forbidden pattern `");
            m.append(pattern.as_str());
            m.append("`");
            m
        },
    }
}

/// Checks a `use` item at `line` against every `forbidden_imports` entry.
pub fn check(visitor: &mut Visitor, line: usize, tree: &UseTree)
    requires
        old(visitor).wf(),
    ensures
        final(visitor).same_walk(old(visitor)),
        final(visitor).found() == old(visitor).found() + import_violations(
            old(visitor).env(),
            old(visitor).ctx(),
            line,
            *tree,
        ),
{
    let ghost env = visitor.env();
    let ghost c = visitor.ctx();
    let ghost found0 = visitor.found();
    let ghost v0 = *visitor;
    let paths = use_tree::paths(tree);
    let ghost pv = use_paths(*tree);
    let cfg = visitor.cfg;
    let compiled = visitor.compiled;
    let mut idx: usize = 0;
    proof {
        assert(Seq::new(0, import_rule_fn(env, c, line, pv)) =~= Seq::<Seq<ViolationView>>::empty());
    }
    while idx < cfg.forbidden_imports.len()
        invariant
            visitor.same_walk(&v0),
            cfg == visitor.cfg,
            compiled == visitor.compiled,
            env == visitor.env(),
            c == visitor.ctx(),
            visitor.wf(),
            paths@.map_values(|s: String| s@) == pv,
            idx <= cfg.forbidden_imports@.len(),
            visitor.found() == found0 + concat_all(Seq::new(idx as nat, import_rule_fn(env, c, line, pv))),
        decreases cfg.forbidden_imports@.len() - idx,
    {
        let rule = &cfg.forbidden_imports[idx];
        let set = &compiled.forbidden_imports[idx];
        let ghost found1 = visitor.found();
        if scope_applies(
            rule.in_layers.as_slice(),
            rule.in_layers_except.as_slice(),
            set,
            visitor.layer,
            visitor.rel_path,
        ) && !(rule.allow_in_test_context && visitor.in_test_context) {
            let ghost hit = |j: int| import_path_hit(env, line, *rule, pv[j]);
            let mut j: usize = 0;
            proof {
                assert(Seq::new(0, hit) =~= Seq::<Seq<ViolationView>>::empty());
            }
            while j < paths.len()
                invariant
                    visitor.same_walk(&v0),
                    env == visitor.env(),
                    c == visitor.ctx(),
                    visitor.wf(),
                    paths@.map_values(|s: String| s@) == pv,
                    j <= paths@.len(),
                    *rule == env.cfg.forbidden_imports@[idx as int],
                    hit == (|j: int| import_path_hit(env, line, *rule, pv[j])),
                    visitor.found() == found1 + concat_all(Seq::new(j as nat, hit)),
                decreases paths@.len() - j,
            {
                proof {
                    lemma_concat_new_step((j + 1) as nat, hit);
                    assert(paths@.map_values(|s: String| s@)[j as int] == paths@[j as int]@);
                }
                match first_hit(&rule.patterns, paths[j].as_str()) {
                    Some(pi) => {
                        let message = message_for(rule, &paths[j], &rule.patterns[pi]);
                        push_violation(visitor, line, &rule.rule, message);
                    },
                    None => {},
                }
                j = j + 1;
            }
        }
        proof {
            lemma_concat_new_step((idx + 1) as nat, import_rule_fn(env, c, line, pv));
        }
        idx = idx + 1;
    }
}

} // verus!
