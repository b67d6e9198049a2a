//! `forbidden_macros`: flag macro invocations whose path matches a
//! `qualified_names` glob, or whose final segment matches a `bare_names`
//! exact name (only in `bare_names_in_layers`, and only for unqualified
//! invocations). Every live entry that flags an invocation reports it once,
//! entries in configured order.

use vstd::prelude::*;

use crate::config::ForbiddenMacros;
use crate::rules::path_string::{self, path_text};
use crate::glob::glob_match;
use crate::rules::{
    concat_all, contains_name, first_glob_hit, first_hit, lemma_concat_new_step, lemma_first_glob_hit_iff,
    names_contain, rule_live, scope_applies,
};
use crate::syntax::SynPath;
use crate::text::replace_all;
use crate::violations::ViolationView;
use crate::visitor::{push_violation, violation_at, Visitor, WalkCtx, WalkEnv};

verus! {

/// The final segment of `path`, or the empty text when it has none.
pub open spec fn last_segment(path: SynPath) -> Seq<char> {
    if path.segments@.len() == 0 {
        Seq::empty()
    } else {
        path.segments@.last()@
    }
}

/// The message for macro `matched` flagged by `pattern`: the template with
/// `{pattern}` then `{macro}` substituted, or the default text.
pub open spec fn macro_message(rule: ForbiddenMacros, matched: Seq<char>, pattern: Seq<char>) -> Seq<char> {
    match rule.message {
        Some(t) => replace_all(replace_all(t@, "{pattern}"@, pattern), "{macro}"@, matched),
        None => "macro `"@ + matched + "!` matches forbidden pattern `"@ + pattern + "`"@,
    }
}

/// The violation, if any, of entry `k` for the macro invocation `path`:
/// when the entry is live, its first `qualified_names` glob that matches the
/// joined path, else, for an unqualified invocation in one of
/// `bare_names_in_layers`, a `bare_names` entry equal to the final segment.
pub open spec fn macro_rule_violations(env: WalkEnv, c: WalkCtx, path: SynPath, k: int) -> Seq<ViolationView> {
    let rule = env.cfg.forbidden_macros@[k];
    if !rule_live(
        env,
        c,
        rule.in_layers@,
        rule.in_layers_except@,
        rule.in_files@,
        rule.allow_in_test_context,
    ) {
        Seq::empty()
    } else {
        match first_glob_hit(rule.qualified_names@, path_text(path)) {
            Some(p) => seq![
                violation_at(env, path.line, rule.rule@, macro_message(rule, path_text(path), p)),
            ],
            None => if path.segments@.len() == 1 && !path.leading_colon && names_contain(
                rule.bare_names_in_layers@,
                env.layer.name@,
            ) && names_contain(rule.bare_names@, last_segment(path)) {
                seq![
                    violation_at(
                        env,
                        path.line,
                        rule.rule@,
                        macro_message(rule, last_segment(path), last_segment(path)),
                    ),
                ]
            } else {
                Seq::empty()
            },
        }
    }
}

pub open spec fn macro_rule_fn(env: WalkEnv, c: WalkCtx, path: SynPath) -> spec_fn(int) -> Seq<ViolationView> {
    |k: int| macro_rule_violations(env, c, path, k)
}

/// The violations of the macro invocation `path`: one per entry that flags
/// it, entries in configured order.
pub open spec fn macro_violations(env: WalkEnv, c: WalkCtx, path: SynPath) -> Seq<ViolationView> {
    concat_all(Seq::new(env.cfg.forbidden_macros@.len(), macro_rule_fn(env, c, path)))
}

/// A live entry that no `qualified_names` glob flags for an unqualified
/// invocation in one of its `bare_names_in_layers` reports it exactly when
/// the final segment equals one of `bare_names`, at any position of that
/// list, and then once, naming that segment.
pub proof fn law_bare_name_any_position(env: WalkEnv, c: WalkCtx, path: SynPath, k: int)
    requires
        0 <= k < env.cfg.forbidden_macros@.len(),
        rule_live(
            env,
            c,
            env.cfg.forbidden_macros@[k].in_layers@,
            env.cfg.forbidden_macros@[k].in_layers_except@,
            env.cfg.forbidden_macros@[k].in_files@,
            env.cfg.forbidden_macros@[k].allow_in_test_context,
        ),
        first_glob_hit(env.cfg.forbidden_macros@[k].qualified_names@, path_text(path)) is None,
        path.segments@.len() == 1,
        !path.leading_colon,
        names_contain(env.cfg.forbidden_macros@[k].bare_names_in_layers@, env.layer.name@),
    ensures
        macro_rule_violations(env, c, path, k).len() == (if exists|j: int|
            0 <= j < env.cfg.forbidden_macros@[k].bare_names@.len()
                && (#[trigger] env.cfg.forbidden_macros@[k].bare_names@[j])@ == path.segments@[0]@ {
            1int
        } else {
            0int
        }),
        macro_rule_violations(env, c, path, k).len() == 1 ==> macro_rule_violations(env, c, path, k)[0]
            == violation_at(
            env,
            path.line,
            env.cfg.forbidden_macros@[k].rule@,
            macro_message(env.cfg.forbidden_macros@[k], path.segments@[0]@, path.segments@[0]@),
        ),
{
    assert(last_segment(path) == path.segments@[0]@);
}

/// A live entry one of whose `qualified_names` globs matches the joined
/// path of the invocation reports it once, naming the joined path and a
/// matching glob of that list, whatever its `bare_names`.
pub proof fn law_qualified_glob_reports(env: WalkEnv, c: WalkCtx, path: SynPath, k: int, j: int)
    requires
        0 <= k < env.cfg.forbidden_macros@.len(),
        rule_live(
            env,
            c,
            env.cfg.forbidden_macros@[k].in_layers@,
            env.cfg.forbidden_macros@[k].in_layers_except@,
            env.cfg.forbidden_macros@[k].in_files@,
            env.cfg.forbidden_macros@[k].allow_in_test_context,
        ),
        0 <= j < env.cfg.forbidden_macros@[k].qualified_names@.len(),
        glob_match(env.cfg.forbidden_macros@[k].qualified_names@[j]@, path_text(path)),
    ensures
        macro_rule_violations(env, c, path, k).len() == 1,
        exists|q: int|
            0 <= q < env.cfg.forbidden_macros@[k].qualified_names@.len() && glob_match(
                (#[trigger] env.cfg.forbidden_macros@[k].qualified_names@[q])@,
                path_text(path),
            ) && macro_rule_violations(env, c, path, k)[0] == violation_at(
                env,
                path.line,
                env.cfg.forbidden_macros@[k].rule@,
                macro_message(
                    env.cfg.forbidden_macros@[k],
                    path_text(path),
                    env.cfg.forbidden_macros@[k].qualified_names@[q]@,
                ),
            ),
{
    lemma_first_glob_hit_iff(env.cfg.forbidden_macros@[k].qualified_names@, path_text(path));
}

/// A qualified invocation (more than one segment, or a leading `::`) is
/// never reported through `bare_names`: an entry reports it only through a
/// `qualified_names` glob that matches the joined path.
pub proof fn law_qualified_needs_glob(env: WalkEnv, c: WalkCtx, path: SynPath, k: int)
    requires
        0 <= k < env.cfg.forbidden_macros@.len(),
        path.segments@.len() != 1 || path.leading_colon,
        first_glob_hit(env.cfg.forbidden_macros@[k].qualified_names@, path_text(path)) is None,
    ensures
        macro_rule_violations(env, c, path, k).len() == 0,
{
}

fn violation_for(visitor: &mut Visitor, rule: &ForbiddenMacros, line: usize, matched: &String, pattern: &String)
    ensures
        final(visitor).same_walk(old(visitor)),
        final(visitor).found() == old(visitor).found().push(
            violation_at(old(visitor).env(), line, rule.rule@, macro_message(*rule, matched@, pattern@)),
        ),
{
    let message = match &rule.message {
        Some(t) => {
            proof {
                reveal_strlit("{pattern}");
                reveal_strlit("{macro}");
            }
            let m = crate::text::replace(t.as_str(), "{pattern}", pattern.as_str());
            crate::text::replace(m.as_str(), "{macro}", matched.as_str())
        },
        None => {
            let mut m = String::from_str("macro `");
            m.append(matched.as_str());
            m.append("!` matches forbidden pattern `");
            m.append(pattern.as_str());
            m.append("`");
            m
        },
    };
    push_violation(visitor, line, &rule.rule, message);
}

/// Checks a macro invocation against the `forbidden_macros` entries.
pub fn check(visitor: &mut Visitor, path: &SynPath)
    requires
        old(visitor).wf(),
    ensures
        final(visitor).same_walk(old(visitor)),
        final(visitor).found() == old(visitor).found() + macro_violations(
            old(visitor).env(),
            old(visitor).ctx(),
            *path,
        ),
{
    let ghost env = visitor.env();
    let ghost c = visitor.ctx();
    let ghost found0 = visitor.found();
    let ghost v0 = *visitor;
    let cfg = visitor.cfg;
    let compiled = visitor.compiled;
    let qualified = path_string::of(path);
    let bare = if path.segments.len() > 0 {
        path.segments[path.segments.len() - 1].clone()
    } else {
        String::new()
    };
    let line = path.line;
    let ghost f = macro_rule_fn(env, c, *path);
    let mut idx: usize = 0;
    proof {
        assert(Seq::new(0, f) =~= Seq::<Seq<ViolationView>>::empty());
    }
    while idx < cfg.forbidden_macros.len()
        invariant
            visitor.same_walk(&v0),
            cfg == visitor.cfg,
            compiled == visitor.compiled,
            env == visitor.env(),
            c == visitor.ctx(),
            visitor.wf(),
            f == macro_rule_fn(env, c, *path),
            qualified@ == path_text(*path),
            bare@ == last_segment(*path),
            line == path.line,
            idx <= cfg.forbidden_macros@.len(),
            visitor.found() == found0 + concat_all(Seq::new(idx as nat, f)),
        decreases cfg.forbidden_macros@.len() - idx,
    {
        proof {
            lemma_concat_new_step((idx + 1) as nat, f);
        }
        let rule = &cfg.forbidden_macros[idx];
        if scope_applies(
            rule.in_layers.as_slice(),
            rule.in_layers_except.as_slice(),
            &compiled.forbidden_macros[idx],
            visitor.layer,
            visitor.rel_path,
        ) && !(rule.allow_in_test_context && visitor.in_test_context) {
            // Qualified-name glob match against the joined path.
            match first_hit(&rule.qualified_names, qualified.as_str()) {
                Some(pi) => {
                    violation_for(visitor, rule, line, &qualified, &rule.qualified_names[pi]);
                },
                None => {
                    // Bare-name exact match: only in configured layers, and
                    // only when the macro is invoked unqualified.
                    let is_bare_invocation = path.segments.len() == 1 && !path.leading_colon;
                    let layer_in_bare_scope = contains_name(
                        rule.bare_names_in_layers.as_slice(),
                        &visitor.layer.name,
                    );
                    if is_bare_invocation && layer_in_bare_scope && contains_name(
                        rule.bare_names.as_slice(),
                        &bare,
                    ) {
                        violation_for(visitor, rule, line, &bare, &bare);
                    }
                },
            }
        }
        idx = idx + 1;
    }
}

} // verus!
