//! `forbidden_inline_paths` (and its alias kind `forbidden_constructors`):
//! flag fully-qualified path references in expression position (e.g.
//! `crate::db::Foo` in a body, or a struct literal `crate::db::User { .. }`)
//! and type position (e.g. `db::User` as a type annotation).

use vstd::prelude::*;

use crate::config::{ForbiddenInlinePaths, Position};
use crate::glob::fs_path::GlobSet;
use crate::rules::path_string::{self, path_text};
use crate::glob::fs_path::strings_view;
use crate::glob::glob_match;
use crate::rules::{
    compiles_files, concat_all, first_glob_hit, first_hit, lemma_concat_new_step, lemma_first_glob_hit_iff, rule_live,
    scope_applies,
};
use crate::syntax::SynPath;
use crate::text::replace_all;
use crate::violations::ViolationView;
use crate::visitor::{push_violation, violation_at, Visitor, WalkCtx, WalkEnv};

verus! {

/// The message for inline path `path` matching `pattern`: the template with
/// `{pattern}` then `{path}` substituted, or the default text.
pub open spec fn inline_message(rule: ForbiddenInlinePaths, path: Seq<char>, pattern: Seq<char>) -> Seq<char> {
    match rule.message {
        Some(t) => replace_all(replace_all(t@, "{pattern}"@, pattern), "{path}"@, path),
        None => "inline path `"@ + path + "` matches forbidden pattern `"@ + pattern + "`"@,
    }
}

/// Entry `k` of `rules` flags the inline path `path` found at `site`, with
/// the first matching pattern.
pub open spec fn inline_rule_violations(
    env: WalkEnv,
    c: WalkCtx,
    line: usize,
    path: Seq<char>,
    site: Position,
    rules: Seq<ForbiddenInlinePaths>,
    k: int,
) -> Seq<ViolationView> {
    let rule = rules[k];
    if rule_live(env, c, rule.in_layers@, rule.in_layers_except@, rule.in_files@, rule.allow_in_test_context)
        && (rule.position == Position::Any || rule.position == site) {
        match first_glob_hit(rule.patterns@, path) {
            Some(p) => seq![violation_at(env, line, rule.rule@, inline_message(rule, path, p))],
            None => Seq::empty(),
        }
    } else {
        Seq::empty()
    }
}

pub open spec fn inline_rule_fn(
    env: WalkEnv,
    c: WalkCtx,
    line: usize,
    path: Seq<char>,
    site: Position,
    rules: Seq<ForbiddenInlinePaths>,
) -> spec_fn(int) -> Seq<ViolationView> {
    |k: int| inline_rule_violations(env, c, line, path, site, rules, k)
}

/// The violations of the entries `rules`, in order.
pub open spec fn against(
    env: WalkEnv,
    c: WalkCtx,
    line: usize,
    path: Seq<char>,
    site: Position,
    rules: Seq<ForbiddenInlinePaths>,
) -> Seq<ViolationView> {
    concat_all(Seq::new(rules.len(), inline_rule_fn(env, c, line, path, site, rules)))
}

/// The violations of a path at `site`: `forbidden_inline_paths` entries in
/// order, then `forbidden_constructors` entries in order.
pub open spec fn inline_violations(env: WalkEnv, c: WalkCtx, path: SynPath, site: Position) -> Seq<ViolationView> {
    against(
        env,
        c,
        path.line,
        path_text(path),
        site,
        env.cfg.forbidden_inline_paths@,
    ) + against(
        env,
        c,
        path.line,
        path_text(path),
        site,
        env.cfg.forbidden_constructors@,
    )
}

/// An entry whose `position` is neither `Any` nor the position the path was
/// found at yields nothing for that path, whatever else holds: an entry for
/// type position never fires on a path in expression position, and one for
/// expression position never fires on a path in type position.
pub proof fn law_position_filters(
    env: WalkEnv,
    c: WalkCtx,
    line: usize,
    path: Seq<char>,
    site: Position,
    rules: Seq<ForbiddenInlinePaths>,
    k: int,
)
    requires
        0 <= k < rules.len(),
        rules[k].position != Position::Any,
        rules[k].position != site,
    ensures
        inline_rule_violations(env, c, line, path, site, rules, k).len() == 0,
{
}

/// A live entry whose `position` is `Any` or the position the path was found
/// at reports the path exactly when one of its patterns matches it, and then
/// once, under the entry's rule name and at the path's line.
pub proof fn law_position_admits(
    env: WalkEnv,
    c: WalkCtx,
    line: usize,
    path: Seq<char>,
    site: Position,
    rules: Seq<ForbiddenInlinePaths>,
    k: int,
)
    requires
        0 <= k < rules.len(),
        rule_live(
            env,
            c,
            rules[k].in_layers@,
            rules[k].in_layers_except@,
            rules[k].in_files@,
            rules[k].allow_in_test_context,
        ),
        rules[k].position == Position::Any || rules[k].position == site,
    ensures
        inline_rule_violations(env, c, line, path, site, rules, k).len() == (if exists|j: int|
            0 <= j < rules[k].patterns@.len() && glob_match((#[trigger] rules[k].patterns@[j])@, path) {
            1int
        } else {
            0int
        }),
        inline_rule_violations(env, c, line, path, site, rules, k).len() == 1 ==> {
            let v = inline_rule_violations(env, c, line, path, site, rules, k)[0];
            v.rule == rules[k].rule@ && v.line == line
        },
{
    lemma_first_glob_hit_iff(rules[k].patterns@, path);
}

/// Checks a path in expression position.
pub fn check_expr(visitor: &mut Visitor, path: &SynPath)
    requires
        old(visitor).wf(),
    ensures
        final(visitor).same_walk(old(visitor)),
        final(visitor).found() == old(visitor).found() + inline_violations(
            old(visitor).env(),
            old(visitor).ctx(),
            *path,
            Position::Expr,
        ),
{
    check_path_at(visitor, path, Position::Expr)
}

/// Checks a path in type position.
pub fn check_type(visitor: &mut Visitor, path: &SynPath)
    requires
        old(visitor).wf(),
    ensures
        final(visitor).same_walk(old(visitor)),
        final(visitor).found() == old(visitor).found() + inline_violations(
            old(visitor).env(),
            old(visitor).ctx(),
            *path,
            Position::Type,
        ),
{
    check_path_at(visitor, path, Position::Type)
}

/// Checks a path found at `site` against both inline-path rule kinds.
pub fn check_path_at(visitor: &mut Visitor, path: &SynPath, site: Position)
    requires
        old(visitor).wf(),
    ensures
        final(visitor).same_walk(old(visitor)),
        final(visitor).found() == old(visitor).found() + inline_violations(
            old(visitor).env(),
            old(visitor).ctx(),
            *path,
            site,
        ),
{
    let path_str = path_string::of(path);
    let line = path.line;
    let cfg = visitor.cfg;
    let compiled = visitor.compiled;
    let ghost found0 = visitor.found();
    check_against(visitor, &path_str, line, site, &cfg.forbidden_inline_paths, &compiled.forbidden_inline_paths);
    check_against(visitor, &path_str, line, site, &cfg.forbidden_constructors, &compiled.forbidden_constructors);
    assert(visitor.found() =~= found0 + inline_violations(old(visitor).env(), old(visitor).ctx(), *path, site));
}

/// The message for inline path `path` matching `pattern`.
fn message_for(rule: &ForbiddenInlinePaths, path: &String, pattern: &String) -> (r: String)
    ensures
        r@ == inline_message(*rule, path@, pattern@),
{
    match &rule.message {
        Some(t) => {
            proof {
                reveal_strlit("{pattern}");
                reveal_strlit("{path}");
            }
            let m = crate::text::replace(t.as_str(), "{pattern}", pattern.as_str());
            crate::text::replace(m.as_str(), "{path}", path.as_str())
        },
        None => {
            let mut m = String::from_str("inline path `");
            m.append(path.as_str());
            m.append("` matches forbidden pattern `");
            m.append(pattern.as_str());
            m.append("`");
            m
        },
    }
}

fn check_against(
    visitor: &mut Visitor,
    path_str: &String,
    line: usize,
    site: Position,
    rules: &Vec<ForbiddenInlinePaths>,
    sets: &Vec<GlobSet>,
)
    requires
        old(visitor).wf(),
        compiles_files(sets@, rules@),
    ensures
        final(visitor).same_walk(old(visitor)),
        final(visitor).found() == old(visitor).found() + against(
            old(visitor).env(),
            old(visitor).ctx(),
            line,
            path_str@,
            site,
            rules@,
        ),
{
    let ghost env = visitor.env();
    let ghost c = visitor.ctx();
    let ghost found0 = visitor.found();
    let ghost v0 = *visitor;
    let ghost f = inline_rule_fn(env, c, line, path_str@, site, rules@);
    let mut idx: usize = 0;
    proof {
        assert(Seq::new(0, f) =~= Seq::<Seq<ViolationView>>::empty());
    }
    while idx < rules.len()
        invariant
            visitor.same_walk(&v0),
            env == visitor.env(),
            c == visitor.ctx(),
            visitor.wf(),
            compiles_files(sets@, rules@),
            f == inline_rule_fn(env, c, line, path_str@, site, rules@),
            idx <= rules@.len(),
            visitor.found() == found0 + concat_all(Seq::new(idx as nat, f)),
        decreases rules@.len() - idx,
    {
        let rule = &rules[idx];
        proof {
            lemma_concat_new_step((idx + 1) as nat, f);
            assert(sets@[idx as int].globs() == strings_view(rules@[idx as int].in_files@));
        }
        if scope_applies(
            rule.in_layers.as_slice(),
            rule.in_layers_except.as_slice(),
            &sets[idx],
            visitor.layer,
            visitor.rel_path,
        ) && !(rule.allow_in_test_context && visitor.in_test_context) && (rule.position
            == Position::Any || rule.position == site) {
            match first_hit(&rule.patterns, path_str.as_str()) {
                Some(pi) => {
                    let message = message_for(rule, path_str, &rule.patterns[pi]);
                    push_violation(visitor, line, &rule.rule, message);
                },
                None => {},
            }
        }
        idx = idx + 1;
    }
}

} // verus!
