//! `forbidden_methods`: flag `.method()` calls whose name is configured.
//! Every live entry that lists the method reports the call, in configured
//! order.

use vstd::prelude::*;

use crate::config::ForbiddenMethods;
use crate::rules::{
    concat_all, contains_name, lemma_concat_all_empty, lemma_concat_new_step, names_contain, rule_live, scope_applies,
};
use crate::text::replace_all;
use crate::violations::ViolationView;
use crate::visitor::{push_violation, violation_at, Visitor, WalkCtx, WalkEnv};

verus! {

/// The message for a call of `method`: the template with `{method}`
/// substituted, or the default text.
pub open spec fn method_message(rule: ForbiddenMethods, method: Seq<char>) -> Seq<char> {
    match rule.message {
        Some(t) => replace_all(t@, "{method}"@, method),
        None => "`."@ + method + "()` is forbidden in this layer"@,
    }
}

/// The violation, if any, of entry `k` for a call of `method` at `line`:
/// the entry is live and lists the method.
pub open spec fn method_rule_violations(env: WalkEnv, c: WalkCtx, method: Seq<char>, line: usize, k: int) -> Seq<
    ViolationView,
> {
    let rule = env.cfg.forbidden_methods@[k];
    if rule_live(
        env,
        c,
        rule.in_layers@,
        rule.in_layers_except@,
        rule.in_files@,
        rule.allow_in_test_context,
    ) && names_contain(rule.methods@, method) {
        seq![violation_at(env, line, rule.rule@, method_message(rule, method))]
    } else {
        Seq::empty()
    }
}

pub open spec fn method_rule_fn(env: WalkEnv, c: WalkCtx, method: Seq<char>, line: usize) -> spec_fn(int) -> Seq<
    ViolationView,
> {
    |k: int| method_rule_violations(env, c, method, line, k)
}

/// The violations of a call of `method` at `line`: one per entry that flags
/// it, entries in configured order.
pub open spec fn method_violations(env: WalkEnv, c: WalkCtx, method: Seq<char>, line: usize) -> Seq<
    ViolationView,
> {
    concat_all(Seq::new(env.cfg.forbidden_methods@.len(), method_rule_fn(env, c, method, line)))
}

/// An entry reports a call of `.method()` exactly when it is live and
/// `method` is equal to one of its `methods` (any position of the list);
/// a name that merely contains, or is contained in, a listed name is not
/// reported. A report is one violation under the entry's rule name at the
/// call's line.
pub proof fn law_exact_method_name(env: WalkEnv, c: WalkCtx, method: Seq<char>, line: usize, k: int)
    requires
        0 <= k < env.cfg.forbidden_methods@.len(),
    ensures
        method_rule_violations(env, c, method, line, k).len() == (if rule_live(
            env,
            c,
            env.cfg.forbidden_methods@[k].in_layers@,
            env.cfg.forbidden_methods@[k].in_layers_except@,
            env.cfg.forbidden_methods@[k].in_files@,
            env.cfg.forbidden_methods@[k].allow_in_test_context,
        ) && exists|j: int|
            0 <= j < env.cfg.forbidden_methods@[k].methods@.len()
                && (#[trigger] env.cfg.forbidden_methods@[k].methods@[j])@ == method {
            1int
        } else {
            0int
        }),
        method_rule_violations(env, c, method, line, k).len() == 1 ==> {
            let v = method_rule_violations(env, c, method, line, k)[0];
            v.rule == env.cfg.forbidden_methods@[k].rule@ && v.line == line
        },
{
}

/// A method whose name is listed by no entry is never reported, whatever
/// the entries' scopes.
pub proof fn law_unlisted_method_not_reported(env: WalkEnv, c: WalkCtx, method: Seq<char>, line: usize)
    requires
        forall|k: int, j: int|
            0 <= k < env.cfg.forbidden_methods@.len() && 0 <= j
                < env.cfg.forbidden_methods@[k].methods@.len() ==> (#[trigger] env.cfg.forbidden_methods@[k].methods@[j])@
                != method,
    ensures
        method_violations(env, c, method, line).len() == 0,
{
    let f = method_rule_fn(env, c, method, line);
    let s = Seq::new(env.cfg.forbidden_methods@.len(), f);
    assert forall|k: int| 0 <= k < s.len() implies (#[trigger] s[k]).len() == 0 by {
        law_exact_method_name(env, c, method, line, k);
    }
    lemma_concat_all_empty(s);
}

/// Checks a call of `.method()` at `line` against the `forbidden_methods`
/// entries.
pub fn check(visitor: &mut Visitor, method: &String, line: usize)
    requires
        old(visitor).wf(),
    ensures
        final(visitor).same_walk(old(visitor)),
        final(visitor).found() == old(visitor).found() + method_violations(
            old(visitor).env(),
            old(visitor).ctx(),
            method@,
            line,
        ),
{
    let ghost env = visitor.env();
    let ghost c = visitor.ctx();
    let ghost found0 = visitor.found();
    let ghost v0 = *visitor;
    let cfg = visitor.cfg;
    let compiled = visitor.compiled;
    let ghost f = method_rule_fn(env, c, method@, line);
    let mut idx: usize = 0;
    proof {
        assert(Seq::new(0, f) =~= Seq::<Seq<ViolationView>>::empty());
    }
    while idx < cfg.forbidden_methods.len()
        invariant
            visitor.same_walk(&v0),
            cfg == visitor.cfg,
            compiled == visitor.compiled,
            env == visitor.env(),
            c == visitor.ctx(),
            visitor.wf(),
            f == method_rule_fn(env, c, method@, line),
            idx <= cfg.forbidden_methods@.len(),
            visitor.found() == found0 + concat_all(Seq::new(idx as nat, f)),
        decreases cfg.forbidden_methods@.len() - idx,
    {
        proof {
            lemma_concat_new_step((idx + 1) as nat, f);
        }
        let rule = &cfg.forbidden_methods[idx];
        if scope_applies(
            rule.in_layers.as_slice(),
            rule.in_layers_except.as_slice(),
            &compiled.forbidden_methods[idx],
            visitor.layer,
            visitor.rel_path,
        ) && !(rule.allow_in_test_context && visitor.in_test_context) && contains_name(
            rule.methods.as_slice(),
            method,
        ) {
            let message = match &rule.message {
                Some(t) => {
                    proof {
                        reveal_strlit("{method}");
                    }
                    crate::text::replace(t.as_str(), "{method}", method.as_str())
                },
                None => {
                    let mut m = String::from_str("`.");
                    m.append(method.as_str());
                    m.append("()` is forbidden in this layer");
                    m
                },
            };
            push_violation(visitor, line, &rule.rule, message);
        }
        idx = idx + 1;
    }
}

} // verus!
