//! `required_struct_attrs`: structs (and optionally their `impl` blocks)
//! whose name matches `struct_name_pattern` must carry an attribute whose
//! whitespace-free token text contains at least one of `required_any_of`
//! (also taken without whitespace).

use vstd::prelude::*;

use crate::config::RequiredStructAttrs;
use crate::glob::{glob_match, ident};
use crate::rules::{concat_all, lemma_concat_new_step, rule_live, scope_applies};
use crate::syntax::Attribute;
use crate::text::{contains_seq, join_with, remove_whitespace, replace_all};
use crate::violations::ViolationView;
use crate::visitor::{push_violation, violation_at, Visitor, WalkCtx, WalkEnv};

verus! {

/// The attribute's token text, without whitespace, contains one of the
/// required texts, without whitespace.
pub open spec fn attr_satisfies(a: Attribute, required: Seq<String>) -> bool {
    exists|j: int|
        0 <= j < required.len() && contains_seq(
            remove_whitespace(a.tokens@),
            remove_whitespace((#[trigger] required[j])@),
        )
}

/// One of the attributes satisfies the requirement.
pub open spec fn attrs_satisfy_spec(attrs: Seq<Attribute>, required: Seq<String>) -> bool {
    exists|i: int| 0 <= i < attrs.len() && attr_satisfies(#[trigger] attrs[i], required)
}

/// `required_any_of` joined by `, `.
pub open spec fn required_list(rule: RequiredStructAttrs) -> Seq<char> {
    join_with(rule.required_any_of@.map_values(|s: String| s@), ", "@)
}

/// The message for struct `name`.
pub open spec fn struct_message(rule: RequiredStructAttrs, name: Seq<char>) -> Seq<char> {
    match rule.message {
        Some(t) => replace_all(t@, "{name}"@, name),
        None => "`"@ + name + "` is missing a required attribute (one of: "@ + required_list(rule)
            + ")"@,
    }
}

/// The message for `impl <name>`.
pub open spec fn impl_message(rule: RequiredStructAttrs, name: Seq<char>) -> Seq<char> {
    match rule.message {
        Some(t) => replace_all(t@, "{name}"@, name),
        None => "`impl "@ + name + "` is missing a required attribute (one of: "@ + required_list(
            rule,
        ) + ")"@,
    }
}

/// Entry `k` flags the struct `name` (at `line`, with `attrs`).
pub open spec fn struct_rule_violations(
    env: WalkEnv,
    c: WalkCtx,
    name: Seq<char>,
    line: usize,
    attrs: Seq<Attribute>,
    k: int,
) -> Seq<ViolationView> {
    let rule = env.cfg.required_struct_attrs@[k];
    if rule_live(
        env,
        c,
        rule.in_layers@,
        rule.in_layers_except@,
        rule.in_files@,
        false,
    ) && glob_match(rule.struct_name_pattern@, name) && !attrs_satisfy_spec(
        attrs,
        rule.required_any_of@,
    ) {
        seq![violation_at(env, line, rule.rule@, struct_message(rule, name))]
    } else {
        Seq::empty()
    }
}

pub open spec fn struct_rule_fn(env: WalkEnv, c: WalkCtx, name: Seq<char>, line: usize, attrs: Seq<Attribute>) -> spec_fn(int) -> Seq<ViolationView> {
    |k: int| struct_rule_violations(env, c, name, line, attrs, k)
}

/// The violations of a struct item, entries in order.
pub open spec fn struct_violations(
    env: WalkEnv,
    c: WalkCtx,
    name: Seq<char>,
    line: usize,
    attrs: Seq<Attribute>,
) -> Seq<ViolationView> {
    concat_all(Seq::new(env.cfg.required_struct_attrs@.len(), struct_rule_fn(env, c, name, line, attrs)))
}

/// Entry `k` flags the `impl` block whose self type reads `self_ty` (at
/// `line`, with `attrs`); only entries with `also_apply_to_impls` look at
/// impls, and the self type is taken without whitespace.
pub open spec fn impl_rule_violations(
    env: WalkEnv,
    c: WalkCtx,
    self_ty: Seq<char>,
    line: usize,
    attrs: Seq<Attribute>,
    k: int,
) -> Seq<ViolationView> {
    let rule = env.cfg.required_struct_attrs@[k];
    let name = remove_whitespace(self_ty);
    if rule.also_apply_to_impls && rule_live(
        env,
        c,
        rule.in_layers@,
        rule.in_layers_except@,
        rule.in_files@,
        false,
    ) && glob_match(rule.struct_name_pattern@, name) && !attrs_satisfy_spec(
        attrs,
        rule.required_any_of@,
    ) {
        seq![violation_at(env, line, rule.rule@, impl_message(rule, name))]
    } else {
        Seq::empty()
    }
}

pub open spec fn impl_rule_fn(env: WalkEnv, c: WalkCtx, self_ty: Seq<char>, line: usize, attrs: Seq<Attribute>) -> spec_fn(int) -> Seq<ViolationView> {
    |k: int| impl_rule_violations(env, c, self_ty, line, attrs, k)
}

/// The violations of an `impl` block, entries in order.
pub open spec fn impl_violations(
    env: WalkEnv,
    c: WalkCtx,
    self_ty: Seq<char>,
    line: usize,
    attrs: Seq<Attribute>,
) -> Seq<ViolationView> {
    concat_all(Seq::new(env.cfg.required_struct_attrs@.len(), impl_rule_fn(env, c, self_ty, line, attrs)))
}

/// Collapse whitespace away entirely. Lets a user write
/// `cfg(any(test, feature = "testing"))` and match a token-tree string that
/// is rendered with spaces around punctuation.
pub fn normalize_ws(s: &str) -> (r: String)
    ensures
        r@ == remove_whitespace(s@),
{
    crate::text::strip_whitespace(s)
}

/// Whether one of `attrs` satisfies `required_any_of`.
pub fn attrs_satisfy(attrs: &Vec<Attribute>, required_any_of: &Vec<String>) -> (r: bool)
    ensures
        r == attrs_satisfy_spec(attrs@, required_any_of@),
{
    let mut i: usize = 0;
    while i < attrs.len()
        invariant
            i <= attrs@.len(),
            forall|m: int| 0 <= m < i ==> !attr_satisfies(#[trigger] attrs@[m], required_any_of@),
        decreases attrs@.len() - i,
    {
        let stringified = normalize_ws(attrs[i].tokens.as_str());
        let mut j: usize = 0;
        while j < required_any_of.len()
            invariant
                i < attrs@.len(),
                j <= required_any_of@.len(),
                stringified@ == remove_whitespace(attrs@[i as int].tokens@),
                forall|m: int|
                    0 <= m < j ==> !contains_seq(
                        stringified@,
                        remove_whitespace((#[trigger] required_any_of@[m])@),
                    ),
            decreases required_any_of@.len() - j,
        {
            let needle = normalize_ws(required_any_of[j].as_str());
            if crate::text::contains(stringified.as_str(), needle.as_str()) {
                assert(attr_satisfies(attrs@[i as int], required_any_of@));
                return true;
            }
            j = j + 1;
        }
        i = i + 1;
    }
    false
}

/// An item satisfies `required_any_of` exactly when some attribute, at any
/// position of its list, has whitespace-free token text containing some
/// required text taken without whitespace.
pub proof fn law_any_attribute_satisfies(attrs: Seq<Attribute>, required: Seq<String>)
    ensures
        attrs_satisfy_spec(attrs, required) <==> exists|i: int, j: int|
            0 <= i < attrs.len() && 0 <= j < required.len() && contains_seq(
                remove_whitespace((#[trigger] attrs[i]).tokens@),
                remove_whitespace((#[trigger] required[j])@),
            ),
{
    if attrs_satisfy_spec(attrs, required) {
        let i = choose|i: int| 0 <= i < attrs.len() && attr_satisfies(#[trigger] attrs[i], required);
        let j = choose|j: int|
            0 <= j < required.len() && contains_seq(
                remove_whitespace(attrs[i].tokens@),
                remove_whitespace((#[trigger] required[j])@),
            );
        assert(contains_seq(remove_whitespace(attrs[i].tokens@), remove_whitespace(required[j]@)));
    }
    if exists|i: int, j: int|
        0 <= i < attrs.len() && 0 <= j < required.len() && contains_seq(
            remove_whitespace((#[trigger] attrs[i]).tokens@),
            remove_whitespace((#[trigger] required[j])@),
        ) {
        let (i, j) = choose|i: int, j: int|
            0 <= i < attrs.len() && 0 <= j < required.len() && contains_seq(
                remove_whitespace((#[trigger] attrs[i]).tokens@),
                remove_whitespace((#[trigger] required[j])@),
            );
        assert(attr_satisfies(attrs[i], required));
    }
}

/// Adding attributes before or after a satisfying list keeps it satisfied:
/// which attribute carries the required text does not matter.
pub proof fn law_more_attributes_stay_satisfied(
    before: Seq<Attribute>,
    attrs: Seq<Attribute>,
    after: Seq<Attribute>,
    required: Seq<String>,
)
    requires
        attrs_satisfy_spec(attrs, required),
    ensures
        attrs_satisfy_spec(before + attrs + after, required),
{
    let i = choose|i: int| 0 <= i < attrs.len() && attr_satisfies(#[trigger] attrs[i], required);
    let all = before + attrs + after;
    assert(all[before.len() + i] == attrs[i]);
}

/// An item with an attribute, at any position, whose whitespace-free token
/// text contains one of an entry's required texts is never reported by that
/// entry, as a struct or as an `impl` block.
pub proof fn law_satisfied_item_not_reported(
    env: WalkEnv,
    c: WalkCtx,
    name: Seq<char>,
    line: usize,
    attrs: Seq<Attribute>,
    k: int,
    i: int,
    j: int,
)
    requires
        0 <= k < env.cfg.required_struct_attrs@.len(),
        0 <= i < attrs.len(),
        0 <= j < env.cfg.required_struct_attrs@[k].required_any_of@.len(),
        contains_seq(
            remove_whitespace(attrs[i].tokens@),
            remove_whitespace(env.cfg.required_struct_attrs@[k].required_any_of@[j]@),
        ),
    ensures
        struct_rule_violations(env, c, name, line, attrs, k).len() == 0,
        impl_rule_violations(env, c, name, line, attrs, k).len() == 0,
{
    assert(attr_satisfies(attrs[i], env.cfg.required_struct_attrs@[k].required_any_of@));
}

/// A live entry reports a struct exactly when its name matches
/// `struct_name_pattern` and no attribute satisfies `required_any_of`, and
/// an `impl` block only when the entry also has `also_apply_to_impls`; a
/// report is one violation under the entry's rule name at the item's line.
pub proof fn law_struct_reported_iff(
    env: WalkEnv,
    c: WalkCtx,
    name: Seq<char>,
    line: usize,
    attrs: Seq<Attribute>,
    k: int,
)
    requires
        0 <= k < env.cfg.required_struct_attrs@.len(),
        rule_live(
            env,
            c,
            env.cfg.required_struct_attrs@[k].in_layers@,
            env.cfg.required_struct_attrs@[k].in_layers_except@,
            env.cfg.required_struct_attrs@[k].in_files@,
            false,
        ),
    ensures
        struct_rule_violations(env, c, name, line, attrs, k).len() == (if glob_match(
            env.cfg.required_struct_attrs@[k].struct_name_pattern@,
            name,
        ) && !(exists|i: int, j: int|
            0 <= i < attrs.len() && 0 <= j < env.cfg.required_struct_attrs@[k].required_any_of@.len()
                && contains_seq(
                remove_whitespace((#[trigger] attrs[i]).tokens@),
                remove_whitespace((#[trigger] env.cfg.required_struct_attrs@[k].required_any_of@[j])@),
            )) {
            1int
        } else {
            0int
        }),
        struct_rule_violations(env, c, name, line, attrs, k).len() == 1 ==> {
            let v = struct_rule_violations(env, c, name, line, attrs, k)[0];
            v.rule == env.cfg.required_struct_attrs@[k].rule@ && v.line == line
        },
        !env.cfg.required_struct_attrs@[k].also_apply_to_impls ==> impl_rule_violations(
            env,
            c,
            name,
            line,
            attrs,
            k,
        ).len() == 0,
{
    law_any_attribute_satisfies(attrs, env.cfg.required_struct_attrs@[k].required_any_of@);
}

fn missing_message(rule: &RequiredStructAttrs, name: &String, is_impl: bool) -> (r: String)
    ensures
        r@ == (if is_impl {
            impl_message(*rule, name@)
        } else {
            struct_message(*rule, name@)
        }),
{
    match &rule.message {
        Some(t) => {
            proof {
                reveal_strlit("{name}");
            }
            crate::text::replace(t.as_str(), "{name}", name.as_str())
        },
        None => {
            let mut m = if is_impl {
                String::from_str("`impl ")
            } else {
                String::from_str("`")
            };
            m.append(name.as_str());
            m.append("` is missing a required attribute (one of: ");
            let list = crate::text::join(rule.required_any_of.as_slice(), ", ");
            m.append(list.as_str());
            m.append(")");
            m
        },
    }
}

/// Checks a struct item named `name` (at `line`, with `attrs`).
pub fn check_struct(visitor: &mut Visitor, name: &String, line: usize, attrs: &Vec<Attribute>)
    requires
        old(visitor).wf(),
    ensures
        final(visitor).same_walk(old(visitor)),
        final(visitor).found() == old(visitor).found() + struct_violations(
            old(visitor).env(),
            old(visitor).ctx(),
            name@,
            line,
            attrs@,
        ),
{
    let ghost env = visitor.env();
    let ghost c = visitor.ctx();
    let ghost found0 = visitor.found();
    let ghost v0 = *visitor;
    let ghost f = struct_rule_fn(env, c, name@, line, attrs@);
    let cfg = visitor.cfg;
    let compiled = visitor.compiled;
    let mut idx: usize = 0;
    proof {
        assert(Seq::new(0, f) =~= Seq::<Seq<ViolationView>>::empty());
    }
    while idx < cfg.required_struct_attrs.len()
        invariant
            visitor.same_walk(&v0),
            cfg == visitor.cfg,
            compiled == visitor.compiled,
            env == visitor.env(),
            c == visitor.ctx(),
            visitor.wf(),
            f == struct_rule_fn(env, c, name@, line, attrs@),
            idx <= cfg.required_struct_attrs@.len(),
            visitor.found() == found0 + concat_all(Seq::new(idx as nat, f)),
        decreases cfg.required_struct_attrs@.len() - idx,
    {
        let rule = &cfg.required_struct_attrs[idx];
        proof {
            lemma_concat_new_step((idx + 1) as nat, f);
        }
        if scope_applies(
            rule.in_layers.as_slice(),
            rule.in_layers_except.as_slice(),
            &compiled.required_struct_attrs[idx],
            visitor.layer,
            visitor.rel_path,
        ) && ident::matches(rule.struct_name_pattern.as_str(), name.as_str()) && !attrs_satisfy(
            attrs,
            &rule.required_any_of,
        ) {
            let message = missing_message(rule, name, false);
            push_violation(visitor, line, &rule.rule, message);
        }
        idx = idx + 1;
    }
}

/// Checks an `impl` block whose self type reads `self_ty` (at `line`, with
/// `attrs`).
pub fn check_impl(visitor: &mut Visitor, self_ty: &String, line: usize, attrs: &Vec<Attribute>)
    requires
        old(visitor).wf(),
    ensures
        final(visitor).same_walk(old(visitor)),
        final(visitor).found() == old(visitor).found() + impl_violations(
            old(visitor).env(),
            old(visitor).ctx(),
            self_ty@,
            line,
            attrs@,
        ),
{
    let ghost env = visitor.env();
    let ghost c = visitor.ctx();
    let ghost found0 = visitor.found();
    let ghost v0 = *visitor;
    let ghost f = impl_rule_fn(env, c, self_ty@, line, attrs@);
    let self_ty_str = normalize_ws(self_ty.as_str());
    let cfg = visitor.cfg;
    let compiled = visitor.compiled;
    let mut idx: usize = 0;
    proof {
        assert(Seq::new(0, f) =~= Seq::<Seq<ViolationView>>::empty());
    }
    while idx < cfg.required_struct_attrs.len()
        invariant
            visitor.same_walk(&v0),
            cfg == visitor.cfg,
            compiled == visitor.compiled,
            env == visitor.env(),
            c == visitor.ctx(),
            visitor.wf(),
            f == impl_rule_fn(env, c, self_ty@, line, attrs@),
            self_ty_str@ == remove_whitespace(self_ty@),
            idx <= cfg.required_struct_attrs@.len(),
            visitor.found() == found0 + concat_all(Seq::new(idx as nat, f)),
        decreases cfg.required_struct_attrs@.len() - idx,
    {
        let rule = &cfg.required_struct_attrs[idx];
        proof {
            lemma_concat_new_step((idx + 1) as nat, f);
        }
        if rule.also_apply_to_impls && scope_applies(
            rule.in_layers.as_slice(),
            rule.in_layers_except.as_slice(),
            &compiled.required_struct_attrs[idx],
            visitor.layer,
            visitor.rel_path,
        ) && ident::matches(rule.struct_name_pattern.as_str(), self_ty_str.as_str())
            && !attrs_satisfy(attrs, &rule.required_any_of) {
            let message = missing_message(rule, &self_ty_str, true);
            push_violation(visitor, line, &rule.rule, message);
        }
        idx = idx + 1;
    }
}

} // verus!
