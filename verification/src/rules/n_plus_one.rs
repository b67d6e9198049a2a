//! `n_plus_one`: a `.await` inside a loop or iterator combinator on a
//! configured DB-touching expression.
//!
//! Loop tracking, the combinator list, and the suppression flag are owned by
//! [`crate::visitor::Visitor`]. This module decides whether the awaited
//! expression is a query, given the configuration.

use vstd::prelude::*;

use crate::config::NPlusOne;
use crate::glob::glob_match;
use crate::rules::forbidden_macros::last_segment;
use crate::rules::path_string::{self, path_text};
use crate::rules::{contains_name, first_glob_hit, first_hit, names_contain};
use crate::syntax::{Attribute, FnKind, Node, SynPath};
use crate::violations::ViolationView;
use crate::visitor::{push_violation, violation_at, Visitor, WalkCtx, WalkEnv};

verus! {

/// The path matches one of `db_path_patterns`.
pub open spec fn db_path_hit(n: NPlusOne, p: SynPath) -> bool {
    first_glob_hit(n.db_path_patterns@, path_text(p)) is Some
}

/// The macro's final segment is one of `db_macros`.
pub open spec fn db_macro_hit(n: NPlusOne, p: SynPath) -> bool {
    names_contain(n.db_macros@, last_segment(p))
}

/// Some path of the subtree matches `db_path_patterns`, or some macro's
/// final segment is one of `db_macros`. Nested `fn` items and `impl` blocks
/// are not looked into: their bodies do not run as part of the expression.
pub open spec fn hits_node(n: NPlusOne, node: Node) -> bool
    decreases node,
{
    match node {
        Node::Use { attrs, line, tree } => hits_attrs(n, attrs@),
        Node::Fn { kind, attrs, body } => kind != FnKind::Item && (hits_attrs(n, attrs@)
            || hits_nodes(n, body@)),
        Node::Impl { .. } => false,
        Node::Struct { attrs, name, line, body } => hits_attrs(n, attrs@) || hits_nodes(n, body@),
        Node::Mod { attrs, body } => hits_attrs(n, attrs@) || hits_nodes(n, body@),
        Node::Loop { body } => hits_nodes(n, body@),
        Node::ExprPath { path } => hits_path(n, path),
        Node::TypePath { path } => hits_path(n, path),
        Node::ExprStruct { attrs, path, body } => hits_attrs(n, attrs@) || hits_path(n, path)
            || hits_nodes(n, body@),
        Node::Path { path } => hits_path(n, path),
        Node::Macro { path } => db_macro_hit(n, path) || hits_path(n, path),
        Node::Await { attrs, line, base } => hits_attrs(n, attrs@) || hits_node(n, *base),
        Node::MethodCall { attrs, receiver, method, line, turbofish, args } => hits_attrs(n, attrs@)
            || hits_node(n, *receiver) || hits_nodes(n, turbofish@) || hits_nodes(n, args@),
        Node::Group { children } => hits_nodes(n, children@),
    }
}

pub open spec fn hits_nodes(n: NPlusOne, nodes: Seq<Node>) -> bool
    decreases nodes,
{
    if nodes.len() == 0 {
        false
    } else {
        hits_nodes(n, nodes.drop_last()) || hits_node(n, nodes.last())
    }
}

pub open spec fn hits_path(n: NPlusOne, p: SynPath) -> bool
    decreases p,
{
    db_path_hit(n, p) || hits_nodes(n, p.args@)
}

pub open spec fn hits_attrs(n: NPlusOne, attrs: Seq<Attribute>) -> bool
    decreases attrs,
{
    if attrs.len() == 0 {
        false
    } else {
        hits_attrs(n, attrs.drop_last()) || hits_path(n, attrs.last().path) || hits_nodes(
            n,
            attrs.last().value@,
        )
    }
}

/// The default message.
pub open spec fn default_message() -> Seq<char> {
    "`.await` on a db-touching call inside a loop or combinator. Each iteration issues a round-trip; batch with `WHERE id = ANY($1)`, a JOIN, or a multi-row INSERT. If batching is genuinely impossible (fan-out writes, polling, stream consumer), annotate the enclosing fn with the configured opt-out attribute."@
}

/// The violation (at most one) of `base.await` at `line`: when the rule is
/// configured, the walk is inside a loop or combinator, not in test code,
/// not suppressed, the layer is in `in_layers`, and the awaited expression is
/// a query (every await in a `layer_assumes_query` layer is one).
pub open spec fn await_violations(env: WalkEnv, c: WalkCtx, line: usize, base: Node) -> Seq<ViolationView> {
    match env.cfg.n_plus_one {
        None => Seq::empty(),
        Some(n) => if c.depth > 0 && !c.in_test && !c.suppressed && names_contain(
            n.in_layers@,
            env.layer.name@,
        ) && (names_contain(n.layer_assumes_query@, env.layer.name@) || hits_node(n, base)) {
            seq![
                violation_at(
                    env,
                    line,
                    n.rule@,
                    match n.message {
                        Some(t) => t@,
                        None => default_message(),
                    },
                ),
            ]
        } else {
            Seq::empty()
        },
    }
}

fn path_hits_db(n: &NPlusOne, p: &SynPath) -> (r: bool)
    ensures
        r == hits_path(*n, *p),
    decreases p,
{
    let s = path_string::of(p);
    if first_hit(&n.db_path_patterns, s.as_str()).is_some() {
        return true;
    }
    proof {
        assert(decreases_to!(*p => p.args));
    }
    nodes_hit_db(n, &p.args)
}

fn attrs_hit_db(n: &NPlusOne, attrs: &Vec<Attribute>) -> (r: bool)
    ensures
        r == hits_attrs(*n, attrs@),
    decreases attrs,
{
    let mut i: usize = 0;
    proof {
        assert(attrs@.take(0) =~= Seq::<Attribute>::empty());
    }
    while i < attrs.len()
        invariant
            i <= attrs@.len(),
            !hits_attrs(*n, attrs@.take(i as int)),
        decreases attrs@.len() - i,
    {
        proof {
            assert(attrs@.take(i + 1).drop_last() =~= attrs@.take(i as int));
            assert(attrs@.take(i + 1).last() == attrs@[i as int]);
            assert(decreases_to!(*attrs => attrs@));
            assert(decreases_to!(attrs@ => attrs@[i as int]));
            assert(decreases_to!(attrs@[i as int] => attrs@[i as int].path));
            assert(decreases_to!(attrs@[i as int] => attrs@[i as int].value));
        }
        if path_hits_db(n, &attrs[i].path) || nodes_hit_db(n, &attrs[i].value) {
            proof {
                lemma_hits_attrs_prefix(*n, attrs@, i as int);
            }
            return true;
        }
        i = i + 1;
    }
    assert(attrs@.take(i as int) =~= attrs@);
    false
}

proof fn lemma_hits_attrs_prefix(n: NPlusOne, attrs: Seq<Attribute>, i: int)
    requires
        0 <= i < attrs.len(),
        hits_path(n, attrs[i].path) || hits_nodes(n, attrs[i].value@),
    ensures
        hits_attrs(n, attrs),
    decreases attrs.len(),
{
    if i < attrs.len() - 1 {
        assert(attrs.drop_last()[i] == attrs[i]);
        lemma_hits_attrs_prefix(n, attrs.drop_last(), i);
    }
}

proof fn lemma_hits_nodes_prefix(n: NPlusOne, nodes: Seq<Node>, i: int)
    requires
        0 <= i < nodes.len(),
        hits_node(n, nodes[i]),
    ensures
        hits_nodes(n, nodes),
    decreases nodes.len(),
{
    if i < nodes.len() - 1 {
        assert(nodes.drop_last()[i] == nodes[i]);
        lemma_hits_nodes_prefix(n, nodes.drop_last(), i);
    }
}

fn nodes_hit_db(n: &NPlusOne, nodes: &Vec<Node>) -> (r: bool)
    ensures
        r == hits_nodes(*n, nodes@),
    decreases nodes,
{
    let mut i: usize = 0;
    proof {
        assert(nodes@.take(0) =~= Seq::<Node>::empty());
    }
    while i < nodes.len()
        invariant
            i <= nodes@.len(),
            !hits_nodes(*n, nodes@.take(i as int)),
        decreases nodes@.len() - i,
    {
        proof {
            assert(nodes@.take(i + 1).drop_last() =~= nodes@.take(i as int));
            assert(nodes@.take(i + 1).last() == nodes@[i as int]);
            assert(decreases_to!(*nodes => nodes@));
            assert(decreases_to!(nodes@ => nodes@[i as int]));
        }
        if node_hits_db(n, &nodes[i]) {
            proof {
                lemma_hits_nodes_prefix(*n, nodes@, i as int);
            }
            return true;
        }
        i = i + 1;
    }
    assert(nodes@.take(i as int) =~= nodes@);
    false
}

fn node_hits_db(n: &NPlusOne, node: &Node) -> (r: bool)
    ensures
        r == hits_node(*n, *node),
    decreases node,
{
    match node {
        Node::Use { attrs, .. } => {
            proof { assert(decreases_to!(*node => node->Use_attrs)); }
            attrs_hit_db(n, attrs)
        },
        Node::Fn { kind, attrs, body } => {
            proof {
                assert(decreases_to!(*node => node->Fn_attrs));
                assert(decreases_to!(*node => node->Fn_body));
            }
            *kind != FnKind::Item && (attrs_hit_db(n, attrs) || nodes_hit_db(n, body))
        },
        Node::Impl { .. } => false,
        Node::Struct { attrs, body, .. } => {
            proof {
                assert(decreases_to!(*node => node->Struct_attrs));
                assert(decreases_to!(*node => node->Struct_body));
            }
            attrs_hit_db(n, attrs) || nodes_hit_db(n, body)
        },
        Node::Mod { attrs, body } => {
            proof {
                assert(decreases_to!(*node => node->Mod_attrs));
                assert(decreases_to!(*node => node->Mod_body));
            }
            attrs_hit_db(n, attrs) || nodes_hit_db(n, body)
        },
        Node::Loop { body } => {
            proof { assert(decreases_to!(*node => node->Loop_body)); }
            nodes_hit_db(n, body)
        },
        Node::ExprPath { path } => {
            proof { assert(decreases_to!(*node => node->ExprPath_path)); }
            path_hits_db(n, path)
        },
        Node::TypePath { path } => {
            proof { assert(decreases_to!(*node => node->TypePath_path)); }
            path_hits_db(n, path)
        },
        Node::ExprStruct { attrs, path, body } => {
            proof {
                assert(decreases_to!(*node => node->ExprStruct_attrs));
                assert(decreases_to!(*node => node->ExprStruct_path));
                assert(decreases_to!(*node => node->ExprStruct_body));
            }
            attrs_hit_db(n, attrs) || path_hits_db(n, path) || nodes_hit_db(n, body)
        },
        Node::Path { path } => {
            proof { assert(decreases_to!(*node => node->Path_path)); }
            path_hits_db(n, path)
        },
        Node::Macro { path } => {
            proof { assert(decreases_to!(*node => node->Macro_path)); }
            let bare = if path.segments.len() > 0 {
                path.segments[path.segments.len() - 1].clone()
            } else {
                String::new()
            };
            contains_name(n.db_macros.as_slice(), &bare) || path_hits_db(n, path)
        },
        Node::Await { attrs, base, .. } => {
            proof {
                assert(decreases_to!(*node => node->Await_attrs));
                assert(decreases_to!(*node => node->Await_base));
            }
            attrs_hit_db(n, attrs) || node_hits_db(n, base)
        },
        Node::MethodCall { attrs, receiver, turbofish, args, .. } => {
            proof {
                assert(decreases_to!(*node => node->MethodCall_attrs));
                assert(decreases_to!(*node => node->MethodCall_receiver));
                assert(decreases_to!(*node => node->MethodCall_turbofish));
                assert(decreases_to!(*node => node->MethodCall_args));
            }
            attrs_hit_db(n, attrs) || node_hits_db(n, receiver) || nodes_hit_db(n, turbofish)
                || nodes_hit_db(n, args)
        },
        Node::Group { children } => {
            proof { assert(decreases_to!(*node => node->Group_children)); }
            nodes_hit_db(n, children)
        },
    }
}

/// Checks `base.await` at `line`.
pub fn check_await(visitor: &mut Visitor, line: usize, base: &Node)
    requires
        old(visitor).wf(),
    ensures
        final(visitor).same_walk(old(visitor)),
        final(visitor).found() == old(visitor).found() + await_violations(
            old(visitor).env(),
            old(visitor).ctx(),
            line,
            *base,
        ),
{
    let cfg = visitor.cfg;
    let ghost found0 = visitor.found();
    let n = match &cfg.n_plus_one {
        None => {
            assert(visitor.found() =~= found0 + Seq::<ViolationView>::empty());
            return;
        },
        Some(n) => n,
    };
    if visitor.loop_depth == 0 || visitor.in_test_context || visitor.n_plus_one_suppressed
        || !contains_name(n.in_layers.as_slice(), &visitor.layer.name) {
        assert(visitor.found() =~= found0 + Seq::<ViolationView>::empty());
        return;
    }
    let is_query = if contains_name(n.layer_assumes_query.as_slice(), &visitor.layer.name) {
        true
    } else {
        node_hits_db(n, base)
    };
    if !is_query {
        assert(visitor.found() =~= found0 + Seq::<ViolationView>::empty());
        return;
    }
    let message = match &n.message {
        Some(t) => t.clone(),
        None => String::from_str(
            "`.await` on a db-touching call inside a loop or combinator. Each iteration issues a round-trip; batch with `WHERE id = ANY($1)`, a JOIN, or a multi-row INSERT. If batching is genuinely impossible (fan-out writes, polling, stream consumer), annotate the enclosing fn with the configured opt-out attribute.",
        ),
    };
    push_violation(visitor, line, &n.rule, message);
}

/// A list of nodes is a query exactly when one of its nodes, at any
/// position, is.
pub proof fn law_query_in_any_node(n: NPlusOne, nodes: Seq<Node>)
    ensures
        hits_nodes(n, nodes) <==> exists|i: int| 0 <= i < nodes.len() && hits_node(n, #[trigger] nodes[i]),
    decreases nodes.len(),
{
    if nodes.len() > 0 {
        let d = nodes.drop_last();
        law_query_in_any_node(n, d);
        if hits_nodes(n, d) {
            let i = choose|i: int| 0 <= i < d.len() && hits_node(n, #[trigger] d[i]);
            assert(nodes[i] == d[i]);
        }
        if hits_node(n, nodes.last()) {
            assert(hits_node(n, nodes[nodes.len() - 1]));
        }
        if exists|i: int| 0 <= i < nodes.len() && hits_node(n, #[trigger] nodes[i]) {
            let i = choose|i: int| 0 <= i < nodes.len() && hits_node(n, #[trigger] nodes[i]);
            lemma_hits_nodes_prefix(n, nodes, i);
        }
    }
}

/// A method call is a query when its receiver, one of its turbofish types or
/// one of its arguments (at any position) is: the whole subtree of the
/// call is scanned.
pub proof fn law_method_call_scans_subtree(
    n: NPlusOne,
    attrs: Vec<Attribute>,
    receiver: Box<Node>,
    method: String,
    line: usize,
    turbofish: Vec<Node>,
    args: Vec<Node>,
)
    ensures
        hits_node(n, *receiver) ==> hits_node(
            n,
            Node::MethodCall { attrs, receiver, method, line, turbofish, args },
        ),
        (exists|i: int| 0 <= i < args@.len() && hits_node(n, #[trigger] args@[i])) ==> hits_node(
            n,
            Node::MethodCall { attrs, receiver, method, line, turbofish, args },
        ),
        (exists|i: int| 0 <= i < turbofish@.len() && hits_node(n, #[trigger] turbofish@[i])) ==> hits_node(
            n,
            Node::MethodCall { attrs, receiver, method, line, turbofish, args },
        ),
{
    law_query_in_any_node(n, args@);
    law_query_in_any_node(n, turbofish@);
}

/// An argument of a method call that is a path expression matching one of
/// `db_path_patterns` makes the call a query, whatever the receiver, the
/// method and the other arguments.
pub proof fn law_db_path_argument_is_query(
    n: NPlusOne,
    attrs: Vec<Attribute>,
    receiver: Box<Node>,
    method: String,
    line: usize,
    turbofish: Vec<Node>,
    args: Vec<Node>,
    i: int,
    j: int,
)
    requires
        0 <= i < args@.len(),
        0 <= j < n.db_path_patterns@.len(),
        args@[i] is ExprPath,
        glob_match(n.db_path_patterns@[j]@, path_text(args@[i]->ExprPath_path)),
    ensures
        hits_node(n, Node::MethodCall { attrs, receiver, method, line, turbofish, args }),
{
    let p = args@[i]->ExprPath_path;
    crate::rules::lemma_first_glob_hit_iff(n.db_path_patterns@, path_text(p));
    assert(db_path_hit(n, p));
    assert(hits_path(n, p));
    assert(args@[i] == Node::ExprPath { path: p });
    assert(hits_node(n, args@[i]));
    law_method_call_scans_subtree(n, attrs, receiver, method, line, turbofish, args);
}

/// Awaiting, grouping and looping keep a query a query: the awaited
/// expression, every child of other syntax and every node of a loop are
/// scanned.
pub proof fn law_nested_query_is_query(
    n: NPlusOne,
    attrs: Vec<Attribute>,
    line: usize,
    base: Box<Node>,
    children: Vec<Node>,
    i: int,
)
    ensures
        hits_node(n, *base) ==> hits_node(n, Node::Await { attrs, line, base }),
        0 <= i < children@.len() && hits_node(n, children@[i]) ==> hits_node(
            n,
            Node::Group { children },
        ) && hits_node(n, Node::Loop { body: children }),
{
    if 0 <= i < children@.len() && hits_node(n, children@[i]) {
        lemma_hits_nodes_prefix(n, children@, i);
    }
}

/// The leaves of a query: a path (in expression, type or any other
/// position) that matches one of `db_path_patterns`, and a macro whose final
/// segment is one of `db_macros`; a struct literal with a query among its
/// fields is a query too.
pub proof fn law_query_leaves(
    n: NPlusOne,
    path: SynPath,
    attrs: Vec<Attribute>,
    fields: Vec<Node>,
    i: int,
)
    ensures
        (exists|j: int|
            0 <= j < n.db_path_patterns@.len() && glob_match(
                (#[trigger] n.db_path_patterns@[j])@,
                path_text(path),
            )) ==> hits_node(n, Node::ExprPath { path }) && hits_node(n, Node::TypePath { path })
            && hits_node(n, Node::Path { path }) && hits_node(n, Node::Macro { path }),
        (exists|j: int| 0 <= j < n.db_macros@.len() && (#[trigger] n.db_macros@[j])@ == last_segment(path))
            ==> hits_node(n, Node::Macro { path }),
        0 <= i < fields@.len() && hits_node(n, fields@[i]) ==> hits_node(
            n,
            Node::ExprStruct { attrs, path, body: fields },
        ),
{
    crate::rules::lemma_first_glob_hit_iff(n.db_path_patterns@, path_text(path));
    if first_glob_hit(n.db_path_patterns@, path_text(path)) is Some {
        assert(db_path_hit(n, path));
        assert(hits_path(n, path));
    }
    if 0 <= i < fields@.len() && hits_node(n, fields@[i]) {
        lemma_hits_nodes_prefix(n, fields@, i);
    }
}

/// Inside a loop or combinator, outside test code and suppression, in one of
/// `in_layers`, awaiting a method call one of whose arguments is a query
/// reports exactly one violation, under the configured rule name and at the
/// `.await` line.
pub proof fn law_query_argument_await_reported(
    env: WalkEnv,
    c: WalkCtx,
    await_line: usize,
    attrs: Vec<Attribute>,
    receiver: Box<Node>,
    method: String,
    line: usize,
    turbofish: Vec<Node>,
    args: Vec<Node>,
    i: int,
)
    requires
        env.cfg.n_plus_one is Some,
        c.depth > 0,
        !c.in_test,
        !c.suppressed,
        names_contain(env.cfg.n_plus_one->0.in_layers@, env.layer.name@),
        0 <= i < args@.len(),
        hits_node(env.cfg.n_plus_one->0, args@[i]),
    ensures
        await_violations(
            env,
            c,
            await_line,
            Node::MethodCall { attrs, receiver, method, line, turbofish, args },
        ).len() == 1,
        await_violations(
            env,
            c,
            await_line,
            Node::MethodCall { attrs, receiver, method, line, turbofish, args },
        )[0].rule == env.cfg.n_plus_one->0.rule@,
        await_violations(
            env,
            c,
            await_line,
            Node::MethodCall { attrs, receiver, method, line, turbofish, args },
        )[0].line == await_line,
{
    law_method_call_scans_subtree(env.cfg.n_plus_one->0, attrs, receiver, method, line, turbofish, args);
}

/// The scan of an awaited expression does not look into nested `fn` items
/// or `impl` blocks: their bodies do not run as part of the expression.
pub proof fn law_nested_items_not_scanned(
    n: NPlusOne,
    fn_attrs: Vec<Attribute>,
    fn_body: Vec<Node>,
    impl_attrs: Vec<Attribute>,
    line: usize,
    self_ty: String,
    impl_body: Vec<Node>,
)
    ensures
        !hits_node(n, Node::Fn { kind: FnKind::Item, attrs: fn_attrs, body: fn_body }),
        !hits_node(n, Node::Impl { attrs: impl_attrs, line, self_ty, body: impl_body }),
{
}

} // verus!
