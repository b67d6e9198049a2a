//! Expand a `use` tree into the individual fully-qualified paths it
//! introduces. Groups expand so each path is checked against patterns
//! independently.
//!
//! - `use axum::http::StatusCode;` → `["axum::http::StatusCode"]`
//! - `use axum::{Json, http};` → `["axum::Json", "axum::http"]`
//! - `use axum::extract::*;` → `["axum::extract::*"]` (the literal `*`)
//! - `use db::User as Person;` → `["db::User"]` (the alias is irrelevant for
//!   import boundary checks)

use vstd::prelude::*;

use crate::syntax::UseTree;

verus! {

/// `prefix::leaf`, or `leaf` when the prefix is empty.
pub open spec fn joined(prefix: Seq<char>, leaf: Seq<char>) -> Seq<char> {
    if prefix.len() == 0 {
        leaf
    } else {
        prefix + "::"@ + leaf
    }
}

/// The paths `tree` introduces below `prefix`, in source order.
pub open spec fn expand_paths(tree: UseTree, prefix: Seq<char>) -> Seq<Seq<char>>
    decreases tree,
{
    match tree {
        UseTree::Path { ident, tree } => expand_paths(*tree, joined(prefix, ident@)),
        UseTree::Name { ident } => seq![joined(prefix, ident@)],
        UseTree::Rename { ident, rename } => seq![joined(prefix, ident@)],
        UseTree::Glob => seq![joined(prefix, "*"@)],
        UseTree::Group { items } => expand_group(items@, prefix),
    }
}

/// The paths of each item of a group, concatenated in order.
pub open spec fn expand_group(items: Seq<UseTree>, prefix: Seq<char>) -> Seq<Seq<char>>
    decreases items,
{
    if items.len() == 0 {
        Seq::empty()
    } else {
        expand_group(items.drop_last(), prefix) + expand_paths(items.last(), prefix)
    }
}

/// The paths `tree` introduces, in source order.
pub open spec fn use_paths(tree: UseTree) -> Seq<Seq<char>> {
    expand_paths(tree, Seq::empty())
}

/// Every fully-qualified path `tree` introduces.
pub fn paths(tree: &UseTree) -> (r: Vec<String>)
    ensures
        r@.map_values(|s: String| s@) == use_paths(*tree),
{
    let mut out: Vec<String> = Vec::new();
    let empty = String::new();
    expand(tree, &empty, &mut out);
    assert(out@.map_values(|s: String| s@) =~= use_paths(*tree));
    out
}

/// `prefix::leaf`, or `leaf` when the prefix is empty.
fn join(prefix: &String, leaf: &String) -> (r: String)
    ensures
        r@ == joined(prefix@, leaf@),
{
    if prefix.as_str().is_empty() {
        leaf.clone()
    } else {
        let mut s = prefix.clone();
        s.append("::");
        s.append(leaf.as_str());
        s
    }
}

fn expand(tree: &UseTree, prefix: &String, out: &mut Vec<String>)
    ensures
        final(out)@.map_values(|s: String| s@) == old(out)@.map_values(|s: String| s@)
            + expand_paths(*tree, prefix@),
    decreases tree,
{
    match tree {
        UseTree::Path { ident, tree: sub } => {
            let p = join(prefix, ident);
            expand(sub, &p, out);
        },
        UseTree::Name { ident } => {
            let ghost before = out@;
            out.push(join(prefix, ident));
            assert(out@.map_values(|s: String| s@) =~= before.map_values(|s: String| s@) + expand_paths(*tree, prefix@));
        },
        UseTree::Rename { ident, rename: _ } => {
            let ghost before = out@;
            out.push(join(prefix, ident));
            assert(out@.map_values(|s: String| s@) =~= before.map_values(|s: String| s@) + expand_paths(*tree, prefix@));
        },
        UseTree::Glob => {
            let ghost before = out@;
            let star = String::from_str("*");
            out.push(join(prefix, &star));
            assert(out@.map_values(|s: String| s@) =~= before.map_values(|s: String| s@) + expand_paths(*tree, prefix@));
        },
        UseTree::Group { items } => {
            let ghost before = out@.map_values(|s: String| s@);
            let mut i: usize = 0;
            while i < items.len()
                invariant
                    i <= items@.len(),
                    *tree == (UseTree::Group { items: *items }),
                    out@.map_values(|s: String| s@) == before + expand_group(items@.take(i as int), prefix@),
                decreases items@.len() - i,
            {
                proof {
                    assert(items@.take(i + 1).drop_last() =~= items@.take(i as int));
                    assert(items@.take(i + 1).last() == items@[i as int]);
                }
                proof {
                    assert(decreases_to!(*tree => tree->items));
                    assert(decreases_to!(*items => items@));
                    assert(decreases_to!(items@ => items@[i as int]));
                    assert(decreases_to!(*tree => items@[i as int]));
                }
                expand(&items[i], prefix, out);
                i = i + 1;
            }
            assert(items@.take(i as int) =~= items@);
        },
    }
}

} // verus!
