//! The syntax of one Rust source file, as the rule engine reads it.
//!
//! Only what the rules consult is kept: `use` trees, paths in expression and
//! type position, macro paths, `.await` expressions, method calls, loops,
//! item attributes, and the nesting of `fn` / `impl` / `mod` / `struct`
//! items. Every other piece of syntax is a [`Node::Group`] that holds its
//! children in the order a syntax walk visits them.

use vstd::prelude::*;

verus! {

/// A path such as `crate::db::User`: the identifiers of its segments, the
/// line of its first segment (0 when it has none), and the syntax inside its
/// generic arguments (and qualified self type), in walk order.
pub struct SynPath {
    pub leading_colon: bool,
    pub segments: Vec<String>,
    pub line: usize,
    pub args: Vec<Node>,
}

/// An outer or inner attribute: its path, the whole attribute rendered as a
/// token string (e.g. `# [cfg (test)]`), and the syntax of a `= value` part.
pub struct Attribute {
    pub path: SynPath,
    pub tokens: String,
    pub value: Vec<Node>,
}

/// The tree of a `use` item.
pub enum UseTree {
    /// `ident::<tree>`
    Path { ident: String, tree: Box<UseTree> },
    /// `ident`
    Name { ident: String },
    /// `ident as rename`
    Rename { ident: String, rename: String },
    /// `*`
    Glob,
    /// `{a, b, ...}`
    Group { items: Vec<UseTree> },
}

/// Which kind of function item.
#[derive(PartialEq, Eq, Structural, Clone, Copy)]
pub enum FnKind {
    /// A free `fn` item (also one nested in a block).
    Item,
    /// A method in an `impl` block.
    ImplItem,
    /// A method with a default body in a `trait`.
    TraitItem,
}

/// One node of the syntax walk.
pub enum Node {
    /// `use ...;`
    Use { attrs: Vec<Attribute>, line: usize, tree: UseTree },
    /// A function: its attributes, then its signature and body in walk order.
    Fn { kind: FnKind, attrs: Vec<Attribute>, body: Vec<Node> },
    /// `impl ... { ... }`: the line of `impl`, the self type rendered as a
    /// token string, then generics, trait path, self type and items in walk
    /// order.
    Impl { attrs: Vec<Attribute>, line: usize, self_ty: String, body: Vec<Node> },
    /// `struct Name ...`: its name and the line of the name, then generics and
    /// fields in walk order.
    Struct { attrs: Vec<Attribute>, name: String, line: usize, body: Vec<Node> },
    /// `mod name { ... }`
    Mod { attrs: Vec<Attribute>, body: Vec<Node> },
    /// `for` / `while` / `loop`, with everything in it (header included).
    Loop { body: Vec<Node> },
    /// A path in expression position.
    ExprPath { path: SynPath },
    /// A path in type position.
    TypePath { path: SynPath },
    /// A struct literal `Path { fields.. }`: its attributes, path, then the
    /// field expressions and the `..rest` part in walk order.
    ExprStruct { attrs: Vec<Attribute>, path: SynPath, body: Vec<Node> },
    /// A path in any other position (trait, pattern, visibility, bound, ...).
    Path { path: SynPath },
    /// A macro invocation (its tokens are not walked).
    Macro { path: SynPath },
    /// `base.await`: its attributes, the line of `await`, and the awaited
    /// expression.
    Await { attrs: Vec<Attribute>, line: usize, base: Box<Node> },
    /// `receiver.method::<turbofish>(args)`, with the line of the method name.
    MethodCall {
        attrs: Vec<Attribute>,
        receiver: Box<Node>,
        method: String,
        line: usize,
        turbofish: Vec<Node>,
        args: Vec<Node>,
    },
    /// Any other syntax: its children in walk order.
    Group { children: Vec<Node> },
}

/// A parsed source file: inner attributes and items.
pub struct SourceFile {
    pub attrs: Vec<Attribute>,
    pub items: Vec<Node>,
}

} // verus!
