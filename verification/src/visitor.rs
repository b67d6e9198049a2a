//! The syntax walk over one source file.
//!
//! The walk threads the contextual flags every rule needs:
//!
//! - `in_test_context` — initialized from the layer's `implicit_test_context`,
//!   then set by `#[test]`-like / `#[cfg(..test..)]` attributes on enclosing
//!   `fn` / `impl` / `mod` items, and restored on exit.
//! - `loop_depth` — raised on `for` / `while` / `loop` and while walking the
//!   *arguments* of an iterator combinator method call (configured via
//!   `n_plus_one.combinators`); the combinator's receiver is walked at the
//!   outer depth. Reset to 0 on entry to a nested `fn`, restored on exit.
//! - `n_plus_one_suppressed` — set when the enclosing `fn` carries the
//!   configured `n_plus_one.opt_out_attribute` (matched against the final
//!   path segment). Restored on exit.

use vstd::prelude::*;

use crate::config::{Config, Layer, Position};
use crate::glob::fs_path::strings_view;
use crate::layers::{config_exempt_at, LayerSet};
use crate::rules::forbidden_imports::import_violations;
use crate::rules::forbidden_inline_paths::inline_violations;
use crate::rules::forbidden_macros::macro_violations;
use crate::rules::forbidden_methods::method_violations;
use crate::rules::n_plus_one::await_violations;
use crate::rules::required_struct_attrs::{impl_violations, struct_violations};
use crate::rules::{self, contains_name, names_contain, CompiledRules};
use crate::syntax::{Attribute, FnKind, Node, SourceFile, SynPath};
use crate::text::contains_seq;
use crate::violations::{Violation, ViolationView};

verus! {

/// The walk's state for one file.
pub struct Visitor<'a> {
    pub cfg: &'a Config,
    pub layer_set: &'a LayerSet<'a>,
    pub compiled: &'a CompiledRules,
    pub layer: &'a Layer,
    /// The file as reported in violations.
    pub path: &'a str,
    /// The file relative to `src_root`.
    pub rel_path: &'a str,
    pub in_test_context: bool,
    pub loop_depth: usize,
    pub n_plus_one_suppressed: bool,
    pub violations: Vec<Violation>,
}

/// What stays fixed during the walk of one file.
pub struct WalkEnv {
    pub cfg: Config,
    pub layer: Layer,
    pub file: Seq<char>,
    pub rel: Seq<char>,
}

/// The contextual flags of the walk.
pub struct WalkCtx {
    pub in_test: bool,
    pub depth: usize,
    pub suppressed: bool,
}

impl<'a> Visitor<'a> {
    pub open spec fn env(&self) -> WalkEnv {
        WalkEnv {
            cfg: *self.cfg,
            layer: *self.layer,
            file: self.path@,
            rel: self.rel_path@,
        }
    }

    pub open spec fn ctx(&self) -> WalkCtx {
        WalkCtx {
            in_test: self.in_test_context,
            depth: self.loop_depth,
            suppressed: self.n_plus_one_suppressed,
        }
    }

    /// The compiled scopes are parallel to the configuration's rule entries.
    pub open spec fn wf(&self) -> bool {
        self.compiled.compiles(self.cfg)
    }

    /// The violations found so far.
    pub open spec fn found(&self) -> Seq<ViolationView> {
        crate::violations::views(self.violations@)
    }

    /// `other` is this visitor with only `found` possibly extended.
    pub open spec fn same_walk(&self, other: &Visitor<'a>) -> bool {
        &&& self.cfg == other.cfg
        &&& self.layer_set == other.layer_set
        &&& self.compiled == other.compiled
        &&& self.layer == other.layer
        &&& self.path == other.path
        &&& self.rel_path == other.rel_path
        &&& self.ctx() == other.ctx()
    }
}

/// A violation of the walked file.
pub open spec fn violation_at(env: WalkEnv, line: usize, rule: Seq<char>, message: Seq<char>) -> ViolationView {
    ViolationView { file: env.file, line, rule, message }
}

/// Records a violation of the walked file.
pub fn push_violation(v: &mut Visitor, line: usize, rule: &String, message: String)
    ensures
        final(v).same_walk(old(v)),
        final(v).found() == old(v).found().push(violation_at(old(v).env(), line, rule@, message@)),
{
    let ghost before = v.violations@;
    let file = String::from_str(v.path);
    v.violations.push(Violation { file, line, rule: rule.clone(), message });
    proof {
        assert(crate::violations::views(v.violations@) =~= crate::violations::views(before).push(
            violation_at(old(v).env(), line, rule@, message@),
        ));
    }
}

/// `#[test]`, `#[tokio::test]` (any path whose final segment is `test`), or
/// `#[cfg(..)]` whose tokens mention `test`.
pub open spec fn attr_is_test(a: Attribute) -> bool {
    ||| (a.path.segments@.len() > 0 && a.path.segments@.last()@ == "test"@)
    ||| (!a.path.leading_colon && a.path.segments@.len() == 1 && a.path.segments@[0]@ == "cfg"@
        && contains_seq(a.tokens@, "test"@))
}

/// One of the attributes marks test code.
pub open spec fn test_scoped(attrs: Seq<Attribute>) -> bool {
    exists|i: int| 0 <= i < attrs.len() && attr_is_test(#[trigger] attrs[i])
}

/// One of the attributes has `name` as the final segment of its path.
pub open spec fn has_attr_named(attrs: Seq<Attribute>, name: Seq<char>) -> bool {
    exists|i: int|
        0 <= i < attrs.len() && (#[trigger] attrs[i]).path.segments@.len() > 0
            && attrs[i].path.segments@.last()@ == name
}

/// The context inside a function with attributes `attrs`: test code if the
/// enclosing context is or an attribute says so; loop depth 0; suppressed if
/// the enclosing context is or the function carries the opt-out attribute.
pub open spec fn enter_fn(env: WalkEnv, c: WalkCtx, attrs: Seq<Attribute>) -> WalkCtx {
    WalkCtx {
        in_test: c.in_test || test_scoped(attrs),
        depth: 0,
        suppressed: c.suppressed || match env.cfg.n_plus_one {
            Some(n) => has_attr_named(attrs, n.opt_out_attribute@),
            None => false,
        },
    }
}

/// The context inside an `impl` or `mod` with attributes `attrs`.
pub open spec fn enter_scope(c: WalkCtx, attrs: Seq<Attribute>) -> WalkCtx {
    WalkCtx { in_test: c.in_test || test_scoped(attrs), ..c }
}

/// The context one loop deeper (the depth saturates at `usize::MAX`).
pub open spec fn deeper(c: WalkCtx) -> WalkCtx {
    WalkCtx { depth: if c.depth < usize::MAX { (c.depth + 1) as usize } else { c.depth }, ..c }
}

/// `method` is one of the configured iterator combinators.
pub open spec fn is_combinator_spec(env: WalkEnv, method: Seq<char>) -> bool {
    match env.cfg.n_plus_one {
        Some(n) => names_contain(n.combinators@, method),
        None => false,
    }
}

/// The violations found walking `node` in context `c`, in walk order.
pub open spec fn walk_node(env: WalkEnv, c: WalkCtx, node: Node) -> Seq<ViolationView>
    decreases node,
{
    match node {
        Node::Use { attrs, line, tree } => import_violations(env, c, line, tree) + walk_attrs(
            env,
            c,
            attrs@,
        ),
        Node::Fn { kind, attrs, body } => walk_attrs(env, enter_fn(env, c, attrs@), attrs@)
            + walk_nodes(env, enter_fn(env, c, attrs@), body@),
        Node::Impl { attrs, line, self_ty, body } => impl_violations(env, c, self_ty@, line, attrs@)
            + walk_attrs(env, enter_scope(c, attrs@), attrs@) + walk_nodes(
            env,
            enter_scope(c, attrs@),
            body@,
        ),
        Node::Struct { attrs, name, line, body } => struct_violations(env, c, name@, line, attrs@)
            + walk_attrs(env, c, attrs@) + walk_nodes(env, c, body@),
        Node::Mod { attrs, body } => walk_attrs(env, enter_scope(c, attrs@), attrs@) + walk_nodes(
            env,
            enter_scope(c, attrs@),
            body@,
        ),
        Node::Loop { body } => walk_nodes(env, deeper(c), body@),
        Node::ExprPath { path } => inline_violations(env, c, path, Position::Expr) + walk_path(
            env,
            c,
            path,
        ),
        Node::TypePath { path } => inline_violations(env, c, path, Position::Type) + walk_path(
            env,
            c,
            path,
        ),
        Node::ExprStruct { attrs, path, body } => inline_violations(env, c, path, Position::Expr)
            + walk_attrs(env, c, attrs@) + walk_path(env, c, path) + walk_nodes(env, c, body@),
        Node::Path { path } => walk_path(env, c, path),
        Node::Macro { path } => macro_violations(env, c, path) + walk_path(env, c, path),
        Node::Await { attrs, line, base } => await_violations(env, c, line, *base) + walk_attrs(
            env,
            c,
            attrs@,
        ) + walk_node(env, c, *base),
        Node::MethodCall { attrs, receiver, method, line, turbofish, args } => method_violations(
            env,
            c,
            method@,
            line,
        ) + walk_attrs(env, c, attrs@) + walk_node(env, c, *receiver) + walk_nodes(
            env,
            c,
            turbofish@,
        ) + walk_nodes(
            env,
            if is_combinator_spec(env, method@) {
                deeper(c)
            } else {
                c
            },
            args@,
        ),
        Node::Group { children } => walk_nodes(env, c, children@),
    }
}

/// The violations found walking `nodes` in order.
pub open spec fn walk_nodes(env: WalkEnv, c: WalkCtx, nodes: Seq<Node>) -> Seq<ViolationView>
    decreases nodes,
{
    if nodes.len() == 0 {
        Seq::empty()
    } else {
        walk_nodes(env, c, nodes.drop_last()) + walk_node(env, c, nodes.last())
    }
}

/// The violations found in the generic arguments of a path.
pub open spec fn walk_path(env: WalkEnv, c: WalkCtx, p: SynPath) -> Seq<ViolationView>
    decreases p,
{
    walk_nodes(env, c, p.args@)
}

/// The violations found in attributes (their paths and values).
pub open spec fn walk_attrs(env: WalkEnv, c: WalkCtx, attrs: Seq<Attribute>) -> Seq<ViolationView>
    decreases attrs,
{
    if attrs.len() == 0 {
        Seq::empty()
    } else {
        walk_attrs(env, c, attrs.drop_last()) + walk_path(env, c, attrs.last().path) + walk_nodes(
            env,
            c,
            attrs.last().value@,
        )
    }
}

/// The violations found walking a whole file.
pub open spec fn walk_file(env: WalkEnv, c: WalkCtx, f: SourceFile) -> Seq<ViolationView> {
    walk_attrs(env, c, f.attrs@) + walk_nodes(env, c, f.items@)
}

/// Whether an attribute marks test code.
fn attr_is_test_exec(a: &Attribute) -> (r: bool)
    ensures
        r == attr_is_test(*a),
{
    let n = a.path.segments.len();
    if n > 0 && crate::text::str_eq(a.path.segments[n - 1].as_str(), "test") {
        return true;
    }
    if !a.path.leading_colon && n == 1 && crate::text::str_eq(a.path.segments[0].as_str(), "cfg") {
        return crate::text::contains(a.tokens.as_str(), "test");
    }
    false
}

/// `#[test]`, `#[cfg(test)]`, `#[cfg(any(test, ...))]`, or any attribute
/// whose path's final segment is `test` (`#[tokio::test]`, ...).
pub fn item_is_test_scoped(attrs: &Vec<Attribute>) -> (r: bool)
    ensures
        r == test_scoped(attrs@),
{
    let mut i: usize = 0;
    while i < attrs.len()
        invariant
            i <= attrs@.len(),
            forall|j: int| 0 <= j < i ==> !attr_is_test(#[trigger] attrs@[j]),
        decreases attrs@.len() - i,
    {
        if attr_is_test_exec(&attrs[i]) {
            return true;
        }
        i = i + 1;
    }
    false
}

/// True if any attribute's final path segment equals `name`.
pub fn has_attr_named_exec(attrs: &Vec<Attribute>, name: &String) -> (r: bool)
    ensures
        r == has_attr_named(attrs@, name@),
{
    let mut i: usize = 0;
    while i < attrs.len()
        invariant
            i <= attrs@.len(),
            forall|j: int|
                0 <= j < i ==> !((#[trigger] attrs@[j]).path.segments@.len() > 0
                    && attrs@[j].path.segments@.last()@ == name@),
        decreases attrs@.len() - i,
    {
        let n = attrs[i].path.segments.len();
        if n > 0 && attrs[i].path.segments[n - 1] == *name {
            return true;
        }
        i = i + 1;
    }
    false
}

impl<'a> Visitor<'a> {
    fn is_combinator(&self, name: &String) -> (r: bool)
        ensures
            r == is_combinator_spec(self.env(), name@),
    {
        match &self.cfg.n_plus_one {
            Some(n) => contains_name(n.combinators.as_slice(), name),
            None => false,
        }
    }

    fn enter_fn_ctx(&mut self, attrs: &Vec<Attribute>)
        ensures
            final(self).ctx() == enter_fn(old(self).env(), old(self).ctx(), attrs@),
            final(self).cfg == old(self).cfg,
            final(self).layer_set == old(self).layer_set,
            final(self).compiled == old(self).compiled,
            final(self).layer == old(self).layer,
            final(self).path == old(self).path,
            final(self).rel_path == old(self).rel_path,
            final(self).violations == old(self).violations,
    {
        if item_is_test_scoped(attrs) {
            self.in_test_context = true;
        }
        match &self.cfg.n_plus_one {
            Some(n) => {
                if has_attr_named_exec(attrs, &n.opt_out_attribute) {
                    self.n_plus_one_suppressed = true;
                }
            },
            None => {},
        }
        self.loop_depth = 0;
    }

    fn restore(&mut self, c: WalkCtx)
        ensures
            final(self).ctx() == c,
            final(self).cfg == old(self).cfg,
            final(self).layer_set == old(self).layer_set,
            final(self).compiled == old(self).compiled,
            final(self).layer == old(self).layer,
            final(self).path == old(self).path,
            final(self).rel_path == old(self).rel_path,
            final(self).violations == old(self).violations,
    {
        self.in_test_context = c.in_test;
        self.loop_depth = c.depth;
        self.n_plus_one_suppressed = c.suppressed;
    }

    fn current(&self) -> (r: WalkCtx)
        ensures
            r == self.ctx(),
    {
        WalkCtx {
            in_test: self.in_test_context,
            depth: self.loop_depth,
            suppressed: self.n_plus_one_suppressed,
        }
    }

    fn go_deeper(&mut self)
        ensures
            final(self).ctx() == deeper(old(self).ctx()),
            final(self).cfg == old(self).cfg,
            final(self).layer_set == old(self).layer_set,
            final(self).compiled == old(self).compiled,
            final(self).layer == old(self).layer,
            final(self).path == old(self).path,
            final(self).rel_path == old(self).rel_path,
            final(self).violations == old(self).violations,
    {
        if self.loop_depth < usize::MAX {
            self.loop_depth = self.loop_depth + 1;
        }
    }

    /// Walks one node.
    pub fn visit_node(&mut self, node: &Node)
        requires
            old(self).wf(),
        ensures
            final(self).same_walk(old(self)),
            final(self).found() == old(self).found() + walk_node(old(self).env(), old(self).ctx(), *node),
        decreases node,
    {
        let ghost env = self.env();
        let ghost c = self.ctx();
        let ghost found0 = self.found();
        let saved = self.current();
        match node {
            Node::Use { attrs, line, tree } => {
                proof { assert(decreases_to!(*node => node->Use_attrs)); }
                rules::forbidden_imports::check(self, *line, tree);
                self.visit_attrs(attrs);
            },
            Node::Fn { kind: _, attrs, body } => {
                proof {
                    assert(decreases_to!(*node => node->Fn_attrs));
                    assert(decreases_to!(*node => node->Fn_body));
                }
                self.enter_fn_ctx(attrs);
                self.visit_attrs(attrs);
                self.visit_nodes(body);
                self.restore(saved);
            },
            Node::Impl { attrs, line, self_ty, body } => {
                proof {
                    assert(decreases_to!(*node => node->Impl_attrs));
                    assert(decreases_to!(*node => node->Impl_body));
                }
                rules::required_struct_attrs::check_impl(self, self_ty, *line, attrs);
                if item_is_test_scoped(attrs) {
                    self.in_test_context = true;
                }
                self.visit_attrs(attrs);
                self.visit_nodes(body);
                self.restore(saved);
            },
            Node::Struct { attrs, name, line, body } => {
                proof {
                    assert(decreases_to!(*node => node->Struct_attrs));
                    assert(decreases_to!(*node => node->Struct_body));
                }
                rules::required_struct_attrs::check_struct(self, name, *line, attrs);
                self.visit_attrs(attrs);
                self.visit_nodes(body);
            },
            Node::Mod { attrs, body } => {
                proof {
                    assert(decreases_to!(*node => node->Mod_attrs));
                    assert(decreases_to!(*node => node->Mod_body));
                }
                if item_is_test_scoped(attrs) {
                    self.in_test_context = true;
                }
                self.visit_attrs(attrs);
                self.visit_nodes(body);
                self.restore(saved);
            },
            Node::Loop { body } => {
                proof { assert(decreases_to!(*node => node->Loop_body)); }
                self.go_deeper();
                self.visit_nodes(body);
                self.restore(saved);
            },
            Node::ExprPath { path } => {
                proof { assert(decreases_to!(*node => node->ExprPath_path)); }
                rules::forbidden_inline_paths::check_expr(self, path);
                self.visit_path(path);
            },
            Node::TypePath { path } => {
                proof { assert(decreases_to!(*node => node->TypePath_path)); }
                rules::forbidden_inline_paths::check_type(self, path);
                self.visit_path(path);
            },
            Node::ExprStruct { attrs, path, body } => {
                proof {
                    assert(decreases_to!(*node => node->ExprStruct_attrs));
                    assert(decreases_to!(*node => node->ExprStruct_path));
                    assert(decreases_to!(*node => node->ExprStruct_body));
                }
                // Struct literal paths never reach the expression-path case;
                // check them at expression position here.
                rules::forbidden_inline_paths::check_path_at(self, path, Position::Expr);
                self.visit_attrs(attrs);
                self.visit_path(path);
                self.visit_nodes(body);
            },
            Node::Path { path } => {
                proof { assert(decreases_to!(*node => node->Path_path)); }
                self.visit_path(path);
            },
            Node::Macro { path } => {
                proof { assert(decreases_to!(*node => node->Macro_path)); }
                rules::forbidden_macros::check(self, path);
                self.visit_path(path);
            },
            Node::Await { attrs, line, base } => {
                proof {
                    assert(decreases_to!(*node => node->Await_attrs));
                    assert(decreases_to!(*node => node->Await_base));
                }
                rules::n_plus_one::check_await(self, *line, base);
                self.visit_attrs(attrs);
                self.visit_node(base);
            },
            Node::MethodCall { attrs, receiver, method, line, turbofish, args } => {
                proof {
                    assert(decreases_to!(*node => node->MethodCall_attrs));
                    assert(decreases_to!(*node => node->MethodCall_receiver));
                    assert(decreases_to!(*node => node->MethodCall_turbofish));
                    assert(decreases_to!(*node => node->MethodCall_args));
                }
                rules::forbidden_methods::check(self, method, *line);
                // The receiver is the upstream chain, evaluated once at the
                // outer depth; only the arguments run per element.
                self.visit_attrs(attrs);
                self.visit_node(receiver);
                self.visit_nodes(turbofish);
                let combinator = self.is_combinator(method);
                if combinator {
                    self.go_deeper();
                }
                self.visit_nodes(args);
                self.restore(saved);
            },
            Node::Group { children } => {
                proof { assert(decreases_to!(*node => node->Group_children)); }
                self.visit_nodes(children);
            },
        }
    }

    /// Walks nodes in order.
    pub fn visit_nodes(&mut self, nodes: &Vec<Node>)
        requires
            old(self).wf(),
        ensures
            final(self).same_walk(old(self)),
            final(self).found() == old(self).found() + walk_nodes(old(self).env(), old(self).ctx(), nodes@),
        decreases nodes,
    {
        let ghost env = self.env();
        let ghost c = self.ctx();
        let ghost found0 = self.found();
        let ghost v0 = *self;
        let mut i: usize = 0;
        proof {
            assert(nodes@.take(0) =~= Seq::<Node>::empty());
        }
        while i < nodes.len()
            invariant
                self.same_walk(&v0),
                v0 == *old(self),
                env == old(self).env(),
                c == old(self).ctx(),
                found0 == old(self).found(),
                self.wf(),
                env == self.env(),
                c == self.ctx(),
                i <= nodes@.len(),
                self.found() == found0 + walk_nodes(env, c, nodes@.take(i as int)),
            decreases nodes@.len() - i,
        {
            proof {
                assert(nodes@.take(i + 1).drop_last() =~= nodes@.take(i as int));
                assert(nodes@.take(i + 1).last() == nodes@[i as int]);
                assert(decreases_to!(*nodes => nodes@));
                assert(decreases_to!(nodes@ => nodes@[i as int]));
            }
            self.visit_node(&nodes[i]);
            i = i + 1;
        }
        assert(nodes@.take(i as int) =~= nodes@);
    }

    /// Walks the generic arguments of a path.
    pub fn visit_path(&mut self, p: &SynPath)
        requires
            old(self).wf(),
        ensures
            final(self).same_walk(old(self)),
            final(self).found() == old(self).found() + walk_path(old(self).env(), old(self).ctx(), *p),
        decreases p,
    {
        proof { assert(decreases_to!(*p => p.args)); }
        self.visit_nodes(&p.args);
    }

    /// Walks attributes (their paths and values) in order.
    pub fn visit_attrs(&mut self, attrs: &Vec<Attribute>)
        requires
            old(self).wf(),
        ensures
            final(self).same_walk(old(self)),
            final(self).found() == old(self).found() + walk_attrs(old(self).env(), old(self).ctx(), attrs@),
        decreases attrs,
    {
        let ghost env = self.env();
        let ghost c = self.ctx();
        let ghost found0 = self.found();
        let ghost v0 = *self;
        let mut i: usize = 0;
        proof {
            assert(attrs@.take(0) =~= Seq::<Attribute>::empty());
        }
        while i < attrs.len()
            invariant
                self.same_walk(&v0),
                v0 == *old(self),
                env == old(self).env(),
                c == old(self).ctx(),
                found0 == old(self).found(),
                self.wf(),
                env == self.env(),
                c == self.ctx(),
                i <= attrs@.len(),
                self.found() == found0 + walk_attrs(env, c, attrs@.take(i as int)),
            decreases attrs@.len() - i,
        {
            proof {
                assert(attrs@.take(i + 1).drop_last() =~= attrs@.take(i as int));
                assert(attrs@.take(i + 1).last() == attrs@[i as int]);
                assert(decreases_to!(*attrs => attrs@));
                assert(decreases_to!(attrs@ => attrs@[i as int]));
                assert(decreases_to!(attrs@[i as int] => attrs@[i as int].path));
                assert(decreases_to!(attrs@[i as int] => attrs@[i as int].value));
            }
            self.visit_path(&attrs[i].path);
            self.visit_nodes(&attrs[i].value);
            i = i + 1;
        }
        assert(attrs@.take(i as int) =~= attrs@);
    }

    /// Walks a whole file: inner attributes, then items.
    pub fn visit_file(&mut self, f: &SourceFile)
        requires
            old(self).wf(),
        ensures
            final(self).same_walk(old(self)),
            final(self).found() == old(self).found() + walk_file(old(self).env(), old(self).ctx(), *f),
    {
        self.visit_attrs(&f.attrs);
        self.visit_nodes(&f.items);
    }
}

/// The walk's fixed part for one file of `layer`.
pub open spec fn file_env(cfg: Config, layer: Layer, path: Seq<char>, rel_path: Seq<char>) -> WalkEnv {
    WalkEnv { cfg, layer, file: path, rel: rel_path }
}

/// The flags a file's walk starts with: test context as the layer declares
/// it, outside any loop, not suppressed.
pub open spec fn file_start(layer: Layer) -> WalkCtx {
    WalkCtx { in_test: layer.implicit_test_context, depth: 0, suppressed: false }
}

/// The violations of one file of the layer at `layer_index`: none where the
/// file is listed under that layer's `exempt_files`, else those of the walk
/// from the layer's starting flags.
pub open spec fn file_violations(
    cfg: Config,
    path: Seq<char>,
    rel_path: Seq<char>,
    layer_index: int,
    ast: SourceFile,
) -> Seq<ViolationView> {
    let layer = cfg.layers@[layer_index];
    if config_exempt_at(cfg, layer_index, rel_path) {
        Seq::empty()
    } else {
        walk_file(file_env(cfg, layer, path, rel_path), file_start(layer), ast)
    }
}

/// Entry point: walk one file of the layer at `layer_index` (the position
/// [`LayerSet::classify_index`] gives) and append the violations it holds.
pub fn check_file<'a>(
    cfg: &'a Config,
    layer_set: &'a LayerSet<'a>,
    compiled: &'a CompiledRules,
    path: &'a str,
    rel_path: &'a str,
    layer_index: usize,
    ast: &SourceFile,
    violations: &mut Vec<Violation>,
)
    requires
        layer_set.compiles(cfg),
        compiled.compiles(cfg),
        layer_index < cfg.layers@.len(),
    ensures
        crate::violations::views(final(violations)@) == crate::violations::views(old(violations)@)
            + file_violations(*cfg, path@, rel_path@, layer_index as int, *ast),
{
    assert(layer_set.layers@[layer_index as int].exempt.globs() == strings_view(
        cfg.layers@[layer_index as int].exempt_files@,
    ));
    if layer_set.is_exempt(layer_index, rel_path) {
        assert(crate::violations::views(old(violations)@) + Seq::empty() =~= crate::violations::views(old(violations)@));
        return;
    }
    let layer = layer_set.layers[layer_index].layer;
    let mut found: Vec<Violation> = Vec::new();
    std::mem::swap(&mut found, violations);
    let mut visitor = Visitor {
        cfg,
        layer_set,
        compiled,
        layer,
        path,
        rel_path,
        in_test_context: layer.implicit_test_context,
        loop_depth: 0,
        n_plus_one_suppressed: false,
        violations: found,
    };
    visitor.visit_file(ast);
    let mut out = visitor.violations;
    std::mem::swap(&mut out, violations);
}

/// A file listed under `exempt_files` of the layer it classified into yields
/// no violation.
pub proof fn law_exempt_file_is_skipped(
    cfg: Config,
    path: Seq<char>,
    rel_path: Seq<char>,
    layer_index: int,
    ast: SourceFile,
)
    requires
        config_exempt_at(cfg, layer_index, rel_path),
    ensures
        file_violations(cfg, path, rel_path, layer_index, ast) == Seq::<ViolationView>::empty(),
{
}

/// Test context is never left by entering a nested item, and an item marked
/// as test code puts its contents in test context.
pub proof fn law_test_context_propagates(env: WalkEnv, c: WalkCtx, attrs: Seq<Attribute>)
    ensures
        enter_fn(env, c, attrs).in_test == (c.in_test || test_scoped(attrs)),
        enter_scope(c, attrs).in_test == (c.in_test || test_scoped(attrs)),
{
}

/// Entering a nested `fn` resets the loop depth: its body does not run once
/// per iteration of an enclosing loop.
pub proof fn law_nested_fn_resets_depth(env: WalkEnv, c: WalkCtx, attrs: Seq<Attribute>)
    ensures
        enter_fn(env, c, attrs).depth == 0,
{
}

/// An N+1 violation is only reported inside a loop or combinator argument,
/// outside test code, where no enclosing `fn` opted out, in a layer listed
/// in `n_plus_one.in_layers`.
pub proof fn law_n_plus_one_conditions(env: WalkEnv, c: WalkCtx, line: usize, base: Node)
    requires
        await_violations(env, c, line, base).len() > 0,
    ensures
        c.depth > 0,
        !c.in_test,
        !c.suppressed,
        env.cfg.n_plus_one matches Some(n) && names_contain(n.in_layers@, env.layer.name@),
{
}

} // verus!
