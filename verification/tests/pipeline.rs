//! Filesystem tests (`fs_must_exist`, `fs_must_not_exist`,
//! `file_content_scan`) and end-to-end runs of the whole pipeline: each test
//! builds a small project tree (held in memory), collects what the pipeline
//! reads from it, and asserts on the produced violations.

use std::cell::RefCell;

use quote::ToTokens;
use syn::visit::Visit;

use trammel::config::{
    self, Config, FileContentScan, ForbiddenImports, ForbiddenInlinePaths, ForbiddenMacros,
    ForbiddenMethods, FsMustExist, FsMustNotExist, Layer, NPlusOne, Position, RequiredStructAttrs,
};
use trammel::layers::LayerSet;
use trammel::pipeline::{exit_code, RunError, SourceInput};
use trammel::report;
use trammel::rules::CompiledRules;
use trammel::violations::render;
use trammel::rules::file_content_scan::{self, ScannedFile};
use trammel::rules::fs_layout;
use trammel::syntax::{Attribute, FnKind, Node, SourceFile, SynPath, UseTree};
use trammel::violations::Violation;

// ── trammel.toml → Config ───────────────────────────────────────────────────

type Table = toml::map::Map<String, toml::Value>;

fn check_keys(t: &Table, allowed: &[&str], what: &str) -> Result<(), String> {
    for k in t.keys() {
        if !allowed.contains(&k.as_str()) {
            return Err(format!("unknown field `{k}` in {what}"));
        }
    }
    Ok(())
}

fn req_str(t: &Table, key: &str) -> Result<String, String> {
    match t.get(key) {
        Some(toml::Value::String(s)) => Ok(s.clone()),
        Some(_) => Err(format!("`{key}` must be a string")),
        None => Err(format!("missing field `{key}`")),
    }
}

fn opt_str(t: &Table, key: &str) -> Result<Option<String>, String> {
    match t.get(key) {
        Some(toml::Value::String(s)) => Ok(Some(s.clone())),
        Some(_) => Err(format!("`{key}` must be a string")),
        None => Ok(None),
    }
}

fn str_list(t: &Table, key: &str, required: bool) -> Result<Vec<String>, String> {
    match t.get(key) {
        Some(toml::Value::Array(items)) => items
            .iter()
            .map(|v| match v {
                toml::Value::String(s) => Ok(s.clone()),
                _ => Err(format!("`{key}` must hold strings")),
            })
            .collect(),
        Some(_) => Err(format!("`{key}` must be an array")),
        None if required => Err(format!("missing field `{key}`")),
        None => Ok(Vec::new()),
    }
}

fn flag(t: &Table, key: &str) -> Result<bool, String> {
    match t.get(key) {
        Some(toml::Value::Boolean(b)) => Ok(*b),
        Some(_) => Err(format!("`{key}` must be a boolean")),
        None => Ok(false),
    }
}

fn tables<'t>(t: &'t Table, key: &str) -> Result<Vec<&'t Table>, String> {
    match t.get(key) {
        Some(toml::Value::Array(items)) => items
            .iter()
            .map(|v| match v {
                toml::Value::Table(x) => Ok(x),
                _ => Err(format!("`{key}` must hold tables")),
            })
            .collect(),
        Some(_) => Err(format!("`{key}` must be an array of tables")),
        None => Ok(Vec::new()),
    }
}

fn scoped_keys<'a>(extra: &[&'a str]) -> Vec<&'a str> {
    let mut v = vec!["in_layers", "in_layers_except", "in_files", "rule", "message"];
    v.extend_from_slice(extra);
    v
}

fn inline_paths(t: &Table) -> Result<ForbiddenInlinePaths, String> {
    check_keys(t, &scoped_keys(&["patterns", "position", "allow_in_test_context"]), "inline paths")?;
    let position = match t.get("position") {
        None => Position::Any,
        Some(toml::Value::String(s)) if s == "expr" => Position::Expr,
        Some(toml::Value::String(s)) if s == "type" => Position::Type,
        Some(toml::Value::String(s)) if s == "any" => Position::Any,
        Some(_) => return Err("`position` must be \"expr\", \"type\" or \"any\"".to_string()),
    };
    Ok(ForbiddenInlinePaths {
        in_layers: str_list(t, "in_layers", false)?,
        in_layers_except: str_list(t, "in_layers_except", false)?,
        in_files: str_list(t, "in_files", false)?,
        patterns: str_list(t, "patterns", true)?,
        position,
        rule: req_str(t, "rule")?,
        message: opt_str(t, "message")?,
        allow_in_test_context: flag(t, "allow_in_test_context")?,
    })
}

fn parse_config(src: &str) -> Result<Config, String> {
    let t: Table = src.parse::<toml::Table>().map_err(|e| e.to_string())?;
    check_keys(
        &t,
        &[
            "src_root",
            "layers",
            "forbidden_imports",
            "forbidden_inline_paths",
            "forbidden_constructors",
            "forbidden_macros",
            "forbidden_methods",
            "required_struct_attrs",
            "fs_must_exist",
            "fs_must_not_exist",
            "file_content_scan",
            "n_plus_one",
        ],
        "config",
    )?;
    let mut cfg = Config {
        src_root: opt_str(&t, "src_root")?.unwrap_or_else(config::default_src_root),
        layers: Vec::new(),
        forbidden_imports: Vec::new(),
        forbidden_inline_paths: Vec::new(),
        forbidden_constructors: Vec::new(),
        forbidden_macros: Vec::new(),
        forbidden_methods: Vec::new(),
        required_struct_attrs: Vec::new(),
        fs_must_exist: Vec::new(),
        fs_must_not_exist: Vec::new(),
        file_content_scan: Vec::new(),
        n_plus_one: None,
    };
    for l in tables(&t, "layers")? {
        check_keys(l, &["name", "paths", "exempt_files", "implicit_test_context"], "layer")?;
        cfg.layers.push(Layer {
            name: req_str(l, "name")?,
            paths: str_list(l, "paths", true)?,
            exempt_files: str_list(l, "exempt_files", false)?,
            implicit_test_context: flag(l, "implicit_test_context")?,
        });
    }
    for r in tables(&t, "forbidden_imports")? {
        check_keys(r, &scoped_keys(&["patterns", "allow_in_test_context"]), "forbidden_imports")?;
        cfg.forbidden_imports.push(ForbiddenImports {
            in_layers: str_list(r, "in_layers", false)?,
            in_layers_except: str_list(r, "in_layers_except", false)?,
            in_files: str_list(r, "in_files", false)?,
            patterns: str_list(r, "patterns", true)?,
            rule: req_str(r, "rule")?,
            message: opt_str(r, "message")?,
            allow_in_test_context: flag(r, "allow_in_test_context")?,
        });
    }
    for r in tables(&t, "forbidden_inline_paths")? {
        cfg.forbidden_inline_paths.push(inline_paths(r)?);
    }
    for r in tables(&t, "forbidden_constructors")? {
        cfg.forbidden_constructors.push(inline_paths(r)?);
    }
    for r in tables(&t, "forbidden_macros")? {
        check_keys(
            r,
            &scoped_keys(&[
                "qualified_names",
                "bare_names",
                "bare_names_in_layers",
                "allow_in_test_context",
            ]),
            "forbidden_macros",
        )?;
        cfg.forbidden_macros.push(ForbiddenMacros {
            in_layers: str_list(r, "in_layers", false)?,
            in_layers_except: str_list(r, "in_layers_except", false)?,
            in_files: str_list(r, "in_files", false)?,
            qualified_names: str_list(r, "qualified_names", false)?,
            bare_names: str_list(r, "bare_names", false)?,
            bare_names_in_layers: str_list(r, "bare_names_in_layers", false)?,
            rule: req_str(r, "rule")?,
            message: opt_str(r, "message")?,
            allow_in_test_context: flag(r, "allow_in_test_context")?,
        });
    }
    for r in tables(&t, "forbidden_methods")? {
        check_keys(r, &scoped_keys(&["methods", "allow_in_test_context"]), "forbidden_methods")?;
        cfg.forbidden_methods.push(ForbiddenMethods {
            in_layers: str_list(r, "in_layers", false)?,
            in_layers_except: str_list(r, "in_layers_except", false)?,
            in_files: str_list(r, "in_files", false)?,
            methods: str_list(r, "methods", true)?,
            rule: req_str(r, "rule")?,
            message: opt_str(r, "message")?,
            allow_in_test_context: flag(r, "allow_in_test_context")?,
        });
    }
    for r in tables(&t, "required_struct_attrs")? {
        check_keys(
            r,
            &scoped_keys(&["struct_name_pattern", "required_any_of", "also_apply_to_impls"]),
            "required_struct_attrs",
        )?;
        cfg.required_struct_attrs.push(RequiredStructAttrs {
            in_layers: str_list(r, "in_layers", false)?,
            in_layers_except: str_list(r, "in_layers_except", false)?,
            in_files: str_list(r, "in_files", false)?,
            struct_name_pattern: req_str(r, "struct_name_pattern")?,
            required_any_of: str_list(r, "required_any_of", true)?,
            also_apply_to_impls: flag(r, "also_apply_to_impls")?,
            rule: req_str(r, "rule")?,
            message: opt_str(r, "message")?,
        });
    }
    for r in tables(&t, "fs_must_exist")? {
        check_keys(r, &["path", "rule", "message"], "fs_must_exist")?;
        cfg.fs_must_exist.push(FsMustExist {
            path: req_str(r, "path")?,
            rule: req_str(r, "rule")?,
            message: opt_str(r, "message")?,
        });
    }
    for r in tables(&t, "fs_must_not_exist")? {
        check_keys(r, &["path", "paths", "rule", "message"], "fs_must_not_exist")?;
        cfg.fs_must_not_exist.push(FsMustNotExist {
            path: opt_str(r, "path")?,
            paths: str_list(r, "paths", false)?,
            rule: req_str(r, "rule")?,
            message: opt_str(r, "message")?,
        });
    }
    for r in tables(&t, "file_content_scan")? {
        check_keys(
            r,
            &["glob", "exclude_glob", "forbidden_substrings", "rule", "message"],
            "file_content_scan",
        )?;
        cfg.file_content_scan.push(FileContentScan {
            glob: req_str(r, "glob")?,
            exclude_glob: opt_str(r, "exclude_glob")?,
            forbidden_substrings: str_list(r, "forbidden_substrings", true)?,
            rule: req_str(r, "rule")?,
            message: opt_str(r, "message")?,
        });
    }
    match t.get("n_plus_one") {
        None => {}
        Some(toml::Value::Table(n)) => {
            check_keys(
                n,
                &[
                    "in_layers",
                    "db_path_patterns",
                    "db_macros",
                    "combinators",
                    "opt_out_attribute",
                    "layer_assumes_query",
                    "rule",
                    "message",
                ],
                "n_plus_one",
            )?;
            cfg.n_plus_one = Some(NPlusOne {
                in_layers: str_list(n, "in_layers", true)?,
                db_path_patterns: str_list(n, "db_path_patterns", true)?,
                db_macros: str_list(n, "db_macros", true)?,
                combinators: str_list(n, "combinators", true)?,
                opt_out_attribute: req_str(n, "opt_out_attribute")?,
                layer_assumes_query: str_list(n, "layer_assumes_query", false)?,
                rule: req_str(n, "rule")?,
                message: opt_str(n, "message")?,
            });
        }
        Some(_) => return Err("`n_plus_one` must be a table".to_string()),
    }
    Ok(cfg)
}

// ── Rust source → syntax model ──────────────────────────────────────────────

struct Conv {
    frames: Vec<Vec<Node>>,
}

fn line_of(span: proc_macro2::Span) -> usize {
    span.start().line
}

fn one(mut nodes: Vec<Node>) -> Node {
    if nodes.len() == 1 {
        nodes.pop().unwrap()
    } else {
        Node::Group { children: nodes }
    }
}

fn use_tree(t: &syn::UseTree) -> UseTree {
    match t {
        syn::UseTree::Path(p) => UseTree::Path {
            ident: p.ident.to_string(),
            tree: Box::new(use_tree(&p.tree)),
        },
        syn::UseTree::Name(n) => UseTree::Name { ident: n.ident.to_string() },
        syn::UseTree::Rename(r) => UseTree::Rename {
            ident: r.ident.to_string(),
            rename: r.rename.to_string(),
        },
        syn::UseTree::Glob(_) => UseTree::Glob,
        syn::UseTree::Group(g) => UseTree::Group { items: g.items.iter().map(use_tree).collect() },
    }
}

impl Conv {
    fn emit(&mut self, n: Node) {
        self.frames.last_mut().expect("open frame").push(n);
    }

    fn capture(&mut self, f: impl FnOnce(&mut Conv)) -> Vec<Node> {
        self.frames.push(Vec::new());
        f(self);
        self.frames.pop().expect("open frame")
    }

    fn path(&mut self, attrs: &[syn::Attribute], qself: Option<&syn::QSelf>, p: &syn::Path) -> SynPath {
        let args = self.capture(|c| {
            for a in attrs {
                c.visit_attribute(a);
            }
            if let Some(q) = qself {
                c.visit_qself(q);
            }
            for seg in &p.segments {
                c.visit_path_arguments(&seg.arguments);
            }
        });
        SynPath {
            leading_colon: p.leading_colon.is_some(),
            segments: p.segments.iter().map(|s| s.ident.to_string()).collect(),
            line: p.segments.first().map(|s| line_of(s.ident.span())).unwrap_or(0),
            args,
        }
    }

    fn attr(&mut self, a: &syn::Attribute) -> Attribute {
        let path = self.path(&[], None, a.path());
        let value = match &a.meta {
            syn::Meta::NameValue(nv) => self.capture(|c| c.visit_expr(&nv.value)),
            _ => Vec::new(),
        };
        Attribute { path, tokens: a.to_token_stream().to_string(), value }
    }

    fn attrs(&mut self, v: &[syn::Attribute]) -> Vec<Attribute> {
        v.iter().map(|a| self.attr(a)).collect()
    }
}

impl<'ast> Visit<'ast> for Conv {
    fn visit_attribute(&mut self, a: &'ast syn::Attribute) {
        let at = self.attr(a);
        self.emit(Node::Path { path: at.path });
        for n in at.value {
            self.emit(n);
        }
    }

    fn visit_path(&mut self, p: &'ast syn::Path) {
        let path = self.path(&[], None, p);
        self.emit(Node::Path { path });
    }

    fn visit_item_use(&mut self, i: &'ast syn::ItemUse) {
        let attrs = self.attrs(&i.attrs);
        self.emit(Node::Use { attrs, line: line_of(i.use_token.span), tree: use_tree(&i.tree) });
        self.visit_visibility(&i.vis);
    }

    fn visit_item_fn(&mut self, f: &'ast syn::ItemFn) {
        let attrs = self.attrs(&f.attrs);
        let body = self.capture(|c| {
            c.visit_visibility(&f.vis);
            c.visit_signature(&f.sig);
            c.visit_block(&f.block);
        });
        self.emit(Node::Fn { kind: FnKind::Item, attrs, body });
    }

    fn visit_impl_item_fn(&mut self, f: &'ast syn::ImplItemFn) {
        let attrs = self.attrs(&f.attrs);
        let body = self.capture(|c| {
            c.visit_visibility(&f.vis);
            c.visit_signature(&f.sig);
            c.visit_block(&f.block);
        });
        self.emit(Node::Fn { kind: FnKind::ImplItem, attrs, body });
    }

    fn visit_trait_item_fn(&mut self, f: &'ast syn::TraitItemFn) {
        let attrs = self.attrs(&f.attrs);
        let body = self.capture(|c| {
            c.visit_signature(&f.sig);
            if let Some(b) = &f.default {
                c.visit_block(b);
            }
        });
        self.emit(Node::Fn { kind: FnKind::TraitItem, attrs, body });
    }

    fn visit_item_impl(&mut self, i: &'ast syn::ItemImpl) {
        let attrs = self.attrs(&i.attrs);
        let body = self.capture(|c| {
            c.visit_generics(&i.generics);
            if let Some((_, path, _)) = &i.trait_ {
                c.visit_path(path);
            }
            c.visit_type(&i.self_ty);
            for it in &i.items {
                c.visit_impl_item(it);
            }
        });
        self.emit(Node::Impl {
            attrs,
            line: line_of(i.impl_token.span),
            self_ty: i.self_ty.to_token_stream().to_string(),
            body,
        });
    }

    fn visit_item_struct(&mut self, s: &'ast syn::ItemStruct) {
        let attrs = self.attrs(&s.attrs);
        let body = self.capture(|c| {
            c.visit_visibility(&s.vis);
            c.visit_generics(&s.generics);
            c.visit_fields(&s.fields);
        });
        self.emit(Node::Struct {
            attrs,
            name: s.ident.to_string(),
            line: line_of(s.ident.span()),
            body,
        });
    }

    fn visit_item_mod(&mut self, m: &'ast syn::ItemMod) {
        let attrs = self.attrs(&m.attrs);
        let body = self.capture(|c| {
            c.visit_visibility(&m.vis);
            if let Some((_, items)) = &m.content {
                for it in items {
                    c.visit_item(it);
                }
            }
        });
        self.emit(Node::Mod { attrs, body });
    }

    fn visit_expr_for_loop(&mut self, e: &'ast syn::ExprForLoop) {
        let body = self.capture(|c| syn::visit::visit_expr_for_loop(c, e));
        self.emit(Node::Loop { body });
    }

    fn visit_expr_while(&mut self, e: &'ast syn::ExprWhile) {
        let body = self.capture(|c| syn::visit::visit_expr_while(c, e));
        self.emit(Node::Loop { body });
    }

    fn visit_expr_loop(&mut self, e: &'ast syn::ExprLoop) {
        let body = self.capture(|c| syn::visit::visit_expr_loop(c, e));
        self.emit(Node::Loop { body });
    }

    fn visit_expr_path(&mut self, e: &'ast syn::ExprPath) {
        let path = self.path(&e.attrs, e.qself.as_ref(), &e.path);
        self.emit(Node::ExprPath { path });
    }

    fn visit_type_path(&mut self, t: &'ast syn::TypePath) {
        let path = self.path(&[], t.qself.as_ref(), &t.path);
        self.emit(Node::TypePath { path });
    }

    fn visit_expr_struct(&mut self, e: &'ast syn::ExprStruct) {
        let attrs = self.attrs(&e.attrs);
        let path = self.path(&[], e.qself.as_ref(), &e.path);
        let body = self.capture(|c| {
            for f in &e.fields {
                c.visit_field_value(f);
            }
            if let Some(r) = &e.rest {
                c.visit_expr(r);
            }
        });
        self.emit(Node::ExprStruct { attrs, path, body });
    }

    fn visit_macro(&mut self, m: &'ast syn::Macro) {
        let path = self.path(&[], None, &m.path);
        self.emit(Node::Macro { path });
    }

    fn visit_expr_await(&mut self, e: &'ast syn::ExprAwait) {
        let attrs = self.attrs(&e.attrs);
        let base = one(self.capture(|c| c.visit_expr(&e.base)));
        self.emit(Node::Await { attrs, line: line_of(e.await_token.span), base: Box::new(base) });
    }

    fn visit_expr_method_call(&mut self, e: &'ast syn::ExprMethodCall) {
        let attrs = self.attrs(&e.attrs);
        let receiver = one(self.capture(|c| c.visit_expr(&e.receiver)));
        let turbofish = self.capture(|c| {
            if let Some(t) = &e.turbofish {
                c.visit_angle_bracketed_generic_arguments(t);
            }
        });
        let args = self.capture(|c| {
            for a in &e.args {
                c.visit_expr(a);
            }
        });
        self.emit(Node::MethodCall {
            attrs,
            receiver: Box::new(receiver),
            method: e.method.to_string(),
            line: line_of(e.method.span()),
            turbofish,
            args,
        });
    }
}

fn source_file(f: &syn::File) -> SourceFile {
    let mut c = Conv { frames: vec![Vec::new()] };
    let attrs = c.attrs(&f.attrs);
    let items = c.capture(|c| {
        for it in &f.items {
            c.visit_item(it);
        }
    });
    SourceFile { attrs, items }
}

fn parse_source(src: &str) -> SourceFile {
    let ast = syn::parse_str::<syn::File>(src).expect("rust parses");
    source_file(&ast)
}

// ── the project on disk ─────────────────────────────────────────────────────

fn parse(toml_str: &str) -> Config {
    parse_config(toml_str).expect("config parses")
}

/// A project tree: its files with their contents, and its directories.
struct Project {
    files: RefCell<Vec<(String, String)>>,
    dirs: RefCell<Vec<String>>,
}

const ROOT: &str = "/project";

impl Project {
    fn new() -> Project {
        Project { files: RefCell::new(Vec::new()), dirs: RefCell::new(Vec::new()) }
    }

    fn path(&self) -> &Project {
        self
    }

    /// Whether `abs` names a file or directory of the tree.
    fn holds(&self, abs: &str) -> bool {
        let Some(rel) = abs.strip_prefix(&format!("{ROOT}/")) else {
            return abs == ROOT;
        };
        let under = format!("{rel}/");
        self.files.borrow().iter().any(|(f, _)| f == rel || f.starts_with(&under))
            || self.dirs.borrow().iter().any(|d| d == rel || d.starts_with(&under))
    }
}

fn write(root: &Project, rel: &str, contents: &str) {
    let mut files = root.files.borrow_mut();
    files.retain(|(f, _)| f != rel);
    files.push((rel.to_string(), contents.to_string()));
    files.sort();
}

fn mkdir(root: &Project, rel: &str) {
    root.dirs.borrow_mut().push(rel.to_string());
}

fn rules_in(violations: &[Violation]) -> Vec<&str> {
    violations.iter().map(|v| v.rule.as_str()).collect()
}

/// Looks every layout probe up in the tree.
fn present(cfg: &Config, root: &Project) -> Vec<bool> {
    fs_layout::targets(cfg, ROOT).iter().map(|p| root.holds(p)).collect()
}

fn layout(cfg: &Config, root: &Project) -> Vec<Violation> {
    let mut v = Vec::new();
    fs_layout::check(cfg, ROOT, &present(cfg, root), &mut v);
    v
}

/// Walks the whole tree for the content scans, reading the files that an
/// entry selects.
fn scanned(cfg: &Config, root: &Project) -> Vec<ScannedFile> {
    root.files
        .borrow()
        .iter()
        .map(|(rel, text)| ScannedFile {
            path: format!("{ROOT}/{rel}"),
            rel: rel.clone(),
            contents: if file_content_scan::wanted(cfg, rel) { Some(text.clone()) } else { None },
        })
        .collect()
}

fn scan(cfg: &Config, root: &Project) -> Vec<Violation> {
    let mut v = Vec::new();
    file_content_scan::check(cfg, &scanned(cfg, root), &mut v).unwrap();
    v
}

/// Parses the `.rs` files under `src_root`.
fn sources(cfg: &Config, root: &Project) -> Vec<SourceInput> {
    let prefix = format!("{}/", cfg.src_root.trim_end_matches('/'));
    let mut out = Vec::new();
    for (rel, text) in root.files.borrow().iter() {
        let Some(under) = rel.strip_prefix(&prefix) else {
            continue;
        };
        if !under.ends_with(".rs") {
            continue;
        }
        let Ok(ast) = syn::parse_file(text) else {
            continue;
        };
        out.push(SourceInput {
            path: format!("{ROOT}/{rel}"),
            rel: under.to_string(),
            ast: source_file(&ast),
        });
    }
    out
}

fn run(cfg: &Config, root: &Project) -> Result<Vec<Violation>, RunError> {
    trammel::run(cfg, ROOT, &present(cfg, root), &scanned(cfg, root), &sources(cfg, root))
}

// ── fs_must_exist ────────────────────────────────────────────────────────────

#[test]
fn fs_must_exist_passes_when_present() {
    let dir = Project::new();
    write(dir.path(), "src/lib.rs", "");
    let cfg = parse(
        r#"
[[fs_must_exist]]
path = "src/lib.rs"
rule = "LIB_IS_FILE"
"#,
    );
    let v = layout(&cfg, dir.path());
    assert!(v.is_empty(), "{v:?}");
}

#[test]
fn fs_must_exist_fires_when_missing() {
    let dir = Project::new();
    let cfg = parse(
        r#"
[[fs_must_exist]]
path = "src/lib.rs"
rule = "LIB_IS_FILE"
message = "library root must be src/lib.rs"
"#,
    );
    let v = layout(&cfg, dir.path());
    assert_eq!(rules_in(&v), vec!["LIB_IS_FILE"]);
    assert!(v[0].message.contains("library root"));
    assert_eq!(v[0].line, 0);
}

// ── fs_must_not_exist ────────────────────────────────────────────────────────

#[test]
fn fs_must_not_exist_passes_when_absent() {
    let dir = Project::new();
    let cfg = parse(
        r#"
[[fs_must_not_exist]]
paths = ["src/adapters", "src/app_state.rs"]
rule = "FORBIDDEN_PATHS"
"#,
    );
    let v = layout(&cfg, dir.path());
    assert!(v.is_empty(), "{v:?}");
}

#[test]
fn fs_must_not_exist_fires_for_each_present_path() {
    let dir = Project::new();
    write(dir.path(), "src/app_state.rs", "");
    mkdir(dir.path(), "src/adapters");
    let cfg = parse(
        r#"
[[fs_must_not_exist]]
paths = ["src/adapters", "src/app_state.rs"]
rule = "FORBIDDEN_PATHS"
"#,
    );
    let v = layout(&cfg, dir.path());
    assert_eq!(v.len(), 2);
    assert!(v.iter().all(|x| x.rule == "FORBIDDEN_PATHS"));
}

#[test]
fn fs_must_not_exist_accepts_singular_path_field() {
    let dir = Project::new();
    write(dir.path(), "src/lib.rs", "");
    let cfg = parse(
        r#"
[[fs_must_not_exist]]
path = "src/lib.rs"
rule = "LIB_IS_FILE_DIR"
"#,
    );
    let v = layout(&cfg, dir.path());
    assert_eq!(rules_in(&v), vec!["LIB_IS_FILE_DIR"]);
}

// ── file_content_scan ────────────────────────────────────────────────────────

#[test]
fn file_content_scan_finds_substring() {
    let dir = Project::new();
    write(
        dir.path(),
        "src/transports/web/templates/profile.html",
        "<div>{{ session.persona }}</div>",
    );
    write(
        dir.path(),
        "src/transports/web/templates/clean.html",
        "<div>hello</div>",
    );
    let cfg = parse(
        r#"
[[file_content_scan]]
glob = "src/transports/web/templates/**"
forbidden_substrings = ["session.persona"]
rule = "TEMPLATE_NO_PERSONA_CHECK"
"#,
    );
    let v = scan(&cfg, dir.path());
    assert_eq!(rules_in(&v), vec!["TEMPLATE_NO_PERSONA_CHECK"]);
    assert!(v[0].file.ends_with("profile.html"));
}

#[test]
fn file_content_scan_respects_exclude_glob() {
    let dir = Project::new();
    write(dir.path(), "src/transports/web/handler.rs", ".is_admin()");
    write(
        dir.path(),
        "src/transports/web/templates/foo.html",
        ".is_admin()",
    );
    let cfg = parse(
        r#"
[[file_content_scan]]
glob = "src/transports/**/*.rs"
exclude_glob = "src/transports/web/templates/**"
forbidden_substrings = [".is_admin()"]
rule = "TRANSPORT_NO_IS_ADMIN"
"#,
    );
    let v = scan(&cfg, dir.path());
    assert_eq!(rules_in(&v), vec!["TRANSPORT_NO_IS_ADMIN"]);
    assert!(v[0].file.ends_with("handler.rs"));
}

#[test]
fn file_content_scan_no_match_clean() {
    let dir = Project::new();
    write(
        dir.path(),
        "src/transports/web/templates/clean.html",
        "<div>hello</div>",
    );
    let cfg = parse(
        r#"
[[file_content_scan]]
glob = "src/transports/web/templates/**"
forbidden_substrings = ["session.persona"]
rule = "TEMPLATE_NO_PERSONA_CHECK"
"#,
    );
    let v = scan(&cfg, dir.path());
    assert!(v.is_empty(), "{v:?}");
}

// ── the whole pipeline ──────────────────────────────────────────────────────

const TRAMMEL_TOML: &str = r#"
src_root = "src"

[[layers]]
name = "app"
paths = ["app/**"]

[[layers]]
name = "transports_web"
paths = ["transports/web/**"]

[[layers]]
name = "db"
paths = ["db/**"]

[[forbidden_imports]]
in_layers = ["app"]
patterns = ["axum*"]
rule = "APP_NO_AXUM"
message = "app/ must not import {pattern}"

[[forbidden_methods]]
in_layers = ["app"]
methods = ["unwrap"]
allow_in_test_context = true
rule = "NO_UNWRAP"

[[fs_must_exist]]
path = "src/lib.rs"
rule = "LIB_IS_FILE"

[[fs_must_not_exist]]
paths = ["src/adapters"]
rule = "FORBIDDEN_PATHS"

[[file_content_scan]]
glob = "src/transports/web/templates/**"
forbidden_substrings = ["session.persona"]
rule = "TEMPLATE_NO_PERSONA_CHECK"

[n_plus_one]
in_layers = ["app", "db"]
db_path_patterns = ["db", "db::*", "crate::db*"]
db_macros = ["query"]
combinators = ["for_each", "then"]
opt_out_attribute = "allow_n_plus_one"
layer_assumes_query = ["db"]
rule = "N_PLUS_ONE"
"#;

fn cfg() -> Config {
    parse(TRAMMEL_TOML)
}

#[test]
fn ok_project_produces_no_violations() {
    let dir = Project::new();
    write(dir.path(), "src/lib.rs", "");
    write(dir.path(), "src/app/clean.rs", "fn x() { let _ = 1; }\n");
    write(
        dir.path(),
        "src/transports/web/router.rs",
        "fn route() {}\n",
    );

    let v = run(&cfg(), dir.path()).unwrap();
    assert!(v.is_empty(), "expected no violations: {v:?}");
}

#[test]
fn fail_project_aggregates_violations_across_passes() {
    let dir = Project::new();

    // Missing src/lib.rs → LIB_IS_FILE
    // Present src/adapters → FORBIDDEN_PATHS
    mkdir(dir.path(), "src/adapters");

    // app/ imports axum → APP_NO_AXUM
    // app/ uses .unwrap() outside test → NO_UNWRAP
    write(
        dir.path(),
        "src/app/handler.rs",
        r#"
        use axum::http::StatusCode;
        fn x(r: Result<u32, ()>) {
            let _ = r.unwrap();
        }
        "#,
    );

    // template contains forbidden substring → TEMPLATE_NO_PERSONA_CHECK
    write(
        dir.path(),
        "src/transports/web/templates/profile.html",
        "<div>{{ session.persona }}</div>",
    );

    // db/ + loop + await → N_PLUS_ONE (layer_assumes_query)
    write(
        dir.path(),
        "src/db/users.rs",
        r#"
        async fn batch(ids: Vec<u32>) {
            for _ in ids {
                let _ = some_async().await;
            }
        }
        "#,
    );

    let v = run(&cfg(), dir.path()).unwrap();
    let rules: Vec<&str> = v.iter().map(|x| x.rule.as_str()).collect();

    assert!(rules.contains(&"LIB_IS_FILE"), "{rules:?}");
    assert!(rules.contains(&"FORBIDDEN_PATHS"), "{rules:?}");
    assert!(rules.contains(&"APP_NO_AXUM"), "{rules:?}");
    assert!(rules.contains(&"NO_UNWRAP"), "{rules:?}");
    assert!(rules.contains(&"TEMPLATE_NO_PERSONA_CHECK"), "{rules:?}");
    assert!(rules.contains(&"N_PLUS_ONE"), "{rules:?}");
}

#[test]
fn exempt_files_are_skipped_even_when_content_would_fire() {
    // visitor::check_file early-returns on layer_set.is_exempt — without
    // this test, that branch was unexercised (the inspect short-circuit
    // fires earlier and never reaches the visitor).
    let dir = Project::new();
    write(dir.path(), "src/lib.rs", "");
    let toml = r#"
src_root = "src"

[[layers]]
name = "app"
paths = ["app/**"]
exempt_files = ["app/legacy.rs"]

[[forbidden_imports]]
in_layers = ["app"]
patterns = ["axum*"]
rule = "APP_NO_AXUM"
"#;
    write(dir.path(), "src/app/legacy.rs", "use axum::http::StatusCode;\n");
    write(dir.path(), "src/app/clean.rs", "fn x() {}\n");
    let cfg: Config = parse(toml);
    let v = run(&cfg, dir.path()).unwrap();
    assert!(
        v.iter().all(|x| x.rule != "APP_NO_AXUM"),
        "exempt file must not be visited: {v:?}"
    );
}

#[test]
fn skips_files_outside_any_layer() {
    let dir = Project::new();
    write(dir.path(), "src/lib.rs", "");
    // unclassified path — must not trigger app's forbidden_imports
    write(
        dir.path(),
        "src/random/foo.rs",
        "use axum::http::StatusCode;\n",
    );

    let v = run(&cfg(), dir.path()).unwrap();
    assert!(
        v.iter().all(|x| x.rule != "APP_NO_AXUM"),
        "unclassified file should not trigger app rules: {v:?}"
    );
}

// ── the command-line flows, at the library level ───────────────────────────

const CLI_TOML: &str = r#"
src_root = "src"

[[layers]]
name = "app"
paths = ["app/**"]

[[layers]]
name = "world"
paths = ["world/**"]

[[forbidden_imports]]
in_layers = ["app"]
patterns = ["axum*"]
rule = "APP_NO_AXUM"
message = "app/ must not import {pattern}"

[[forbidden_constructors]]
in_layers_except = ["world"]
patterns = ["Utc::now"]
position = "any"
rule = "CLOCK_ONLY_IN_WORLD"
message = "`{path}` outside world/"
"#;

fn cli_project(extras: &[(&str, &str)]) -> Project {
    let dir = Project::new();
    write(dir.path(), "src/lib.rs", "");
    for (rel, contents) in extras {
        write(dir.path(), rel, contents);
    }
    dir
}

/// What `inspect <file>` prints for a path that is not absolute.
fn inspect(cfg: &Config, file: &str) -> String {
    let layer_set = LayerSet::build(cfg).expect("layer set builds");
    let compiled = CompiledRules::build(cfg).expect("rules compile");
    let rel = report::resolve_rel_to_src_root(file, &cfg.src_root);
    report::inspect(cfg, &layer_set, &compiled, &rel)
}

#[test]
fn check_clean_project_exits_zero() {
    let dir = cli_project(&[("src/app/clean.rs", "fn x() {}\n")]);
    let r = run(&parse(CLI_TOML), dir.path());
    assert_eq!(exit_code(&r), 0);
}

#[test]
fn check_dirty_project_exits_one_with_human_report() {
    let dir = cli_project(&[("src/app/bad.rs", "use axum::Json;\n")]);
    let r = run(&parse(CLI_TOML), dir.path());
    assert_eq!(exit_code(&r), 1);
    let s = render(&r.unwrap());
    assert!(s.contains("APP_NO_AXUM"), "stdout: {s}");
    assert!(s.contains("trammel: FAILED"), "stdout: {s}");
}

#[test]
fn inspect_classifies_relative_path_into_layer() {
    let s = inspect(&parse(CLI_TOML), "app/foo.rs");
    assert!(s.contains("layer: app"), "{s}");
    assert!(s.contains("forbidden_imports/APP_NO_AXUM"), "{s}");
}

#[test]
fn inspect_accepts_src_prefixed_path() {
    let s = inspect(&parse(CLI_TOML), "src/app/foo.rs");
    assert!(s.contains("layer: app"), "{s}");
}

#[test]
fn inspect_unclassified_path_reports_no_layer() {
    let s = inspect(&parse(CLI_TOML), "random/file.rs");
    assert!(s.contains("unclassified"), "{s}");
}

#[test]
fn rules_list_reports_separate_kinds_for_inline_and_constructors() {
    let s = report::rule_list(&parse(CLI_TOML));
    assert!(s.contains("APP_NO_AXUM (forbidden_imports)"), "{s}");
    assert!(s.contains("CLOCK_ONLY_IN_WORLD (forbidden_constructors)"), "{s}");
}

#[test]
fn rules_explain_prints_message_for_named_rule() {
    let s = report::rule_explain(&parse(CLI_TOML), "APP_NO_AXUM").expect("known rule");
    assert!(s.contains("rule: APP_NO_AXUM"), "{s}");
    assert!(s.contains("kind: forbidden_imports"), "{s}");
    assert!(s.contains("must not import"), "{s}");
}

#[test]
fn check_with_invalid_config_semantics_exits_two() {
    // Validates: rule with neither in_layers nor in_files.
    let dir = Project::new();
    write(dir.path(), "src/lib.rs", "");
    let cfg = parse(
        r#"
[[layers]]
name = "app"
paths = ["app/**"]

[[forbidden_imports]]
patterns = ["axum*"]
rule = "BAD"
"#,
    );
    let r = run(&cfg, dir.path());
    assert_eq!(exit_code(&r), 2);
}

#[test]
fn rules_explain_unknown_rule_exits_two() {
    let err = report::rule_explain(&parse(CLI_TOML), "DOES_NOT_EXIST").unwrap_err();
    assert_eq!(err.message(), "no rule named `DOES_NOT_EXIST` in config");
}

const COMPREHENSIVE_TOML: &str = r#"
src_root = "src"

[[layers]]
name = "app"
paths = ["app/**"]
exempt_files = ["app/exempt.rs"]

[[layers]]
name = "system"
paths = ["system/**"]

[[layers]]
name = "tests"
paths = ["tests/**"]
implicit_test_context = true

[[fs_must_exist]]
path = "src/lib.rs"
rule = "LIB_IS_FILE"

[[fs_must_not_exist]]
path = "src/adapters"
rule = "NO_ADAPTERS"

[[forbidden_imports]]
in_layers = ["app"]
patterns = ["axum*"]
rule = "APP_NO_AXUM"

[[forbidden_inline_paths]]
in_layers = ["app"]
patterns = ["db::*"]
position = "any"
rule = "APP_NO_DB"

[[forbidden_constructors]]
in_layers_except = ["system"]
patterns = ["Utc::now"]
position = "any"
rule = "CLOCK_LEAF"

[[forbidden_macros]]
in_layers = ["app"]
qualified_names = ["sqlx::*"]
rule = "APP_NO_SQLX_MACRO"

[[forbidden_methods]]
in_layers = ["app"]
methods = ["unwrap"]
rule = "APP_NO_UNWRAP"
message = "no unwrap please"

[[required_struct_attrs]]
in_layers = ["system"]
struct_name_pattern = "Stub*"
required_any_of = ["cfg(test)"]
rule = "STUBS_GATED"

[[file_content_scan]]
glob = "src/**/*.html"
forbidden_substrings = ["bad-token"]
rule = "TEMPLATE_NO_BAD_TOKEN"

[n_plus_one]
in_layers = ["app"]
db_path_patterns = ["db::*"]
db_macros = ["query"]
combinators = ["map", "for_each"]
opt_out_attribute = "allow_n_plus_one"
rule = "N_PLUS_ONE"
"#;

fn comprehensive_project() -> Project {
    let dir = Project::new();
    write(dir.path(), "src/lib.rs", "");
    write(dir.path(), "src/app/foo.rs", "");
    write(dir.path(), "src/app/exempt.rs", "");
    write(dir.path(), "src/tests/it.rs", "");
    dir
}

#[test]
fn rules_list_reports_every_rule_kind() {
    let s = report::rule_list(&parse(COMPREHENSIVE_TOML));
    for needle in [
        "(forbidden_imports)",
        "(forbidden_inline_paths)",
        "(forbidden_constructors)",
        "(forbidden_macros)",
        "(forbidden_methods)",
        "(required_struct_attrs)",
        "(fs_must_exist)",
        "(fs_must_not_exist)",
        "(file_content_scan)",
        "(n_plus_one)",
    ] {
        assert!(s.contains(needle), "missing kind {needle}; got:\n{s}");
    }
}

#[test]
fn rules_explain_default_message_branch() {
    // STUBS_GATED has no `message` field — explain prints "(default)".
    let s = report::rule_explain(&parse(COMPREHENSIVE_TOML), "STUBS_GATED").expect("known rule");
    assert!(s.contains("message: (default)"), "{s}");
}

#[test]
fn check_src_override_is_threaded_through() {
    // Point the run at a src_root that doesn't exist; it still succeeds (no
    // source files to walk) and exits 0.
    let dir = Project::new();
    write(dir.path(), "src/lib.rs", "");
    let mut cfg = parse(COMPREHENSIVE_TOML);
    cfg.src_root = "no-such-src".to_string();
    let r = run(&cfg, dir.path());
    assert_eq!(exit_code(&r), 0);
}

#[test]
fn inspect_exempt_file_short_circuits() {
    let _dir = comprehensive_project();
    let s = inspect(&parse(COMPREHENSIVE_TOML), "app/exempt.rs");
    assert!(s.contains("exempt: yes"), "{s}");
    assert!(s.contains("no further rules listed"), "exempt branch must short-circuit; got:\n{s}");
}

#[test]
fn inspect_implicit_test_context_layer() {
    let s = inspect(&parse(COMPREHENSIVE_TOML), "tests/it.rs");
    assert!(s.contains("test_context: yes"), "{s}");
}

#[test]
fn inspect_reports_n_plus_one_in_skipped_for_non_app_layer() {
    // n_plus_one.in_layers = ["app"], so for `system/foo.rs` the rule is
    // listed under "do NOT apply".
    let s = inspect(&parse(COMPREHENSIVE_TOML), "system/foo.rs");
    assert!(
        s.contains("n_plus_one/N_PLUS_ONE (layer `system` not in n_plus_one.in_layers)"),
        "{s}"
    );
}

#[test]
fn inspect_reports_n_plus_one_in_applies_for_app_layer() {
    let s = inspect(&parse(COMPREHENSIVE_TOML), "app/foo.rs");
    assert!(s.contains("n_plus_one/N_PLUS_ONE"), "{s}");
}

// ── errors, with the exact text ─────────────────────────────────────────────

fn config_error(toml_str: &str) -> String {
    config::validate(&parse(toml_str)).unwrap_err().message()
}

#[test]
fn config_error_missing_scope_text() {
    assert_eq!(
        config_error("[[forbidden_methods]]\nmethods = [\"unwrap\"]\nrule = \"R\"\n"),
        "rule `R` must declare at least one of `in_layers`, `in_layers_except`, or `in_files`"
    );
}

#[test]
fn config_error_conflicting_scope_text() {
    let toml = r#"
[[layers]]
name = "app"
paths = ["app/**"]

[[forbidden_imports]]
in_layers = ["app"]
in_layers_except = ["app"]
patterns = ["axum*"]
rule = "BOTH"
"#;
    assert_eq!(
        config_error(toml),
        "rule `BOTH` declares both `in_layers` and `in_layers_except`, which are mutually exclusive"
    );
}

#[test]
fn config_error_unknown_layer_text() {
    let toml = r#"
[[layers]]
name = "app"
paths = ["app/**"]

[[forbidden_methods]]
in_layers_except = ["nowhere"]
methods = ["unwrap"]
rule = "M"
"#;
    assert_eq!(
        config_error(toml),
        "forbidden_methods `M` references unknown layer `nowhere` (declare it in [[layers]])"
    );
}

#[test]
fn config_error_struct_pattern_text() {
    let toml = r#"
[[layers]]
name = "system"
paths = ["system/**"]

[[required_struct_attrs]]
in_layers = ["system"]
struct_name_pattern = "Stub**"
required_any_of = ["cfg(test)"]
rule = "STUBS"
"#;
    assert_eq!(
        config_error(toml),
        "required_struct_attrs `STUBS` has invalid struct_name_pattern: identifier pattern `Stub**` contains `**`, which has no meaning in identifier globs"
    );
}

#[test]
fn config_error_fs_path_missing_text() {
    assert_eq!(
        config_error("[[fs_must_not_exist]]\nrule = \"BAD\"\n"),
        "fs_must_not_exist `BAD` must declare at least one of `path` or `paths`"
    );
}

#[test]
fn config_error_assumes_query_text() {
    let toml = r#"
[[layers]]
name = "app"
paths = ["app/**"]

[[layers]]
name = "db"
paths = ["db/**"]

[n_plus_one]
in_layers = ["app"]
db_path_patterns = ["db::*"]
db_macros = []
combinators = []
opt_out_attribute = "allow_n_plus_one"
layer_assumes_query = ["db"]
rule = "N_PLUS_ONE"
"#;
    assert_eq!(
        config_error(toml),
        "n_plus_one `layer_assumes_query` contains `db` which is not in `in_layers`"
    );
}

#[test]
fn config_errors_come_in_kind_order() {
    // Both a method entry and an import entry lack a scope: imports are
    // checked first.
    let toml = r#"
[[forbidden_methods]]
methods = ["unwrap"]
rule = "METHODS"

[[forbidden_imports]]
patterns = ["axum*"]
rule = "IMPORTS"
"#;
    assert!(config_error(toml).contains("`IMPORTS`"));
}

#[test]
fn run_reports_invalid_layer_glob() {
    let cfg = parse("[[layers]]\nname = \"app\"\npaths = [\"app/**\", \"[oops\"]\n");
    let err = run(&cfg, &Project::new()).unwrap_err();
    assert_eq!(
        err.message(),
        "failed to build layer set: layer `app` has invalid `paths`: invalid filesystem glob: `[oops`"
    );
    assert_eq!(exit_code(&Err(err)), 2);
}

#[test]
fn run_reports_invalid_exempt_glob() {
    let cfg = parse("[[layers]]\nname = \"app\"\npaths = [\"app/**\"]\nexempt_files = [\"{x\"]\n");
    let err = run(&cfg, &Project::new()).unwrap_err();
    assert_eq!(
        err.message(),
        "failed to build layer set: layer `app` has invalid `exempt_files`: invalid filesystem glob: `{x`"
    );
}

#[test]
fn run_reports_invalid_in_files_glob() {
    let cfg = parse("[[forbidden_methods]]\nin_files = [\"a/[\"]\nmethods = [\"unwrap\"]\nrule = \"M\"\n");
    let err = run(&cfg, &Project::new()).unwrap_err();
    assert_eq!(err.message(), "failed to compile rule scopes: invalid filesystem glob: `a/[`");
}

#[test]
fn run_reports_invalid_scan_globs() {
    let cfg = parse("[[file_content_scan]]\nglob = \"[\"\nforbidden_substrings = [\"x\"]\nrule = \"S\"\n");
    let err = run(&cfg, &Project::new()).unwrap_err();
    assert_eq!(err.message(), "file_content_scan failed: invalid glob `[`");
    let cfg = parse(
        "[[file_content_scan]]\nglob = \"**\"\nexclude_glob = \"{\"\nforbidden_substrings = [\"x\"]\nrule = \"S\"\n",
    );
    let err = run(&cfg, &Project::new()).unwrap_err();
    assert_eq!(err.message(), "file_content_scan failed: invalid exclude_glob `{`");
    assert!(!file_content_scan::wanted(&cfg, "anything"));
}

#[test]
fn run_reports_config_error_first() {
    let cfg = parse("[[forbidden_imports]]\npatterns = [\"a\"]\nrule = \"X\"\n");
    let err = run(&cfg, &Project::new()).unwrap_err();
    assert!(err.message().starts_with("config failed validation: rule `X`"));
}

// ── layout assertions ───────────────────────────────────────────────────────

#[test]
fn layout_default_messages_and_joined_paths() {
    let dir = Project::new();
    mkdir(dir.path(), "src/adapters");
    let cfg = parse(
        r#"
[[fs_must_exist]]
path = "src/lib.rs"
rule = "LIB"

[[fs_must_not_exist]]
paths = ["src/adapters", "src/nope"]
path = "src"
rule = "NOT"
message = "{path} is forbidden ({path})"
"#,
    );
    let v = layout(&cfg, dir.path());
    assert_eq!(v.len(), 3);
    assert_eq!(v[0].file, "/project/src/lib.rs");
    assert_eq!(v[0].message, "required path `src/lib.rs` does not exist");
    assert_eq!(v[1].file, "/project/src/adapters");
    assert_eq!(v[1].message, "src/adapters is forbidden (src/adapters)");
    assert_eq!(v[2].file, "/project/src");
    assert_eq!(v[2].message, "src is forbidden (src)");
    assert!(v.iter().all(|x| x.line == 0));
}

#[test]
fn layout_targets_list_every_probe_in_order() {
    let cfg = parse(
        r#"
[[fs_must_exist]]
path = "a"
rule = "A"

[[fs_must_not_exist]]
paths = ["b", "/abs/c"]
path = "d"
rule = "N"
"#,
    );
    assert_eq!(
        fs_layout::targets(&cfg, "/root/"),
        vec!["/root/a", "/root/b", "/abs/c", "/root/d"]
    );
    assert_eq!(fs_layout::targets(&cfg, "")[0], "a");
}

#[test]
fn layout_default_message_for_present_forbidden_path() {
    let dir = Project::new();
    write(dir.path(), "tmp.txt", "");
    let cfg = parse("[[fs_must_not_exist]]\npath = \"tmp.txt\"\nrule = \"T\"\n");
    let v = layout(&cfg, dir.path());
    assert_eq!(v[0].message, "forbidden path `tmp.txt` exists");
}

#[test]
fn join_path_follows_unix_rules() {
    assert_eq!(fs_layout::join_path_exec("/p", "a/b"), "/p/a/b");
    assert_eq!(fs_layout::join_path_exec("/p/", "a"), "/p/a");
    assert_eq!(fs_layout::join_path_exec("/p", "/etc"), "/etc");
    assert_eq!(fs_layout::join_path_exec("", "a"), "a");
}

// ── content scans ───────────────────────────────────────────────────────────

#[test]
fn scan_template_substitutes_substring_and_path() {
    let dir = Project::new();
    write(dir.path(), "web\\t.html", "x bad y");
    let cfg = parse(
        r#"
[[file_content_scan]]
glob = "web/*.html"
forbidden_substrings = ["bad", "missing"]
rule = "S"
message = "{substring} in {path}"
"#,
    );
    let v = scan(&cfg, dir.path());
    assert_eq!(v.len(), 1);
    assert_eq!(v[0].message, "bad in web/t.html");
    assert_eq!(v[0].file, "/project/web\\t.html");
    assert_eq!(v[0].line, 0);
}

#[test]
fn scan_default_message_and_entry_major_order() {
    let dir = Project::new();
    write(dir.path(), "a.txt", "one two");
    write(dir.path(), "b.txt", "two one");
    let cfg = parse(
        r#"
[[file_content_scan]]
glob = "*.txt"
forbidden_substrings = ["two", "one"]
rule = "FIRST"

[[file_content_scan]]
glob = "a.txt"
forbidden_substrings = ["one"]
rule = "SECOND"
"#,
    );
    let v = scan(&cfg, dir.path());
    let got: Vec<(&str, &str, &str)> =
        v.iter().map(|x| (x.rule.as_str(), x.file.as_str(), x.message.as_str())).collect();
    assert_eq!(
        got,
        vec![
            ("FIRST", "/project/a.txt", "file contains forbidden substring `two`"),
            ("FIRST", "/project/a.txt", "file contains forbidden substring `one`"),
            ("FIRST", "/project/b.txt", "file contains forbidden substring `two`"),
            ("FIRST", "/project/b.txt", "file contains forbidden substring `one`"),
            ("SECOND", "/project/a.txt", "file contains forbidden substring `one`"),
        ]
    );
}

#[test]
fn scan_skips_unread_files() {
    let cfg = parse("[[file_content_scan]]\nglob = \"*\"\nforbidden_substrings = [\"x\"]\nrule = \"S\"\n");
    let files = vec![ScannedFile { path: "p".to_string(), rel: "f".to_string(), contents: None }];
    let mut v = Vec::new();
    file_content_scan::check(&cfg, &files, &mut v).unwrap();
    assert!(v.is_empty());
}

// ── the whole pipeline: order and skipping ──────────────────────────────────

#[test]
fn run_orders_layout_then_scan_then_sources() {
    let dir = Project::new();
    write(dir.path(), "src/app/a.rs", "use axum::Json;\n");
    write(dir.path(), "notes.txt", "TODO");
    let cfg = parse(
        r#"
[[layers]]
name = "app"
paths = ["app/**"]

[[forbidden_imports]]
in_layers = ["app"]
patterns = ["axum*"]
rule = "C_IMPORT"

[[fs_must_exist]]
path = "src/lib.rs"
rule = "A_LAYOUT"

[[file_content_scan]]
glob = "*.txt"
forbidden_substrings = ["TODO"]
rule = "B_SCAN"
"#,
    );
    let v = run(&cfg, dir.path()).unwrap();
    assert_eq!(rules_in(&v), vec!["A_LAYOUT", "B_SCAN", "C_IMPORT"]);
    assert_eq!(v[2].file, "/project/src/app/a.rs");
    assert_eq!(v[2].line, 1);
    assert_eq!(v[2].message, "`use axum::Json` matches forbidden pattern `axum*`");
}

#[test]
fn run_classifies_backslash_relative_paths() {
    let cfg = parse(
        r#"
[[layers]]
name = "app"
paths = ["app/**"]

[[forbidden_imports]]
in_layers = ["app"]
patterns = ["axum*"]
rule = "I"
"#,
    );
    let ast = source_file(&syn::parse_file("use axum::Json;").unwrap());
    let sources = vec![SourceInput { path: "x".to_string(), rel: "app\\a.rs".to_string(), ast }];
    let v = trammel::run(&cfg, ROOT, &[], &[], &sources).unwrap();
    assert_eq!(rules_in(&v), vec!["I"]);
}

// ── report text, exactly ────────────────────────────────────────────────────

#[test]
fn rule_list_exact_text() {
    let cfg = parse(CLI_TOML);
    assert_eq!(
        report::rule_list(&cfg),
        "APP_NO_AXUM (forbidden_imports)\nCLOCK_ONLY_IN_WORLD (forbidden_constructors)\n"
    );
}

#[test]
fn rule_explain_exact_text_for_each_entry_with_the_code() {
    let cfg = parse(
        r#"
[[layers]]
name = "app"
paths = ["app/**"]

[[forbidden_imports]]
in_layers = ["app"]
patterns = ["a"]
rule = "DUP"
message = "first"

[[forbidden_methods]]
in_layers = ["app"]
methods = ["m"]
rule = "DUP"
"#,
    );
    assert_eq!(
        report::rule_explain(&cfg, "DUP").unwrap(),
        "rule: DUP\nkind: forbidden_imports\nmessage: first\n\nrule: DUP\nkind: forbidden_methods\nmessage: (default)\n\n"
    );
}

#[test]
fn collect_rules_in_kind_order() {
    let cfg = parse(COMPREHENSIVE_TOML);
    let kinds: Vec<String> = report::collect_rules(&cfg).into_iter().map(|e| e.kind).collect();
    assert_eq!(
        kinds,
        vec![
            "forbidden_imports",
            "forbidden_inline_paths",
            "forbidden_constructors",
            "forbidden_macros",
            "forbidden_methods",
            "required_struct_attrs",
            "fs_must_exist",
            "fs_must_not_exist",
            "file_content_scan",
            "n_plus_one",
        ]
    );
}

#[test]
fn inspect_exact_text() {
    let s = inspect(&parse(COMPREHENSIVE_TOML), "app/foo.rs");
    let expected = [
        "file: app/foo.rs",
        "layer: app",
        "exempt: no",
        "test_context: no (per-fn `#[test]` / `#[cfg(test)]` may still apply)",
        "",
        "rules that apply (6):",
        "  forbidden_imports/APP_NO_AXUM",
        "  forbidden_inline_paths/APP_NO_DB",
        "  forbidden_constructors/CLOCK_LEAF",
        "  forbidden_macros/APP_NO_SQLX_MACRO",
        "  forbidden_methods/APP_NO_UNWRAP",
        "  n_plus_one/N_PLUS_ONE",
        "",
        "rules that do NOT apply (1):",
        "  required_struct_attrs/STUBS_GATED",
        "",
    ]
    .join("\n");
    assert_eq!(s, expected);
}

#[test]
fn inspect_unclassified_exact_text() {
    assert_eq!(
        inspect(&parse(CLI_TOML), "zzz.rs"),
        "file: zzz.rs\nlayer: (unclassified — no [[layers]] entry matches; rules will be skipped)\n"
    );
}

#[test]
fn inspect_empty_lists_say_none() {
    let cfg = parse("[[layers]]\nname = \"x\"\npaths = [\"**\"]\n");
    let s = inspect(&cfg, "a.rs");
    assert!(s.ends_with("rules that apply (0):\n  (none)\n\nrules that do NOT apply (0):\n  (none)\n"), "{s}");
}

#[test]
fn resolve_rel_handles_prefix_slashes_and_backslashes() {
    assert_eq!(report::resolve_rel_to_src_root("src/app/a.rs", "src"), "app/a.rs");
    assert_eq!(report::resolve_rel_to_src_root("src/app/a.rs", "src//"), "app/a.rs");
    assert_eq!(report::resolve_rel_to_src_root("src\\app\\a.rs", "src"), "app/a.rs");
    assert_eq!(report::resolve_rel_to_src_root("srcx/a.rs", "src"), "srcx/a.rs");
    assert_eq!(report::resolve_rel_to_src_root("app/a.rs", "src"), "app/a.rs");
}

#[test]
fn exit_codes() {
    assert_eq!(exit_code(&Ok(Vec::new())), 0);
    let one = vec![Violation { file: "f".into(), line: 0, rule: "R".into(), message: "m".into() }];
    assert_eq!(exit_code(&Ok(one)), 1);
}

// ── every matching entry reports; exemption follows the classifying layer ──

#[test]
fn every_method_entry_that_lists_the_method_reports() {
    let dir = Project::new();
    write(dir.path(), "src/app/a.rs", "fn f(r: Result<u8, ()>) { r.unwrap(); }\n");
    let cfg = parse(
        r#"
[[layers]]
name = "app"
paths = ["app/**"]

[[forbidden_methods]]
in_layers = ["app"]
methods = ["unwrap"]
rule = "R1"

[[forbidden_methods]]
in_layers = ["app"]
methods = ["expect", "unwrap"]
rule = "R2"

[[forbidden_methods]]
in_layers = ["app"]
methods = ["expect"]
rule = "R3"
"#,
    );
    let v = run(&cfg, dir.path()).unwrap();
    assert_eq!(rules_in(&v), vec!["R1", "R2"]);
}

#[test]
fn every_macro_entry_that_flags_the_invocation_reports() {
    let dir = Project::new();
    write(dir.path(), "src/app/a.rs", "fn f() { query!(\"x\"); sqlx::query!(\"y\"); }\n");
    let cfg = parse(
        r#"
[[layers]]
name = "app"
paths = ["app/**"]

[[forbidden_macros]]
in_layers = ["app"]
bare_names = ["query"]
bare_names_in_layers = ["app"]
rule = "M1"

[[forbidden_macros]]
in_layers = ["app"]
qualified_names = ["query", "sqlx::*"]
rule = "M2"
"#,
    );
    let v = run(&cfg, dir.path()).unwrap();
    assert_eq!(rules_in(&v), vec!["M1", "M2", "M2"]);
    assert_eq!(v[1].message, "macro `query!` matches forbidden pattern `query`");
    assert_eq!(v[2].message, "macro `sqlx::query!` matches forbidden pattern `sqlx::*`");
}

#[test]
fn exemption_follows_the_layer_that_classified_the_file() {
    let dir = Project::new();
    write(dir.path(), "src/b/x.rs", "use axum::Json;\n");
    write(dir.path(), "src/a/x.rs", "use axum::Json;\n");
    let cfg = parse(
        r#"
[[layers]]
name = "app"
paths = ["a/**"]

[[layers]]
name = "app"
paths = ["b/**"]
exempt_files = ["b/x.rs"]

[[forbidden_imports]]
in_layers = ["app"]
patterns = ["axum*"]
rule = "I"
"#,
    );
    let v = run(&cfg, dir.path()).unwrap();
    assert_eq!(rules_in(&v), vec!["I"]);
    assert_eq!(v[0].file, "/project/src/a/x.rs");
    let layer_set = LayerSet::build(&cfg).unwrap();
    assert_eq!(layer_set.classify_index("b/x.rs"), Some(1));
    assert!(layer_set.is_exempt(1, "b/x.rs"));
    assert!(!layer_set.is_exempt(0, "b/x.rs"));
    assert!(!layer_set.is_exempt(7, "b/x.rs"));
    let s = inspect(&cfg, "b/x.rs");
    assert!(s.contains("exempt: yes"), "{s}");
}

#[test]
fn a_rejected_scan_glob_keeps_the_hits_before_it() {
    let files = vec![ScannedFile {
        path: "/project/a.txt".to_string(),
        rel: "a.txt".to_string(),
        contents: Some("TODO".to_string()),
    }];
    let cfg = parse(
        r#"
[[file_content_scan]]
glob = "*.txt"
forbidden_substrings = ["TODO"]
rule = "FIRST"

[[file_content_scan]]
glob = "[broken"
forbidden_substrings = ["TODO"]
rule = "SECOND"
"#,
    );
    let mut v = Vec::new();
    let err = file_content_scan::check(&cfg, &files, &mut v).unwrap_err();
    assert_eq!(err.message(), "invalid glob `[broken`");
    assert_eq!(rules_in(&v), vec!["FIRST"]);
}

#[test]
fn runs_of_stars_match_like_one_star() {
    for s in ["db", "db::x", "xdb", "", "d"] {
        assert_eq!(trammel::glob::import_path::matches("db**", s), trammel::glob::import_path::matches("db*", s));
        assert_eq!(trammel::glob::import_path::matches("**db***", s), trammel::glob::import_path::matches("*db*", s));
    }
}
