//! Unit-level tests of the matchers, the text helpers and the report
//! renderer.

use trammel::glob::fs_path::{self, build_set};
use trammel::glob::ident::{self, validate};
use trammel::glob::import_path;
use trammel::rules::path_string::of;
use trammel::rules::required_struct_attrs::normalize_ws;
use trammel::rules::use_tree::paths;
use trammel::syntax::{Node, SynPath, UseTree};
use trammel::violations::{render, Violation};

// ── identifier globs ────────────────────────────────────────────────────────

#[test]
fn identifier_globs() {
    assert!(ident::matches("Stub*", "Stub"));
    assert!(ident::matches("Stub*", "StubFoo"));
    assert!(ident::matches("Stub*", "Stubby"));
    assert!(!ident::matches("Stub*", "TStub"));
    assert!(ident::matches("*Port", "TenantPort"));
    assert!(!ident::matches("Stub", "StubFoo"));
}

#[test]
fn identifier_globs_prefix_suffix_combinations() {
    // Suffix mismatch even though prefix matches.
    assert!(!ident::matches("Foo*Bar", "FooBaz"));
    // Prefix+suffix overlap such that the wildcard region has zero
    // remaining width — must reject.
    assert!(!ident::matches("ab*ba", "aba"));
    // Multi-chunk pattern: at least one middle chunk must be located.
    assert!(ident::matches("Foo*Bar*Baz", "FooXBarYBaz"));
    assert!(!ident::matches("Foo*Bar*Baz", "FooXBzzYBaz"));
}

#[test]
fn validate_rejects_double_star() {
    assert!(validate("Stub*").is_ok());
    assert!(validate("*Stub").is_ok());
    assert!(validate("Stub").is_ok());
    assert!(validate("**").is_err());
    assert!(validate("Stub**Foo").is_err());
}

#[test]
fn validate_error_names_the_pattern() {
    let err = validate("Stub**Foo").unwrap_err();
    assert_eq!(err.pattern, "Stub**Foo");
    assert!(err.message().contains("Stub**Foo"));
    assert!(err.message().contains("**"));
}

// ── import-path globs ───────────────────────────────────────────────────────

#[test]
fn matches_examples_from_spec() {
    assert!(import_path::matches("db", "db"));
    assert!(!import_path::matches("db", "db::User"));
    assert!(import_path::matches("db::*", "db::User"));
    assert!(import_path::matches("db::*", "db::queries::find"));
    assert!(import_path::matches("axum*", "axum"));
    assert!(import_path::matches("axum*", "axum::http"));
    assert!(import_path::matches("axum*", "axum::extract::Json"));
    assert!(import_path::matches("*transports*", "crate::transports::web"));
    assert!(import_path::matches("*transports*", "transports::extractors"));
    assert!(import_path::matches("crate::db*", "crate::db"));
    assert!(import_path::matches("crate::db*", "crate::db::User"));
    assert!(import_path::matches("*::db::*", "crate::db::User"));
    assert!(!import_path::matches("axum*", "tower::axum"));
}

#[test]
fn star_alone_matches_everything() {
    assert!(import_path::matches("*", ""));
    assert!(import_path::matches("*", "a::b::c"));
    assert!(ident::matches("*", "Anything"));
}

#[test]
fn infix_stars_find_the_chunk_anywhere() {
    assert!(import_path::matches("*db*", "db"));
    assert!(import_path::matches("*db*", "crate::db::x"));
    assert!(!import_path::matches("*db*", "crate::d::b"));
}

#[test]
fn empty_pattern_matches_only_empty() {
    assert!(import_path::matches("", ""));
    assert!(!import_path::matches("", "a"));
}

#[test]
fn repeated_chunks_need_distinct_occurrences() {
    assert!(import_path::matches("a*a*a", "aaa"));
    assert!(!import_path::matches("a*a*a", "aa"));
    assert!(import_path::matches("a*b*a", "abba"));
}

// ── filesystem globs ────────────────────────────────────────────────────────

#[test]
fn smoke() {
    let set = build_set(&[
        "app/**".to_string(),
        "transports/web/**".to_string(),
        "transports/web/middleware.rs".to_string(),
    ])
    .unwrap();

    assert!(fs_path::matches(&set, "app/foo.rs"));
    assert!(fs_path::matches(&set, "app/sub/bar.rs"));
    assert!(fs_path::matches(&set, "transports/web/router.rs"));
    assert!(fs_path::matches(&set, "transports/web/middleware.rs"));
    assert!(!fs_path::matches(&set, "system/foo.rs"));
    assert!(!fs_path::matches(&set, "transports/cli/cmd.rs"));
}

#[test]
fn invalid_pattern_returns_err() {
    let result = build_set(&["[unterminated".to_string()]);
    assert!(result.is_err());
}

#[test]
fn invalid_pattern_error_is_the_first_rejected_glob() {
    let err = build_set(&["ok/**".to_string(), "[bad".to_string(), "{worse".to_string()]).unwrap_err();
    assert_eq!(err.pattern, "[bad");
    assert_eq!(err.message(), "invalid filesystem glob: `[bad`");
}

#[test]
fn single_star_stays_within_a_segment() {
    let set = build_set(&["app/*.rs".to_string()]).unwrap();
    assert!(fs_path::matches(&set, "app/foo.rs"));
    assert!(!fs_path::matches(&set, "app/sub/foo.rs"));
    let q = build_set(&["a?.rs".to_string()]).unwrap();
    assert!(fs_path::matches(&q, "ab.rs"));
    assert!(!fs_path::matches(&q, "abc.rs"));
}

#[test]
fn empty_set_matches_nothing() {
    let set = build_set(&[]).unwrap();
    assert!(!fs_path::matches(&set, "app/foo.rs"));
}

// ── whitespace normalization ────────────────────────────────────────────────

#[test]
fn ws_collapses() {
    assert_eq!(normalize_ws("cfg ( test )"), "cfg(test)");
    assert_eq!(
        normalize_ws("cfg(any(test, feature = \"testing\"))"),
        "cfg(any(test,feature=\"testing\"))"
    );
    assert_eq!(normalize_ws("  test\nfoo "), "testfoo");
}

#[test]
fn ws_collapses_unicode_whitespace() {
    assert_eq!(normalize_ws("a\u{a0}b\u{2003}c\t"), "abc");
}

// ── path strings ────────────────────────────────────────────────────────────

fn path(segments: &[&str], args: Vec<Node>) -> SynPath {
    SynPath {
        leading_colon: false,
        segments: segments.iter().map(|s| s.to_string()).collect(),
        line: 1,
        args,
    }
}

#[test]
fn path_string_simple() {
    assert_eq!(of(&path(&["db"], vec![])), "db");
    assert_eq!(of(&path(&["db", "User"], vec![])), "db::User");
    assert_eq!(of(&path(&["crate", "db", "User"], vec![])), "crate::db::User");
}

#[test]
fn drops_generics() {
    // `Vec<u8>`
    let u8_ty = Node::TypePath { path: path(&["u8"], vec![]) };
    assert_eq!(of(&path(&["Vec"], vec![u8_ty])), "Vec");
    // `HashMap<String, u32>`
    let args = vec![
        Node::TypePath { path: path(&["String"], vec![]) },
        Node::TypePath { path: path(&["u32"], vec![]) },
    ];
    assert_eq!(of(&path(&["HashMap"], args)), "HashMap");
}

#[test]
fn leading_colon_is_not_rendered() {
    let mut p = path(&["std", "fmt"], vec![]);
    p.leading_colon = true;
    assert_eq!(of(&p), "std::fmt");
}

// ── use trees ───────────────────────────────────────────────────────────────

fn name(ident: &str) -> UseTree {
    UseTree::Name { ident: ident.to_string() }
}

fn seg(ident: &str, tree: UseTree) -> UseTree {
    UseTree::Path { ident: ident.to_string(), tree: Box::new(tree) }
}

#[test]
fn use_tree_simple() {
    // use axum::http::StatusCode;
    let t = seg("axum", seg("http", name("StatusCode")));
    assert_eq!(paths(&t), vec!["axum::http::StatusCode"]);
}

#[test]
fn group_expands() {
    // use axum::{Json, http};
    let t = seg("axum", UseTree::Group { items: vec![name("Json"), name("http")] });
    assert_eq!(paths(&t), vec!["axum::Json", "axum::http"]);
}

#[test]
fn nested_group_expands() {
    // use foo::{a::b, c::{d, e}};
    let t = seg(
        "foo",
        UseTree::Group {
            items: vec![
                seg("a", name("b")),
                seg("c", UseTree::Group { items: vec![name("d"), name("e")] }),
            ],
        },
    );
    assert_eq!(paths(&t), vec!["foo::a::b", "foo::c::d", "foo::c::e"]);
}

#[test]
fn rename_uses_original_path() {
    // use db::User as Person;
    let t = seg("db", UseTree::Rename { ident: "User".to_string(), rename: "Person".to_string() });
    assert_eq!(paths(&t), vec!["db::User"]);
}

#[test]
fn glob_uses_star() {
    // use axum::extract::*;
    let t = seg("axum", seg("extract", UseTree::Glob));
    assert_eq!(paths(&t), vec!["axum::extract::*"]);
}

#[test]
fn leading_crate() {
    // use crate::db::User;
    let t = seg("crate", seg("db", name("User")));
    assert_eq!(paths(&t), vec!["crate::db::User"]);
}

#[test]
fn bare_glob_and_empty_group() {
    assert_eq!(paths(&UseTree::Glob), vec!["*"]);
    let empty: Vec<String> = Vec::new();
    assert_eq!(paths(&seg("a", UseTree::Group { items: vec![] })), empty);
}

// ── report rendering ────────────────────────────────────────────────────────

#[test]
fn empty_renders_ok() {
    assert_eq!(render(&[]), "trammel: OK — no violations found.\n");
}

#[test]
fn groups_by_rule_in_first_occurrence_order() {
    let v = vec![
        Violation {
            file: "src/app/foo.rs".to_string(),
            line: 14,
            rule: "APP_NO_AXUM".into(),
            message: "app/ imports axum".into(),
        },
        Violation {
            file: "src/transports/web/router.rs".to_string(),
            line: 7,
            rule: "ROUTER_NO_APP".into(),
            message: "router references app::".into(),
        },
        Violation {
            file: "src/app/bar.rs".to_string(),
            line: 3,
            rule: "APP_NO_AXUM".into(),
            message: "app/ imports axum".into(),
        },
    ];
    let expected = "\
── APP_NO_AXUM (2 violations) ──
  src/app/foo.rs:14 — app/ imports axum
  src/app/bar.rs:3 — app/ imports axum

── ROUTER_NO_APP (1 violations) ──
  src/transports/web/router.rs:7 — router references app::

trammel: FAILED — 3 violations found.
";
    assert_eq!(render(&v), expected);
}

#[test]
fn render_counts_with_several_digits() {
    let v: Vec<Violation> = (0..12)
        .map(|i| Violation {
            file: "f.rs".to_string(),
            line: i,
            rule: "R".to_string(),
            message: "m".to_string(),
        })
        .collect();
    let out = render(&v);
    assert!(out.starts_with("── R (12 violations) ──\n  f.rs:0 — m\n"));
    assert!(out.ends_with("  f.rs:11 — m\n\ntrammel: FAILED — 12 violations found.\n"));
}

#[test]
fn whole_set_glob_error_message() {
    let e = trammel::glob::fs_path::GlobError { pattern: String::new(), whole_set: true };
    assert_eq!(e.message(), "failed to build glob set");
    let e = trammel::glob::fs_path::GlobError { pattern: "[x".to_string(), whole_set: false };
    assert_eq!(e.message(), "invalid filesystem glob: `[x`");
}
