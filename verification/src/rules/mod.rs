//! Rule modules and the cross-cutting scope matcher.
//!
//! [`CompiledRules`] compiles each rule entry's `in_files` glob list once so
//! the per-file walk never recompiles.

pub mod file_content_scan;
pub mod forbidden_imports;
pub mod forbidden_inline_paths;
pub mod forbidden_macros;
pub mod forbidden_methods;
pub mod fs_layout;
pub mod n_plus_one;
pub mod path_string;
pub mod required_struct_attrs;
pub mod use_tree;

use vstd::prelude::*;

use crate::config::{
    Config, ForbiddenImports, ForbiddenInlinePaths, ForbiddenMacros, ForbiddenMethods, Layer,
    RequiredStructAttrs,
};
use crate::glob::glob_match;
use crate::glob::fs_path::{self, list_error, list_valid, set_matches, strings_view, GlobError, GlobSet};

verus! {

/// `names` holds `name`.
pub open spec fn names_contain(names: Seq<String>, name: Seq<char>) -> bool {
    exists|j: int| 0 <= j < names.len() && (#[trigger] names[j])@ == name
}

/// A rule scoped by `in_layers` / `in_layers_except` / `in_files` applies to
/// the file `rel_path` of layer `layer_name`: the layer matches (not listed in
/// a non-empty `in_layers_except`, else listed in `in_layers`), or the file
/// matches `in_files`.
pub open spec fn scope_holds(
    in_layers: Seq<String>,
    in_layers_except: Seq<String>,
    in_files: Seq<Seq<char>>,
    layer_name: Seq<char>,
    rel_path: Seq<char>,
) -> bool {
    let layer_match = if in_layers_except.len() > 0 {
        !names_contain(in_layers_except, layer_name)
    } else {
        names_contain(in_layers, layer_name)
    };
    layer_match || set_matches(in_files, rel_path)
}

/// Whether `names` holds `name`.
pub fn contains_name(names: &[String], name: &String) -> (r: bool)
    ensures
        r == names_contain(names@, name@),
{
    let mut i: usize = 0;
    while i < names.len()
        invariant
            i <= names@.len(),
            forall|j: int| 0 <= j < i ==> (#[trigger] names@[j])@ != name@,
        decreases names@.len() - i,
    {
        if names[i] == *name {
            return true;
        }
        i = i + 1;
    }
    false
}

/// Does a rule with the given layer/file scope apply to the current file?
///
/// OR semantics: layer match OR file match. When `in_layers_except` is
/// non-empty, the layer matches iff it is NOT listed there (it takes
/// precedence over `in_layers`). Otherwise the layer matches iff it IS
/// listed in `in_layers`.
pub fn scope_applies(
    in_layers: &[String],
    in_layers_except: &[String],
    in_files: &GlobSet,
    layer: &Layer,
    rel_path: &str,
) -> (r: bool)
    ensures
        r == scope_holds(in_layers@, in_layers_except@, in_files.globs(), layer.name@, rel_path@),
{
    let layer_match = if in_layers_except.len() > 0 {
        !contains_name(in_layers_except, &layer.name)
    } else {
        contains_name(in_layers, &layer.name)
    };
    layer_match || fs_path::matches(in_files, rel_path)
}

/// A rule entry with an `in_files` scope.
pub trait FileScoped {
    spec fn files_view(&self) -> Seq<String>;

    spec fn layers_view(&self) -> Seq<String>;

    spec fn except_view(&self) -> Seq<String>;

    fn in_files(&self) -> (r: &Vec<String>)
        ensures
            r@ == self.files_view(),
    ;

    fn in_layers(&self) -> (r: &Vec<String>)
        ensures
            r@ == self.layers_view(),
    ;

    fn in_layers_except(&self) -> (r: &Vec<String>)
        ensures
            r@ == self.except_view(),
    ;
}

impl FileScoped for ForbiddenImports {
    open spec fn files_view(&self) -> Seq<String> {
        self.in_files@
    }

    open spec fn layers_view(&self) -> Seq<String> {
        self.in_layers@
    }

    open spec fn except_view(&self) -> Seq<String> {
        self.in_layers_except@
    }

    fn in_files(&self) -> (r: &Vec<String>) {
        &self.in_files
    }

    fn in_layers(&self) -> (r: &Vec<String>) {
        &self.in_layers
    }

    fn in_layers_except(&self) -> (r: &Vec<String>) {
        &self.in_layers_except
    }
}

impl FileScoped for ForbiddenInlinePaths {
    open spec fn files_view(&self) -> Seq<String> {
        self.in_files@
    }

    open spec fn layers_view(&self) -> Seq<String> {
        self.in_layers@
    }

    open spec fn except_view(&self) -> Seq<String> {
        self.in_layers_except@
    }

    fn in_files(&self) -> (r: &Vec<String>) {
        &self.in_files
    }

    fn in_layers(&self) -> (r: &Vec<String>) {
        &self.in_layers
    }

    fn in_layers_except(&self) -> (r: &Vec<String>) {
        &self.in_layers_except
    }
}

impl FileScoped for ForbiddenMacros {
    open spec fn files_view(&self) -> Seq<String> {
        self.in_files@
    }

    open spec fn layers_view(&self) -> Seq<String> {
        self.in_layers@
    }

    open spec fn except_view(&self) -> Seq<String> {
        self.in_layers_except@
    }

    fn in_files(&self) -> (r: &Vec<String>) {
        &self.in_files
    }

    fn in_layers(&self) -> (r: &Vec<String>) {
        &self.in_layers
    }

    fn in_layers_except(&self) -> (r: &Vec<String>) {
        &self.in_layers_except
    }
}

impl FileScoped for ForbiddenMethods {
    open spec fn files_view(&self) -> Seq<String> {
        self.in_files@
    }

    open spec fn layers_view(&self) -> Seq<String> {
        self.in_layers@
    }

    open spec fn except_view(&self) -> Seq<String> {
        self.in_layers_except@
    }

    fn in_files(&self) -> (r: &Vec<String>) {
        &self.in_files
    }

    fn in_layers(&self) -> (r: &Vec<String>) {
        &self.in_layers
    }

    fn in_layers_except(&self) -> (r: &Vec<String>) {
        &self.in_layers_except
    }
}

impl FileScoped for RequiredStructAttrs {
    open spec fn files_view(&self) -> Seq<String> {
        self.in_files@
    }

    open spec fn layers_view(&self) -> Seq<String> {
        self.in_layers@
    }

    open spec fn except_view(&self) -> Seq<String> {
        self.in_layers_except@
    }

    fn in_files(&self) -> (r: &Vec<String>) {
        &self.in_files
    }

    fn in_layers(&self) -> (r: &Vec<String>) {
        &self.in_layers
    }

    fn in_layers_except(&self) -> (r: &Vec<String>) {
        &self.in_layers_except
    }
}

/// The `in_files` globs of each entry, in order.
pub open spec fn file_lists<R: FileScoped>(entries: Seq<R>) -> Seq<Seq<Seq<char>>> {
    entries.map_values(|r: R| strings_view(r.files_view()))
}

/// Every glob list builds into a glob set.
pub open spec fn lists_valid(lists: Seq<Seq<Seq<char>>>) -> bool {
    forall|n: int| 0 <= n < lists.len() ==> list_valid(#[trigger] lists[n])
}

/// `e` reports why the first list that does not build fails.
pub open spec fn first_bad_in(lists: Seq<Seq<Seq<char>>>, e: GlobError) -> bool {
    exists|n: int|
        0 <= n < lists.len() && lists_valid(lists.take(n)) && list_error(#[trigger] lists[n], e)
}

/// `sets` compiles the `in_files` of `entries`, one set per entry.
pub open spec fn compiles_files<R: FileScoped>(sets: Seq<GlobSet>, entries: Seq<R>) -> bool {
    sets.len() == entries.len() && forall|i: int|
        0 <= i < sets.len() ==> (#[trigger] sets[i]).globs() == strings_view(entries[i].files_view())
}

proof fn lemma_lists_valid_append(a: Seq<Seq<Seq<char>>>, b: Seq<Seq<Seq<char>>>)
    ensures
        lists_valid(a) && lists_valid(b) ==> lists_valid(a + b),
{
    if lists_valid(a) && lists_valid(b) {
        assert forall|m: int| 0 <= m < (a + b).len() implies list_valid(#[trigger] (a + b)[m]) by {
            if m < a.len() {
                assert((a + b)[m] == a[m]);
            } else {
                assert((a + b)[m] == b[m - a.len()]);
            }
        }
    }
}

proof fn lemma_first_bad_in_append(a: Seq<Seq<Seq<char>>>, b: Seq<Seq<Seq<char>>>, p: GlobError)
    ensures
        first_bad_in(a, p) ==> first_bad_in(a + b, p),
        lists_valid(a) && first_bad_in(b, p) ==> first_bad_in(a + b, p),
        lists_valid(a) && lists_valid(b) ==> lists_valid(a + b),
{
    if first_bad_in(a, p) {
        let n = choose|n: int|
            0 <= n < a.len() && lists_valid(a.take(n)) && list_error(#[trigger] a[n], p);
        assert((a + b).take(n) =~= a.take(n));
        assert((a + b)[n] == a[n]);
    }
    if lists_valid(a) && first_bad_in(b, p) {
        let n = choose|n: int|
            0 <= n < b.len() && lists_valid(b.take(n)) && list_error(#[trigger] b[n], p);
        assert((a + b).take(a.len() + n) =~= a + b.take(n));
        assert((a + b)[a.len() + n] == b[n]);
        assert(lists_valid((a + b).take(a.len() + n))) by {
            assert forall|m: int| 0 <= m < a.len() + n implies list_valid(
                #[trigger] (a + b).take(a.len() + n)[m],
            ) by {
                if m < a.len() {
                    assert((a + b).take(a.len() + n)[m] == a[m]);
                } else {
                    assert((a + b).take(a.len() + n)[m] == b.take(n)[m - a.len()]);
                }
            }
        }
    }
    if lists_valid(a) && lists_valid(b) {
        assert forall|m: int| 0 <= m < (a + b).len() implies list_valid(#[trigger] (a + b)[m]) by {
            if m < a.len() {
                assert((a + b)[m] == a[m]);
            } else {
                assert((a + b)[m] == b[m - a.len()]);
            }
        }
    }
}

/// Compiles the `in_files` of each entry.
fn build_each<R: FileScoped>(entries: &Vec<R>) -> (r: Result<Vec<GlobSet>, GlobError>)
    ensures
        match r {
            Ok(sets) => compiles_files(sets@, entries@) && lists_valid(file_lists(entries@)),
            Err(e) => first_bad_in(file_lists(entries@), e),
        },
{
    let ghost lists = file_lists(entries@);
    let mut sets: Vec<GlobSet> = Vec::new();
    let mut i: usize = 0;
    while i < entries.len()
        invariant
            i <= entries@.len(),
            lists == file_lists(entries@),
            sets@.len() == i,
            forall|j: int|
                0 <= j < i ==> (#[trigger] sets@[j]).globs() == strings_view(entries@[j].files_view()),
            lists_valid(lists.take(i as int)),
        decreases entries@.len() - i,
    {
        let files = entries[i].in_files();
        match fs_path::build_set(files.as_slice()) {
            Ok(set) => {
                proof {
                    assert(lists[i as int] == strings_view(entries@[i as int].files_view()));
                    assert forall|m: int| 0 <= m < i + 1 implies list_valid(
                        #[trigger] lists.take(i + 1)[m],
                    ) by {
                        if m < i {
                            assert(lists.take(i + 1)[m] == lists.take(i as int)[m]);
                        }
                    }
                }
                sets.push(set);
            },
            Err(e) => {
                proof {
                    assert(lists[i as int] == strings_view(entries@[i as int].files_view()));
                }
                return Err(e);
            },
        }
        i = i + 1;
    }
    assert(lists.take(i as int) =~= lists);
    Ok(sets)
}

/// Pre-compiled `in_files` glob sets per rule entry, parallel-indexed to
/// each `cfg.<rule_kind>` vec.
pub struct CompiledRules {
    pub forbidden_imports: Vec<GlobSet>,
    pub forbidden_inline_paths: Vec<GlobSet>,
    pub forbidden_constructors: Vec<GlobSet>,
    pub forbidden_macros: Vec<GlobSet>,
    pub forbidden_methods: Vec<GlobSet>,
    pub required_struct_attrs: Vec<GlobSet>,
}

/// The `in_files` glob lists of every scoped rule entry of `cfg`, kind by
/// kind in the order imports, inline paths, constructors, macros, methods,
/// struct attributes.
pub open spec fn all_file_lists(cfg: &Config) -> Seq<Seq<Seq<char>>> {
    file_lists(cfg.forbidden_imports@) + file_lists(cfg.forbidden_inline_paths@) + file_lists(
        cfg.forbidden_constructors@,
    ) + file_lists(cfg.forbidden_macros@) + file_lists(cfg.forbidden_methods@) + file_lists(
        cfg.required_struct_attrs@,
    )
}

impl CompiledRules {
    /// Each vec compiles the `in_files` of the matching rule entries of `cfg`.
    pub open spec fn compiles(&self, cfg: &Config) -> bool {
        &&& compiles_files(self.forbidden_imports@, cfg.forbidden_imports@)
        &&& compiles_files(self.forbidden_inline_paths@, cfg.forbidden_inline_paths@)
        &&& compiles_files(self.forbidden_constructors@, cfg.forbidden_constructors@)
        &&& compiles_files(self.forbidden_macros@, cfg.forbidden_macros@)
        &&& compiles_files(self.forbidden_methods@, cfg.forbidden_methods@)
        &&& compiles_files(self.required_struct_attrs@, cfg.required_struct_attrs@)
    }

    /// Compiles every rule entry's `in_files`; fails on the first rejected
    /// glob.
    pub fn build(cfg: &Config) -> (r: Result<CompiledRules, GlobError>)
        ensures
            match r {
                Ok(c) => c.compiles(cfg) && lists_valid(all_file_lists(cfg)),
                Err(e) => first_bad_in(all_file_lists(cfg), e),
            },
    {
        let ghost l1 = file_lists(cfg.forbidden_imports@);
        let ghost l2 = file_lists(cfg.forbidden_inline_paths@);
        let ghost l3 = file_lists(cfg.forbidden_constructors@);
        let ghost l4 = file_lists(cfg.forbidden_macros@);
        let ghost l5 = file_lists(cfg.forbidden_methods@);
        let ghost l6 = file_lists(cfg.required_struct_attrs@);
        let a = match build_each(&cfg.forbidden_imports) {
            Ok(a) => a,
            Err(e) => {
                proof {
                    lemma_first_bad_in_append(l1, l2 + l3 + l4 + l5 + l6, e);
                    assert(all_file_lists(cfg) =~= l1 + (l2 + l3 + l4 + l5 + l6));
                }
                return Err(e);
            },
        };
        let b = match build_each(&cfg.forbidden_inline_paths) {
            Ok(b) => b,
            Err(e) => {
                proof {
                    lemma_first_bad_in_append(l2, l3 + l4 + l5 + l6, e);
                    lemma_first_bad_in_append(l1, l2 + (l3 + l4 + l5 + l6), e);
                    assert(all_file_lists(cfg) =~= l1 + (l2 + (l3 + l4 + l5 + l6)));
                }
                return Err(e);
            },
        };
        let c = match build_each(&cfg.forbidden_constructors) {
            Ok(c) => c,
            Err(e) => {
                proof {
                    lemma_first_bad_in_append(l1, l2, e);
                    lemma_first_bad_in_append(l3, l4 + l5 + l6, e);
                    lemma_first_bad_in_append(l1 + l2, l3 + (l4 + l5 + l6), e);
                    assert(all_file_lists(cfg) =~= (l1 + l2) + (l3 + (l4 + l5 + l6)));
                }
                return Err(e);
            },
        };
        let d = match build_each(&cfg.forbidden_macros) {
            Ok(d) => d,
            Err(e) => {
                proof {
                    lemma_first_bad_in_append(l1, l2, e);
                    lemma_first_bad_in_append(l1 + l2, l3, e);
                    lemma_first_bad_in_append(l4, l5 + l6, e);
                    lemma_first_bad_in_append(l1 + l2 + l3, l4 + (l5 + l6), e);
                    assert(all_file_lists(cfg) =~= (l1 + l2 + l3) + (l4 + (l5 + l6)));
                }
                return Err(e);
            },
        };
        let m = match build_each(&cfg.forbidden_methods) {
            Ok(m) => m,
            Err(e) => {
                proof {
                    lemma_first_bad_in_append(l1, l2, e);
                    lemma_first_bad_in_append(l1 + l2, l3, e);
                    lemma_first_bad_in_append(l1 + l2 + l3, l4, e);
                    lemma_first_bad_in_append(l5, l6, e);
                    lemma_first_bad_in_append(l1 + l2 + l3 + l4, l5 + l6, e);
                    assert(all_file_lists(cfg) =~= (l1 + l2 + l3 + l4) + (l5 + l6));
                }
                return Err(e);
            },
        };
        let s = match build_each(&cfg.required_struct_attrs) {
            Ok(s) => s,
            Err(e) => {
                proof {
                    lemma_first_bad_in_append(l1, l2, e);
                    lemma_first_bad_in_append(l1 + l2, l3, e);
                    lemma_first_bad_in_append(l1 + l2 + l3, l4, e);
                    lemma_first_bad_in_append(l1 + l2 + l3 + l4, l5, e);
                    lemma_first_bad_in_append(l1 + l2 + l3 + l4 + l5, l6, e);
                }
                return Err(e);
            },
        };
        proof {
            lemma_lists_valid_append(l1, l2);
            lemma_lists_valid_append(l1 + l2, l3);
            lemma_lists_valid_append(l1 + l2 + l3, l4);
            lemma_lists_valid_append(l1 + l2 + l3 + l4, l5);
            lemma_lists_valid_append(l1 + l2 + l3 + l4 + l5, l6);
        }
        Ok(
            CompiledRules {
                forbidden_imports: a,
                forbidden_inline_paths: b,
                forbidden_constructors: c,
                forbidden_macros: d,
                forbidden_methods: m,
                required_struct_attrs: s,
            },
        )
    }
}

/// The first pattern of `patterns` (import-path globs) that `s` matches.
pub open spec fn first_glob_hit(patterns: Seq<String>, s: Seq<char>) -> Option<Seq<char>>
    decreases patterns.len(),
{
    if patterns.len() == 0 {
        None
    } else if glob_match(patterns[0]@, s) {
        Some(patterns[0]@)
    } else {
        first_glob_hit(patterns.drop_first(), s)
    }
}

/// `first_glob_hit` finds a pattern exactly when some pattern of the list
/// matches, and what it finds is a pattern of the list that matches.
pub proof fn lemma_first_glob_hit_iff(patterns: Seq<String>, s: Seq<char>)
    ensures
        (first_glob_hit(patterns, s) is Some) <==> (exists|j: int|
            0 <= j < patterns.len() && glob_match((#[trigger] patterns[j])@, s)),
        first_glob_hit(patterns, s) matches Some(p) ==> glob_match(p, s) && exists|j: int|
            0 <= j < patterns.len() && (#[trigger] patterns[j])@ == p,
    decreases patterns.len(),
{
    if patterns.len() > 0 {
        let rest = patterns.drop_first();
        lemma_first_glob_hit_iff(rest, s);
        if glob_match(patterns[0]@, s) {
            assert(0 <= 0 < patterns.len() && patterns[0]@ == patterns[0]@);
        } else {
            assert forall|j: int| 0 <= j < patterns.len() && glob_match((#[trigger] patterns[j])@, s) implies
                exists|i: int| 0 <= i < rest.len() && glob_match((#[trigger] rest[i])@, s) by {
                assert(j > 0);
                assert(rest[j - 1] == patterns[j]);
            }
            if first_glob_hit(rest, s) is Some {
                let j = choose|j: int| 0 <= j < rest.len() && glob_match((#[trigger] rest[j])@, s);
                assert(patterns[j + 1] == rest[j]);
                let p = first_glob_hit(rest, s)->0;
                let i = choose|i: int| 0 <= i < rest.len() && (#[trigger] rest[i])@ == p;
                assert(patterns[i + 1] == rest[i]);
            }
        }
    }
}

/// Index of the first pattern of `patterns` that `s` matches.
pub fn first_hit(patterns: &Vec<String>, s: &str) -> (r: Option<usize>)
    ensures
        match first_glob_hit(patterns@, s@) {
            None => r is None,
            Some(p) => r matches Some(i) && i < patterns@.len() && patterns@[i as int]@ == p,
        },
{
    let mut i: usize = 0;
    proof {
        assert(patterns@.skip(0) =~= patterns@);
    }
    while i < patterns.len()
        invariant
            i <= patterns@.len(),
            first_glob_hit(patterns@, s@) == first_glob_hit(patterns@.skip(i as int), s@),
        decreases patterns@.len() - i,
    {
        proof {
            assert(patterns@.skip(i as int).drop_first() =~= patterns@.skip(i + 1));
            assert(patterns@.skip(i as int)[0] == patterns@[i as int]);
        }
        if crate::glob::import_path::matches(patterns[i].as_str(), s) {
            return Some(i);
        }
        i = i + 1;
    }
    assert(patterns@.skip(i as int).len() == 0);
    None
}

/// The sequences, concatenated in order.
pub open spec fn concat_all<T>(s: Seq<Seq<T>>) -> Seq<T>
    decreases s.len(),
{
    if s.len() == 0 {
        Seq::empty()
    } else {
        concat_all(s.drop_last()) + s.last()
    }
}

/// One step of a concatenation built by `Seq::new`.
pub proof fn lemma_concat_new_step<T>(n: nat, f: spec_fn(int) -> Seq<T>)
    requires
        n > 0,
    ensures
        concat_all(Seq::new(n, f)) == concat_all(Seq::new((n - 1) as nat, f)) + f(n - 1),
{
    assert(Seq::new(n, f).drop_last() =~= Seq::new((n - 1) as nat, f));
}

/// A rule entry is live for the current file and context: its scope holds
/// and it is not skipped for test code.
pub open spec fn rule_live(
    env: crate::visitor::WalkEnv,
    c: crate::visitor::WalkCtx,
    in_layers: Seq<String>,
    in_layers_except: Seq<String>,
    in_files: Seq<String>,
    allow_in_test_context: bool,
) -> bool {
    scope_holds(in_layers, in_layers_except, strings_view(in_files), env.layer.name@, env.rel) && !(
    allow_in_test_context && c.in_test)
}

/// A non-empty `in_layers_except` takes precedence over `in_layers`: the
/// entry applies to every layer not listed there (and to its `in_files`).
pub proof fn law_except_takes_precedence(
    in_layers: Seq<String>,
    in_layers_except: Seq<String>,
    in_files: Seq<Seq<char>>,
    layer_name: Seq<char>,
    rel_path: Seq<char>,
)
    requires
        in_layers_except.len() > 0,
    ensures
        scope_holds(in_layers, in_layers_except, in_files, layer_name, rel_path) == (!names_contain(
            in_layers_except,
            layer_name,
        ) || set_matches(in_files, rel_path)),
{
}

/// An entry with no `in_layers`, no `in_layers_except` and no `in_files`
/// applies to no file.
pub proof fn law_empty_scope_applies_nowhere(layer_name: Seq<char>, rel_path: Seq<char>)
    ensures
        !scope_holds(Seq::empty(), Seq::empty(), Seq::empty(), layer_name, rel_path),
{
}

/// An entry with `allow_in_test_context = true` never fires in test code.
pub proof fn law_allowed_in_test_context(
    env: crate::visitor::WalkEnv,
    c: crate::visitor::WalkCtx,
    in_layers: Seq<String>,
    in_layers_except: Seq<String>,
    in_files: Seq<String>,
)
    requires
        c.in_test,
    ensures
        !rule_live(env, c, in_layers, in_layers_except, in_files, true),
{
}

/// Concatenating empty parts gives nothing.
pub proof fn lemma_concat_all_empty<T>(s: Seq<Seq<T>>)
    requires
        forall|k: int| 0 <= k < s.len() ==> (#[trigger] s[k]).len() == 0,
    ensures
        concat_all(s).len() == 0,
    decreases s.len(),
{
    if s.len() > 0 {
        let d = s.drop_last();
        assert forall|k: int| 0 <= k < d.len() implies (#[trigger] d[k]).len() == 0 by {
            assert(d[k] == s[k]);
        }
        lemma_concat_all_empty(d);
        assert(s.last() == s[s.len() - 1]);
    }
}

/// A property of every element of every part holds of every element of the
/// concatenation.
pub proof fn lemma_concat_all_forall<T>(s: Seq<Seq<T>>, p: spec_fn(T) -> bool)
    requires
        forall|i: int, j: int| 0 <= i < s.len() && 0 <= j < s[i].len() ==> p(#[trigger] s[i][j]),
    ensures
        forall|k: int| 0 <= k < concat_all(s).len() ==> p(#[trigger] concat_all(s)[k]),
    decreases s.len(),
{
    if s.len() > 0 {
        let d = s.drop_last();
        assert forall|i: int, j: int| 0 <= i < d.len() && 0 <= j < d[i].len() implies p(#[trigger] d[i][j]) by {
            assert(d[i] == s[i]);
        }
        lemma_concat_all_forall(d, p);
        let a = concat_all(d);
        let b = s.last();
        assert forall|k: int| 0 <= k < concat_all(s).len() implies p(#[trigger] concat_all(s)[k]) by {
            if k < a.len() {
                assert(concat_all(s)[k] == a[k]);
            } else {
                assert(concat_all(s)[k] == b[k - a.len()]);
                assert(b == s[s.len() - 1]);
            }
        }
    }
}

} // verus!
