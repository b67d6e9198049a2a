//! Filesystem-path glob matching, backed by the `globset` crate.
//!
//! `*` matches within a path segment (it never matches `/`), `**` matches
//! across segments,
//! `?` matches one character. Globs are evaluated relative to whatever
//! root the caller normalizes against (typically `src_root` or the
//! project root).

use vstd::prelude::*;

use crate::text::string_of;

verus! {

/// Whether `globset` accepts `pattern` as a glob whose `*` stops at `/`
/// (and can compile it into a set).
pub uninterp spec fn fs_glob_valid(pattern: Seq<char>) -> bool;

/// Whether the `globset` glob `pattern`, its `*` stopping at `/`, matches
/// `path`.
pub uninterp spec fn fs_glob_matches(pattern: Seq<char>, path: Seq<char>) -> bool;

/// Whether `globset` builds one set of all the globs `globs` (each built as
/// in [`glob_accepts`]); the set's combined matcher has a size limit.
pub uninterp spec fn fs_globs_build(globs: Seq<Seq<char>>) -> bool;

/// `globset::GlobBuilder::new(pattern).literal_separator(true).build()`
/// followed by `globset::GlobSet::new` on that one glob: claims only that
/// the result is the (named) acceptance of `pattern`.
#[verifier::external_body]
pub(crate) fn glob_accepts(pattern: &str) -> (r: bool)
    ensures
        r == fs_glob_valid(pattern@),
{
    match globset::GlobBuilder::new(pattern).literal_separator(true).build() {
        Ok(g) => globset::GlobSet::new([g]).is_ok(),
        Err(_) => false,
    }
}

/// `globset::GlobSet::is_match` on the one-glob set built as in
/// [`glob_accepts`]: claims only that the result is the (named) match of
/// `pattern` on `path`.
#[verifier::external_body]
pub(crate) fn glob_is_match(pattern: &str, path: &str) -> (r: bool)
    requires
        fs_glob_valid(pattern@),
    ensures
        r == fs_glob_matches(pattern@, path@),
{
    match globset::GlobBuilder::new(pattern).literal_separator(true).build() {
        Ok(g) => match globset::GlobSet::new([g]) {
            Ok(set) => set.is_match(path),
            Err(_) => false,
        },
        Err(_) => false,
    }
}

/// `globset::GlobSetBuilder::add` of each pattern, built as in
/// [`glob_accepts`], then `GlobSetBuilder::build`: claims only that the
/// result is the (named) success of building the whole set.
#[verifier::external_body]
pub(crate) fn globs_build(patterns: &[String]) -> (r: bool)
    ensures
        r == fs_globs_build(strings_view(patterns@)),
{
    let mut builder = globset::GlobSetBuilder::new();
    for pattern in patterns {
        match globset::GlobBuilder::new(pattern).literal_separator(true).build() {
            Ok(g) => {
                builder.add(g);
            },
            Err(_) => return false,
        }
    }
    builder.build().is_ok()
}

/// The characters of each string, in order.
pub open spec fn strings_view(v: Seq<String>) -> Seq<Seq<char>> {
    v.map_values(|s: String| s@)
}

/// A compiled set of filesystem globs; a path matches the set when it
/// matches any of its globs.
#[derive(Debug)]
pub struct GlobSet {
    patterns: Vec<String>,
}

impl GlobSet {
    #[verifier::type_invariant]
    spec fn inv(self) -> bool {
        forall|i: int| 0 <= i < self.patterns@.len() ==> fs_glob_valid(#[trigger] self.patterns@[i]@)
    }

    /// The globs of the set, in the order they were given.
    pub closed spec fn globs(self) -> Seq<Seq<char>> {
        strings_view(self.patterns@)
    }

    /// The set with no globs; it matches nothing.
    pub fn empty() -> (r: GlobSet)
        ensures
            r.globs() == Seq::<Seq<char>>::empty(),
    {
        let r = GlobSet { patterns: Vec::new() };
        assert(r.globs() =~= Seq::<Seq<char>>::empty());
        r
    }
}

/// `path` matches one of the globs `globs`.
pub open spec fn set_matches(globs: Seq<Seq<char>>, path: Seq<char>) -> bool {
    exists|i: int| 0 <= i < globs.len() && fs_glob_matches(#[trigger] globs[i], path)
}

/// Index of the first glob of `globs` that `globset` rejects, if any.
pub open spec fn first_invalid(globs: Seq<Seq<char>>) -> Option<int>
    decreases globs.len(),
{
    if globs.len() == 0 {
        None
    } else {
        match first_invalid(globs.drop_last()) {
            Some(i) => Some(i),
            None => if fs_glob_valid(globs.last()) {
                None
            } else {
                Some(globs.len() - 1)
            },
        }
    }
}

/// `pattern` is the first glob of `globs` that `globset` rejects.
pub open spec fn first_bad_glob(globs: Seq<Seq<char>>, pattern: Seq<char>) -> bool {
    match first_invalid(globs) {
        Some(i) => pattern == globs[i],
        None => false,
    }
}

/// Every glob of the list is accepted, and `globset` builds one set of them
/// all.
pub open spec fn list_valid(globs: Seq<Seq<char>>) -> bool {
    first_invalid(globs) is None && fs_globs_build(globs)
}

/// `e` reports why `globs` does not build: its first rejected glob, or,
/// when every glob is accepted, that the whole set does not build.
pub open spec fn list_error(globs: Seq<Seq<char>>, e: GlobError) -> bool {
    if e.whole_set {
        first_invalid(globs) is None && !fs_globs_build(globs)
    } else {
        first_bad_glob(globs, e.pattern@)
    }
}

/// A glob list that `globset` rejects: a glob of it (`pattern`), or the
/// set of them all (`whole_set`).
#[derive(Debug)]
pub struct GlobError {
    pub pattern: String,
    pub whole_set: bool,
}

impl GlobError {
    /// ``invalid filesystem glob: `<pattern>` ``, or `failed to build glob
    /// set` for the whole set.
    pub open spec fn message_spec(&self) -> Seq<char> {
        if self.whole_set {
            "failed to build glob set"@
        } else {
            "invalid filesystem glob: `"@ + self.pattern@ + "`"@
        }
    }

    pub fn message(&self) -> (r: String)
        ensures
            r@ == self.message_spec(),
    {
        if self.whole_set {
            return String::from_str("failed to build glob set");
        }
        let mut m = String::from_str("invalid filesystem glob: `");
        m.append(self.pattern.as_str());
        m.append("`");
        m
    }
}

pub proof fn lemma_first_invalid_none(globs: Seq<Seq<char>>)
    ensures
        first_invalid(globs) is None <==> forall|i: int| 0 <= i < globs.len() ==> fs_glob_valid(
            #[trigger] globs[i],
        ),
        first_invalid(globs) matches Some(i) ==> 0 <= i < globs.len() && !fs_glob_valid(globs[i])
            && forall|j: int| 0 <= j < i ==> fs_glob_valid(#[trigger] globs[j]),
    decreases globs.len(),
{
    if globs.len() > 0 {
        let g1 = globs.drop_last();
        lemma_first_invalid_none(g1);
        assert forall|i: int| 0 <= i < g1.len() implies g1[i] == globs[i] by {}
        if first_invalid(globs) is None {
            assert forall|i: int| 0 <= i < globs.len() implies fs_glob_valid(#[trigger] globs[i]) by {
                if i < g1.len() {
                    assert(g1[i] == globs[i]);
                }
            }
        }
    }
}

/// Compile a slice of glob patterns into a single set; fails on the first
/// pattern that `globset` rejects, or when the set of them all does not
/// build.
pub fn build_set(globs: &[String]) -> (r: Result<GlobSet, GlobError>)
    ensures
        match r {
            Ok(set) => list_valid(strings_view(globs@)) && set.globs() == strings_view(globs@),
            Err(e) => list_error(strings_view(globs@), e),
        },
{
    let ghost gv = strings_view(globs@);
    proof {
        lemma_first_invalid_none(gv);
    }
    let mut patterns: Vec<String> = Vec::new();
    let mut i: usize = 0;
    while i < globs.len()
        invariant
            i <= globs.len(),
            gv == strings_view(globs@),
            patterns@.len() == i,
            forall|j: int| 0 <= j < i ==> (#[trigger] patterns@[j])@ == gv[j],
            forall|j: int| 0 <= j < i ==> fs_glob_valid(#[trigger] gv[j]),
        decreases globs.len() - i,
    {
        let g = &globs[i];
        if !glob_accepts(g.as_str()) {
            proof {
                assert(gv[i as int] == g@);
                lemma_first_invalid_prefix(gv, i as int);
            }
            return Err(GlobError { pattern: g.clone(), whole_set: false });
        }
        patterns.push(g.clone());
        i = i + 1;
    }
    if !globs_build(globs) {
        return Err(GlobError { pattern: String::new(), whole_set: true });
    }
    let set = GlobSet { patterns };
    proof {
        assert(set.globs() =~= gv);
    }
    Ok(set)
}

/// If all globs before `i` are accepted and the one at `i` is not, `i` is
/// the first rejected glob.
pub proof fn lemma_first_invalid_prefix(globs: Seq<Seq<char>>, i: int)
    requires
        0 <= i < globs.len(),
        !fs_glob_valid(globs[i]),
        forall|j: int| 0 <= j < i ==> fs_glob_valid(#[trigger] globs[j]),
    ensures
        first_invalid(globs) == Some(i),
    decreases globs.len(),
{
    lemma_first_invalid_none(globs);
    if i < globs.len() - 1 {
        let g1 = globs.drop_last();
        assert forall|j: int| 0 <= j < i implies fs_glob_valid(#[trigger] g1[j]) by {
            assert(g1[j] == globs[j]);
        }
        lemma_first_invalid_prefix(g1, i);
    } else {
        let g1 = globs.drop_last();
        lemma_first_invalid_none(g1);
        assert forall|j: int| 0 <= j < g1.len() implies fs_glob_valid(#[trigger] g1[j]) by {
            assert(g1[j] == globs[j]);
        }
    }
}

/// Returns `true` if `rel_path` matches any glob in `set`.
pub fn matches(set: &GlobSet, rel_path: &str) -> (r: bool)
    ensures
        r == set_matches(set.globs(), rel_path@),
{
    proof {
        use_type_invariant(set);
    }
    let mut i: usize = 0;
    while i < set.patterns.len()
        invariant
            i <= set.patterns@.len(),
            forall|j: int|
                0 <= j < set.patterns@.len() ==> fs_glob_valid(#[trigger] set.patterns@[j]@),
            forall|j: int| 0 <= j < i ==> !fs_glob_matches(#[trigger] set.globs()[j], rel_path@),
            set.globs() == strings_view(set.patterns@),
        decreases set.patterns@.len() - i,
    {
        if glob_is_match(set.patterns[i].as_str(), rel_path) {
            assert(set.globs()[i as int] == set.patterns@[i as int]@);
            return true;
        }
        i = i + 1;
    }
    false
}

} // verus!
