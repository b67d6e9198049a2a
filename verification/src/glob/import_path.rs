//! Import-path glob matcher.
//!
//! `*` matches any sequence of characters, including `::` separators.
//! A pattern with no `*` is exact-match. Patterns may have `*` at the
//! start, end, middle, or both ends.

use vstd::prelude::*;

use crate::glob::{glob_match, wildcard_match};
use crate::text::chars_of;

verus! {

/// Returns `true` if `path` matches `pattern` under import-path glob rules.
pub fn matches(pattern: &str, path: &str) -> (r: bool)
    ensures
        r == glob_match(pattern@, path@),
{
    let p = chars_of(pattern);
    let s = chars_of(path);
    wildcard_match(&p, &s)
}

} // verus!
