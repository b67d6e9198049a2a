//! Identifier glob matcher.
//!
//! `*` matches any sequence of characters within an identifier.
//! `**` is rejected as a config error (it has no segment-aware meaning here).
//! Bare names with no `*` are exact-match.

use vstd::prelude::*;

use crate::glob::{glob_match, wildcard_match};
use crate::text::chars_of;

verus! {

/// Returns `true` if `ident` matches `pattern` under identifier glob rules.
pub fn matches(pattern: &str, ident: &str) -> (r: bool)
    ensures
        r == glob_match(pattern@, ident@),
{
    let p = chars_of(pattern);
    let s = chars_of(ident);
    wildcard_match(&p, &s)
}

/// `pattern` holds two adjacent `*`.
pub open spec fn has_double_star(pattern: Seq<char>) -> bool {
    exists|i: int| 0 <= i < pattern.len() - 1 && pattern[i] == '*' && #[trigger] pattern[i + 1] == '*'
}

/// An identifier pattern that holds `**`.
#[derive(Debug)]
pub struct IdentPatternError {
    pub pattern: String,
}

impl IdentPatternError {
    /// The error's text.
    pub fn message(&self) -> (r: String)
        ensures
            r@ == "identifier pattern `"@ + self.pattern@
                + "` contains `**`, which has no meaning in identifier globs"@,
    {
        let mut m = String::from_str("identifier pattern `");
        m.append(self.pattern.as_str());
        m.append("` contains `**`, which has no meaning in identifier globs");
        m
    }
}

/// Validates an identifier pattern. Rejects `**`.
pub fn validate(pattern: &str) -> (r: Result<(), IdentPatternError>)
    ensures
        r is Ok <==> !has_double_star(pattern@),
        r matches Err(e) ==> e.pattern@ == pattern@,
{
    let p = chars_of(pattern);
    let mut i: usize = 0;
    while i < p.len()
        invariant
            i <= p.len(),
            p@ == pattern@,
            forall|j: int| 0 <= j < i && j < p@.len() - 1 ==> !(p@[j] == '*' && #[trigger] p@[j + 1] == '*'),
        decreases p.len() - i,
    {
        if i + 1 < p.len() && p[i] == '*' && p[i + 1] == '*' {
            return Err(IdentPatternError { pattern: String::from_str(pattern) });
        }
        i = i + 1;
    }
    Ok(())
}

} // verus!
