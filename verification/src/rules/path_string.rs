//! Stringify a path as `seg1::seg2::seg3`. Generic arguments are dropped.

use vstd::prelude::*;

use crate::syntax::SynPath;
use crate::text::join_with;

verus! {

/// The identifiers of `path`'s segments joined by `::`.
pub open spec fn path_text(path: SynPath) -> Seq<char> {
    join_with(path.segments@.map_values(|s: String| s@), "::"@)
}

/// `path`'s segments joined by `::`; generic arguments are dropped.
pub fn of(path: &SynPath) -> (r: String)
    ensures
        r@ == path_text(*path),
{
    crate::text::join(path.segments.as_slice(), "::")
}

} // verus!
