//! The random source behind obstacle gap placement.  Nothing is assumed
//! of a draw beyond its range.
use vstd::prelude::*;

use rand::Rng;

verus! {

/// Relies on `rand::Rng::gen_range` on `rand::thread_rng()`: a draw from
/// a non-empty half-open range lies within it.  The function panics only
/// on an empty range, which the precondition rules out; nothing else is
/// assumed of the draw.
#[verifier::external_body]
pub(crate) fn random_in_range(lo: i64, hi: i64) -> (r: i64)
    requires
        lo < hi,
    ensures
        lo <= r < hi,
{
    rand::thread_rng().gen_range(lo..hi)
}

} // verus!
