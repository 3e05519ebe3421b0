//! The one source of chance: a uniform draw below a bound.

use rand::Rng;
use vstd::prelude::*;

verus! {

/// Draws an integer from `[0, bound)` with `rand`'s thread-local generator:
/// `rand::thread_rng()` followed by `Rng::gen_range(0..bound)`. The range is
/// half-open, so the draw never reaches `bound`; `gen_range` panics on an
/// empty range, which `bound > 0` rules out. Nothing else is claimed of the
/// value: two draws with one bound may differ.
#[verifier::external_body]
pub(crate) fn draw_below(bound: u64) -> (r: u64)
    requires
        bound > 0,
    ensures
        r < bound,
{
    rand::thread_rng().gen_range(0..bound)
}

} // verus!
