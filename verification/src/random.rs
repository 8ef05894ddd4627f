//! The one source of chance: the host's pseudo-random generator.

use vstd::prelude::*;

verus! {

/// Draws from `macroquad::rand::gen_range` between zero and `bound`.
///
/// The generator scales a 32-bit draw `k` to `bound * k / 2^32` and cuts the
/// fraction off, so whatever its state the result is below `bound`. Nothing
/// else is claimed: two calls may differ.
#[verifier::external_body]
pub(crate) fn random_below(bound: u32) -> (r: u32)
    requires
        bound > 0,
    ensures
        r < bound,
{
    macroquad::rand::gen_range(0u32, bound)
}

} // verus!
