//! Random draws for the piece queue.
use vstd::prelude::*;

verus! {

/// Relies on `macroquad::rand::gen_range` (quad-rand's, re-exported) for
/// `usize`: it returns `low + (high - low) * u` truncated, with
/// `u = rand() / 2^32` in `[0, 1)`, so a value in `[0, high)` for `low == 0`
/// and a `high` small enough that the product rounds below `high`.
#[verifier::external_body]
pub(crate) fn random_below(high: usize) -> (r: usize)
    requires
        1 <= high <= 65536,
    ensures
        r < high,
{
    macroquad::rand::gen_range(0, high)
}

} // verus!
