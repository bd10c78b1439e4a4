//! Uniform random draws from the engine's generator.

use vstd::prelude::*;

verus! {

/// Largest bound of a draw: below it the generator's floating-point
/// scaling is exact, so every draw stays under its bound.
pub const RANDOM_LIMIT: u32 = 0x20_0000;

/// Relies on `macroquad::rand::gen_range` (quad-rand 0.2): with integer
/// bounds `low = 0` and `high = n`, it computes `n * k / 2^32` in `f64` for a
/// generator value `k < 2^32` and truncates it. For `n <= 2^21` that product
/// is exact and below `n`.
#[verifier::external_body]
pub(crate) fn random_below(n: u32) -> (r: u32)
    requires
        0 < n <= RANDOM_LIMIT,
    ensures
        r < n,
{
    macroquad::rand::gen_range::<u32>(0, n)
}

} // verus!
