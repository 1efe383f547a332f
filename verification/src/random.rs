//! The random numbers of the game come from macroquad's generator.

use vstd::prelude::*;

verus! {

/// Calls `macroquad::rand::gen_range::<i32>(low, high)` (quad-rand's
/// `gen_range`). Its source takes a draw `r` of the global PCG generator,
/// computes `low + (high - low) * (r / 2^32)` in `f64` and truncates to
/// `i32`. With `low == 0` this is the correctly rounded product
/// `high * (r / 2^32)`, which stays below `high` (the gap `high / 2^32` is
/// wider than half an `f64` step there), so for `0 < high` the result lies
/// in `0..high`. For larger `low` the rounding can reach `high`, so only
/// `low == 0` is admitted. Which number comes back depends on the
/// generator's state; nothing more is claimed of it.
#[verifier::external_body]
pub(crate) fn gen_range_i32(low: i32, high: i32) -> (r: i32)
    requires
        low == 0,
        0 < high,
    ensures
        0 <= r < high,
{
    macroquad::rand::gen_range(low, high)
}

} // verus!
