//! How fast the snake moves and how many bombs lie on the board, as
//! functions of the score. Times are in microseconds.

use vstd::prelude::*;

verus! {

/// The step delay at the start of a round: 0.16 s.
pub const BASE_STEP_DELAY: u64 = 160_000;

/// The shortest step delay the score can bring: 0.07 s.
pub const MIN_STEP_DELAY: u64 = 70_000;

/// The longest delay a slow-down can stretch a step to: 0.24 s.
pub const MAX_SLOWED_DELAY: u64 = 240_000;

/// The step delay for a score: 0.16 s less 6 ms for every 10 points,
/// never below 0.07 s.
pub open spec fn spec_speed_for_score(score: u32) -> u64 {
    let d = BASE_STEP_DELAY - 600 * score;
    if d < MIN_STEP_DELAY {
        MIN_STEP_DELAY
    } else {
        d as u64
    }
}

/// The step delay for a score.
pub fn speed_for_score(score: u32) -> (d: u64)
    ensures
        d == spec_speed_for_score(score),
        MIN_STEP_DELAY <= d <= BASE_STEP_DELAY,
{
    let cut: u64 = 600 * (score as u64);
    if cut >= BASE_STEP_DELAY - MIN_STEP_DELAY {
        MIN_STEP_DELAY
    } else {
        BASE_STEP_DELAY - cut
    }
}

/// The number of bombs the score calls for: one more for every 40 points,
/// at most five.
pub open spec fn spec_target_bomb_count(score: u32) -> usize {
    let n = 1 + score / 40;
    if n > 5 {
        5
    } else {
        n as usize
    }
}

/// The number of bombs the score calls for.
pub fn target_bomb_count(score: u32) -> (n: usize)
    ensures
        n == spec_target_bomb_count(score),
        1 <= n <= 5,
{
    let n: u32 = 1 + score / 40;
    if n > 5 {
        5
    } else {
        n as usize
    }
}

/// The number of bombs placed when a round starts: the target count, which
/// is never below one.
pub fn initial_bomb_count(score: u32) -> (n: usize)
    ensures
        n == spec_target_bomb_count(score),
        n >= 1,
{
    target_bomb_count(score)
}

/// A higher score never slows the snake down nor removes bombs.
pub proof fn lemma_pace_monotone(a: u32, b: u32)
    requires
        a <= b,
    ensures
        spec_speed_for_score(b) <= spec_speed_for_score(a),
        spec_target_bomb_count(a) <= spec_target_bomb_count(b),
{
    assert(a / 40 <= b / 40) by (nonlinear_arith)
        requires
            a <= b,
    ;
}

} // verus!
