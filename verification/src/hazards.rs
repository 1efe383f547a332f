//! The fixed bomb layouts: six offsets around the centre of the board per
//! pattern, turned a quarter further each round.

use vstd::prelude::*;

use crate::grid::{in_bounds, Cell, GRID_SIZE};
use crate::kinds::HazardPattern;

verus! {

/// The six offsets of a pattern, relative to the centre of the board.
pub open spec fn pattern_offsets(pattern: HazardPattern) -> Seq<Cell> {
    match pattern {
        HazardPattern::SplitGates => seq![
            Cell { x: -7i32, y: -2i32 },
            Cell { x: -7i32, y: -1i32 },
            Cell { x: -7i32, y: 0 },
            Cell { x: 7, y: -2i32 },
            Cell { x: 7, y: -1i32 },
            Cell { x: 7, y: 0 },
        ],
        HazardPattern::DiamondRun => seq![
            Cell { x: 0, y: -7i32 },
            Cell { x: -1i32, y: -6i32 },
            Cell { x: 1, y: -6i32 },
            Cell { x: -2i32, y: -5i32 },
            Cell { x: 2, y: -5i32 },
            Cell { x: 0, y: -4i32 },
        ],
        HazardPattern::ReactorLadder => seq![
            Cell { x: -5i32, y: -8i32 },
            Cell { x: -5i32, y: -6i32 },
            Cell { x: -5i32, y: -4i32 },
            Cell { x: -3i32, y: -8i32 },
            Cell { x: -3i32, y: -6i32 },
            Cell { x: -3i32, y: -4i32 },
        ],
        HazardPattern::CornerHooks => seq![
            Cell { x: -10i32, y: -8i32 },
            Cell { x: -9i32, y: -8i32 },
            Cell { x: -9i32, y: -7i32 },
            Cell { x: 10, y: 8 },
            Cell { x: 9, y: 8 },
            Cell { x: 9, y: 7 },
        ],
        HazardPattern::Pinwheel => seq![
            Cell { x: -8i32, y: 1 },
            Cell { x: -7i32, y: 1 },
            Cell { x: -7i32, y: 2 },
            Cell { x: 1, y: -8i32 },
            Cell { x: 1, y: -7i32 },
            Cell { x: 2, y: -7i32 },
        ],
    }
}

/// Turns an offset by `turns` quarter turns, `(x, y)` going to `(-y, x)`
/// each time.
pub open spec fn spec_rotate(offset: Cell, turns: u32) -> Cell {
    let t = turns % 4;
    if t == 0 {
        offset
    } else if t == 1 {
        Cell { x: -offset.y as i32, y: offset.x }
    } else if t == 2 {
        Cell { x: -offset.x as i32, y: -offset.y as i32 }
    } else {
        Cell { x: offset.y, y: -offset.x as i32 }
    }
}

/// The number of quarter turns of a round: rounds 1, 2, 3, 4 turn 0, 1, 2
/// and 3 times, and so on.
pub open spec fn round_turns(round_number: u32) -> u32 {
    (if round_number == 0 { 0 } else { (round_number - 1) as u32 }) % 4
}

/// The cell an offset from the centre lands on.
pub open spec fn from_center(offset: Cell) -> Cell {
    Cell { x: (GRID_SIZE / 2 + offset.x) as i32, y: (GRID_SIZE / 2 + offset.y) as i32 }
}

/// The bomb slots of a pattern in a round, in the pattern's order.
pub open spec fn spec_hazard_layout(pattern: HazardPattern, round_number: u32) -> Seq<Cell> {
    pattern_offsets(pattern).map_values(
        |o: Cell| from_center(spec_rotate(o, round_turns(round_number))),
    )
}

fn pattern_offset_list(pattern: HazardPattern) -> (v: Vec<Cell>)
    ensures
        v@ == pattern_offsets(pattern),
{
    let v = match pattern {
        HazardPattern::SplitGates => vec![
            Cell { x: -7, y: -2 },
            Cell { x: -7, y: -1 },
            Cell { x: -7, y: 0 },
            Cell { x: 7, y: -2 },
            Cell { x: 7, y: -1 },
            Cell { x: 7, y: 0 },
        ],
        HazardPattern::DiamondRun => vec![
            Cell { x: 0, y: -7 },
            Cell { x: -1, y: -6 },
            Cell { x: 1, y: -6 },
            Cell { x: -2, y: -5 },
            Cell { x: 2, y: -5 },
            Cell { x: 0, y: -4 },
        ],
        HazardPattern::ReactorLadder => vec![
            Cell { x: -5, y: -8 },
            Cell { x: -5, y: -6 },
            Cell { x: -5, y: -4 },
            Cell { x: -3, y: -8 },
            Cell { x: -3, y: -6 },
            Cell { x: -3, y: -4 },
        ],
        HazardPattern::CornerHooks => vec![
            Cell { x: -10, y: -8 },
            Cell { x: -9, y: -8 },
            Cell { x: -9, y: -7 },
            Cell { x: 10, y: 8 },
            Cell { x: 9, y: 8 },
            Cell { x: 9, y: 7 },
        ],
        HazardPattern::Pinwheel => vec![
            Cell { x: -8, y: 1 },
            Cell { x: -7, y: 1 },
            Cell { x: -7, y: 2 },
            Cell { x: 1, y: -8 },
            Cell { x: 1, y: -7 },
            Cell { x: 2, y: -7 },
        ],
    };
    assert(v@ =~= pattern_offsets(pattern));
    v
}

/// Turns an offset by `turns` quarter turns. A coordinate that the turn
/// negates must not be `i32::MIN`, whose negation overflows.
pub fn rotate_offset(offset: Cell, turns: u32) -> (c: Cell)
    requires
        turns % 4 == 1 ==> offset.y > i32::MIN,
        turns % 4 == 2 ==> offset.x > i32::MIN && offset.y > i32::MIN,
        turns % 4 == 3 ==> offset.x > i32::MIN,
    ensures
        c == spec_rotate(offset, turns),
{
    match turns % 4 {
        0 => offset,
        1 => Cell { x: -offset.y, y: offset.x },
        2 => Cell { x: -offset.x, y: -offset.y },
        _ => Cell { x: offset.y, y: -offset.x },
    }
}

/// Every offset of every pattern lies within ten cells of the centre.
proof fn lemma_offsets_small(pattern: HazardPattern, i: int)
    requires
        0 <= i < pattern_offsets(pattern).len(),
    ensures
        -10 <= pattern_offsets(pattern)[i].x <= 10,
        -10 <= pattern_offsets(pattern)[i].y <= 10,
        pattern_offsets(pattern).len() == 6,
{
}

/// The bomb slots of a round: the pattern's offsets turned and moved to the
/// centre, keeping those that land on the board (all of them do).
pub fn build_hazard_layout(pattern: HazardPattern, round_number: u32) -> (v: Vec<Cell>)
    ensures
        v@ == spec_hazard_layout(pattern, round_number),
        v@.len() == 6,
        forall|i: int| 0 <= i < v@.len() ==> in_bounds(#[trigger] v@[i]),
{
    let offsets = pattern_offset_list(pattern);
    let turns: u32 = round_number.saturating_sub(1) % 4;
    let center = Cell { x: GRID_SIZE / 2, y: GRID_SIZE / 2 };
    let mut out: Vec<Cell> = Vec::new();
    let ghost layout = spec_hazard_layout(pattern, round_number);
    let mut i: usize = 0;
    while i < offsets.len()
        invariant
            0 <= i <= offsets@.len(),
            offsets@ == pattern_offsets(pattern),
            turns == round_turns(round_number),
            center == (Cell { x: 12, y: 12 }),
            layout == spec_hazard_layout(pattern, round_number),
            out@ == layout.take(i as int),
            forall|k: int| 0 <= k < out@.len() ==> in_bounds(#[trigger] out@[k]),
        decreases offsets@.len() - i,
    {
        proof {
            lemma_offsets_small(pattern, i as int);
        }
        let r = rotate_offset(offsets[i], turns);
        let cell = Cell { x: r.x + center.x, y: r.y + center.y };
        assert(cell == layout[i as int]);
        if cell.x >= 0 && cell.y >= 0 && cell.x < GRID_SIZE && cell.y < GRID_SIZE {
            out.push(cell);
        }
        assert(out@ =~= layout.take(i + 1));
        i = i + 1;
    }
    proof {
        lemma_offsets_small(pattern, 0);
    }
    assert(out@ =~= layout);
    out
}

/// The first round lays the pattern's offsets around the centre unturned.
pub proof fn lemma_first_round_unturned(pattern: HazardPattern, i: int)
    requires
        0 <= i < pattern_offsets(pattern).len(),
    ensures
        spec_hazard_layout(pattern, 1)[i] == (Cell {
            x: (12 + pattern_offsets(pattern)[i].x) as i32,
            y: (12 + pattern_offsets(pattern)[i].y) as i32,
        }),
{
    lemma_offsets_small(pattern, i);
}

/// Each round's layout is the previous round's turned a quarter turn about
/// the centre of the board: the slot `(x, y)` goes to `(24 - y, x)`.
pub proof fn lemma_each_round_turns_a_quarter(pattern: HazardPattern, r: u32, i: int)
    requires
        1 <= r < u32::MAX,
        0 <= i < pattern_offsets(pattern).len(),
    ensures
        spec_hazard_layout(pattern, (r + 1) as u32)[i] == (Cell {
            x: (24 - spec_hazard_layout(pattern, r)[i].y) as i32,
            y: spec_hazard_layout(pattern, r)[i].x,
        }),
{
    lemma_offsets_small(pattern, i);
    let t = ((r - 1) as u32) % 4;
    assert(((r + 1 - 1) as u32) % 4 == (t + 1) % 4);
}

} // verus!
