//! Board geometry: cells, directions and the size of the playfield.

use vstd::prelude::*;

verus! {

/// Side length of the square board, in cells.
pub const GRID_SIZE: i32 = 24;

/// Number of cells the snake has when a round starts.
pub const START_LENGTH: i32 = 5;

/// A cell (or an offset between cells) on the board.
#[derive(Clone, Copy, Debug, PartialEq, Eq, Structural)]
pub struct Cell {
    pub x: i32,
    pub y: i32,
}

/// Whether `c` lies on the board.
pub open spec fn in_bounds(c: Cell) -> bool {
    0 <= c.x < GRID_SIZE && 0 <= c.y < GRID_SIZE
}

impl Cell {
    /// Builds the cell `(x, y)`.
    pub fn new(x: i32, y: i32) -> (c: Cell)
        ensures
            c.x == x,
            c.y == y,
    {
        Cell { x, y }
    }

    /// Whether the cell lies on the board.
    pub fn is_on_board(self) -> (b: bool)
        ensures
            b == in_bounds(self),
    {
        0 <= self.x && self.x < GRID_SIZE && 0 <= self.y && self.y < GRID_SIZE
    }
}

/// One of the four headings of the snake.
#[derive(Clone, Copy, Debug, PartialEq, Eq, Structural)]
pub enum Direction {
    Up,
    Down,
    Left,
    Right,
}

/// The unit step of a heading; `y` grows downwards.
pub open spec fn spec_vector(d: Direction) -> Cell {
    match d {
        Direction::Up => Cell { x: 0, y: -1i32 },
        Direction::Down => Cell { x: 0, y: 1 },
        Direction::Left => Cell { x: -1i32, y: 0 },
        Direction::Right => Cell { x: 1, y: 0 },
    }
}

/// The heading that points the other way.
pub open spec fn spec_opposite(d: Direction) -> Direction {
    match d {
        Direction::Up => Direction::Down,
        Direction::Down => Direction::Up,
        Direction::Left => Direction::Right,
        Direction::Right => Direction::Left,
    }
}

impl Direction {
    /// The unit step of this heading.
    pub fn vector(self) -> (v: Cell)
        ensures
            v == spec_vector(self),
    {
        match self {
            Direction::Up => Cell { x: 0, y: -1i32 },
            Direction::Down => Cell { x: 0, y: 1 },
            Direction::Left => Cell { x: -1i32, y: 0 },
            Direction::Right => Cell { x: 1, y: 0 },
        }
    }

    /// The heading that points the other way.
    pub fn opposite(self) -> (d: Direction)
        ensures
            d == spec_opposite(self),
    {
        match self {
            Direction::Up => Direction::Down,
            Direction::Down => Direction::Up,
            Direction::Left => Direction::Right,
            Direction::Right => Direction::Left,
        }
    }

    /// The name shown for this heading.
    pub fn label(self) -> (s: &'static str)
        ensures
            self == Direction::Up ==> s@ == "Up"@,
            self == Direction::Down ==> s@ == "Down"@,
            self == Direction::Left ==> s@ == "Left"@,
            self == Direction::Right ==> s@ == "Right"@,
    {
        match self {
            Direction::Up => "Up",
            Direction::Down => "Down",
            Direction::Left => "Left",
            Direction::Right => "Right",
        }
    }
}

/// Turning around twice gives back the heading one started with, and the
/// opposite heading steps exactly the other way.
pub proof fn lemma_opposite_involution(d: Direction)
    ensures
        spec_opposite(spec_opposite(d)) == d,
        spec_opposite(d) != d,
        spec_vector(spec_opposite(d)).x == -spec_vector(d).x,
        spec_vector(spec_opposite(d)).y == -spec_vector(d).y,
{
}

/// The position of an on-board cell when the board is read row by row.
pub open spec fn cell_index(c: Cell) -> int {
    c.y * GRID_SIZE + c.x
}

/// Cells that are pairwise distinct and all on the board number at most
/// `GRID_SIZE * GRID_SIZE`.
pub proof fn lemma_board_capacity(cells: Seq<Cell>)
    requires
        cells.no_duplicates(),
        forall|i: int| 0 <= i < cells.len() ==> in_bounds(#[trigger] cells[i]),
    ensures
        cells.len() <= GRID_SIZE * GRID_SIZE,
{
    let m = cells.map_values(|c: Cell| cell_index(c));
    assert(m.no_duplicates()) by {
        assert forall|i: int, j: int| 0 <= i < m.len() && 0 <= j < m.len() && i != j implies m[i]
            != m[j] by {
            let a = cells[i];
            let b = cells[j];
            assert(in_bounds(a) && in_bounds(b));
            assert(a != b);
            if a.y == b.y {
                assert(a.x != b.x);
            } else if a.y < b.y {
                assert(a.y * GRID_SIZE + GRID_SIZE <= b.y * GRID_SIZE) by (nonlinear_arith)
                    requires
                        a.y < b.y,
                ;
            } else {
                assert(b.y * GRID_SIZE + GRID_SIZE <= a.y * GRID_SIZE) by (nonlinear_arith)
                    requires
                        b.y < a.y,
                ;
            }
        }
    }
    let range = vstd::set_lib::set_int_range(0, GRID_SIZE * GRID_SIZE);
    assert(m.to_set().subset_of(range)) by {
        assert forall|v: int| m.to_set().contains(v) implies range.contains(v) by {
            assert(m.contains(v));
            let i = choose|i: int| 0 <= i < m.len() && m[i] == v;
            let c = cells[i];
            assert(in_bounds(c));
            assert(0 <= c.y * GRID_SIZE <= 23 * GRID_SIZE) by (nonlinear_arith)
                requires
                    0 <= c.y <= 23,
            ;
        }
    }
    vstd::set_lib::lemma_int_range(0, GRID_SIZE * GRID_SIZE);
    vstd::set_lib::lemma_len_subset(m.to_set(), range);
    m.unique_seq_to_set();
}

} // verus!
