//! The state of a game, its invariant, and where bombs and food may go.

use vstd::prelude::*;

use crate::grid::{in_bounds, lemma_board_capacity, Cell, Direction, GRID_SIZE};
use crate::kinds::{ChallengeKind, GameMode, HazardPattern, Phase, SpawnedPowerUp};
use crate::pace::{BASE_STEP_DELAY, MIN_STEP_DELAY};
use crate::random::gen_range_i32;
use crate::scores::HighScoreEntry;

verus! {

/// The whole state of a game.
pub struct Game {
    pub snake: Vec<Cell>,
    pub direction: Direction,
    pub queued_direction: Option<Direction>,
    pub food: Cell,
    pub bombs: Vec<Cell>,
    pub hazard_pattern: HazardPattern,
    pub hazard_layout: Vec<Cell>,
    pub mode: GameMode,
    pub challenge: ChallengeKind,
    pub power_up: Option<SpawnedPowerUp>,
    pub phase: Phase,
    pub score: u32,
    pub best_score: u32,
    pub rounds_played: u32,
    pub foods_eaten: u32,
    /// Time spent playing this round.
    pub survival_time: u64,
    pub shield_active: bool,
    /// Time left on the double-score power-up.
    pub multiplier_timer: u64,
    /// Time left on the slow-down power-up.
    pub slow_timer: u64,
    pub high_scores: Vec<HighScoreEntry>,
    pub score_recorded: bool,
    /// Time gathered towards the next step.
    pub step_timer: u64,
    /// The step delay the score calls for, before theme and slow-down.
    pub step_delay: u64,
    /// Time left on the flash after eating.
    pub food_flash: u64,
    /// Time left on the flash after a crash.
    pub death_flash: u64,
}

/// The snake a round starts with: five cells from the centre of the board
/// leftwards, head first.
pub open spec fn start_snake() -> Seq<Cell> {
    seq![
        Cell { x: 12, y: 12 },
        Cell { x: 11, y: 12 },
        Cell { x: 10, y: 12 },
        Cell { x: 9, y: 12 },
        Cell { x: 8, y: 12 },
    ]
}

/// Whether a pick-up lies on `c`.
pub open spec fn pick_up_on(power_up: Option<SpawnedPowerUp>, c: Cell) -> bool {
    power_up matches Some(p) && p.position == c
}

/// A bomb may go on `c` next to the bombs `existing`: off the snake, the
/// food, those bombs and the pick-up.
pub open spec fn bomb_cell_ok(
    snake: Seq<Cell>,
    food: Cell,
    power_up: Option<SpawnedPowerUp>,
    c: Cell,
    existing: Seq<Cell>,
) -> bool {
    &&& !snake.contains(c)
    &&& c != food
    &&& !existing.contains(c)
    &&& !pick_up_on(power_up, c)
}

/// The slots of `slots` that the bombs take first, in order: each slot that
/// is valid next to the bombs already taken, until `count` are taken.
pub open spec fn layout_picks(
    snake: Seq<Cell>,
    food: Cell,
    power_up: Option<SpawnedPowerUp>,
    slots: Seq<Cell>,
    taken: Seq<Cell>,
    count: nat,
) -> Seq<Cell>
    decreases slots.len(),
{
    if slots.len() == 0 || taken.len() >= count {
        taken
    } else if bomb_cell_ok(snake, food, power_up, slots[0], taken) {
        layout_picks(snake, food, power_up, slots.drop_first(), taken.push(slots[0]), count)
    } else {
        layout_picks(snake, food, power_up, slots.drop_first(), taken, count)
    }
}

impl Game {
    /// The invariant every operation keeps: the snake is on the board, has
    /// a head and never overlaps itself; the score is at most 20 points per
    /// cell of snake and at least 10 per food eaten; the step delay lies
    /// between its bounds; the fixed bomb slots are on the board; the best
    /// score is never below the score.
    pub open spec fn wf(&self) -> bool {
        &&& self.snake@.len() >= 1
        &&& forall|i: int| 0 <= i < self.snake@.len() ==> in_bounds(#[trigger] self.snake@[i])
        &&& self.snake@.no_duplicates()
        &&& self.score <= 20 * self.snake@.len()
        &&& 10 * self.foods_eaten <= self.score
        &&& MIN_STEP_DELAY <= self.step_delay <= BASE_STEP_DELAY
        &&& forall|i: int| 0 <= i < self.hazard_layout@.len() ==> in_bounds(#[trigger] self.hazard_layout@[i])
        &&& self.score <= self.best_score
    }

    /// A pick-up lies on `c`.
    pub open spec fn power_up_at(&self, c: Cell) -> bool {
        pick_up_on(self.power_up, c)
    }

    /// Food may appear on `c`: on the board, off the snake, the bombs and
    /// the pick-up.
    pub open spec fn is_free_for_food(&self, c: Cell) -> bool {
        &&& in_bounds(c)
        &&& !self.snake@.contains(c)
        &&& !self.bombs@.contains(c)
        &&& !self.power_up_at(c)
    }

    /// A bomb may go on `c` next to the bombs `existing`: off the snake,
    /// the food, those bombs and the pick-up.
    pub open spec fn is_valid_bomb_cell(&self, c: Cell, existing: Seq<Cell>) -> bool {
        bomb_cell_ok(self.snake@, self.food, self.power_up, c, existing)
    }

    /// Every bomb of `bombs` is valid next to the ones before it.
    pub open spec fn bombs_placed_well(&self, bombs: Seq<Cell>) -> bool {
        forall|i: int| 0 <= i < bombs.len() ==> self.is_valid_bomb_cell(#[trigger] bombs[i], bombs.take(i))
    }
}

/// Whether `c` is one of the cells of `v`.
pub fn cells_contain(v: &Vec<Cell>, c: Cell) -> (b: bool)
    ensures
        b == v@.contains(c),
{
    assert(v@.take(v@.len() as int) =~= v@);
    cells_prefix_contain(v, v.len(), c)
}

/// Whether `c` is one of the first `k` cells of `v`.
pub fn cells_prefix_contain(v: &Vec<Cell>, k: usize, c: Cell) -> (b: bool)
    requires
        k <= v@.len(),
    ensures
        b == v@.take(k as int).contains(c),
{
    let mut i: usize = 0;
    while i < k
        invariant
            0 <= i <= k <= v@.len(),
            forall|j: int| 0 <= j < i ==> v@[j] != c,
        decreases k - i,
    {
        if v[i] == c {
            assert(v@.take(k as int)[i as int] == c);
            return true;
        }
        i = i + 1;
    }
    assert forall|j: int| 0 <= j < v@.take(k as int).len() implies v@.take(k as int)[j] != c by {
        assert(v@.take(k as int)[j] == v@[j]);
    }
    false
}

impl Game {
    pub(crate) fn power_up_on(&self, c: Cell) -> (b: bool)
        ensures
            b == self.power_up_at(c),
    {
        match self.power_up {
            Some(p) => p.position == c,
            None => false,
        }
    }

    /// Whether a bomb may go on `candidate` next to the bombs `existing`.
    pub fn is_valid_bomb_cell_exec(&self, candidate: Cell, existing: &Vec<Cell>) -> (b: bool)
        ensures
            b == self.is_valid_bomb_cell(candidate, existing@),
    {
        !cells_contain(&self.snake, candidate) && candidate != self.food && !cells_contain(
            existing,
            candidate,
        ) && !self.power_up_on(candidate)
    }

    /// A cell of the board drawn at random; which one depends on the
    /// generator's state.
    pub(crate) fn random_cell() -> (c: Cell)
        ensures
            in_bounds(c),
    {
        let x = gen_range_i32(0, GRID_SIZE);
        let y = gen_range_i32(0, GRID_SIZE);
        Cell { x, y }
    }

    /// `n` cells of the board drawn at random, one after the other.
    pub(crate) fn random_cells(n: usize) -> (v: Vec<Cell>)
        ensures
            v@.len() == n,
            forall|i: int| 0 <= i < v@.len() ==> in_bounds(#[trigger] v@[i]),
    {
        let mut v: Vec<Cell> = Vec::new();
        while v.len() < n
            invariant
                v@.len() <= n,
                forall|i: int| 0 <= i < v@.len() ==> in_bounds(#[trigger] v@[i]),
            decreases n - v@.len(),
        {
            v.push(Self::random_cell());
        }
        v
    }

    /// The first of the drawn `cells` where a bomb may go next to the bombs
    /// `existing`, if any.
    pub fn first_valid_bomb_cell(&self, existing: &Vec<Cell>, cells: &Vec<Cell>) -> (r: Option<Cell>)
        ensures
            r == spec_first_valid_bomb(*self, existing@, cells@),
    {
        let mut i: usize = 0;
        assert(cells@.skip(0) =~= cells@);
        while i < cells.len()
            invariant
                0 <= i <= cells@.len(),
                spec_first_valid_bomb(*self, existing@, cells@) == spec_first_valid_bomb(
                    *self,
                    existing@,
                    cells@.skip(i as int),
                ),
            decreases cells@.len() - i,
        {
            let c = cells[i];
            assert(cells@.skip(i as int)[0] == c);
            assert(cells@.skip(i as int).drop_first() =~= cells@.skip(i + 1));
            if self.is_valid_bomb_cell_exec(c, existing) {
                return Some(c);
            }
            i = i + 1;
        }
        assert(cells@.skip(i as int) =~= Seq::<Cell>::empty());
        None
    }

    /// Draws 256 random cells and gives the first where a new bomb may go
    /// next to `existing` (see [`Game::first_valid_bomb_cell`]). The cells
    /// are drawn at random, so it may give up even when a valid cell exists.
    fn spawn_random_bomb(&self, existing: &Vec<Cell>) -> (r: Option<Cell>)
        ensures
            exists|cells: Seq<Cell>|
                cells.len() == 256 && (forall|i: int| 0 <= i < cells.len() ==> in_bounds(#[trigger] cells[i]))
                    && r == #[trigger] spec_first_valid_bomb(*self, existing@, cells),
            r matches Some(c) ==> in_bounds(c) && self.is_valid_bomb_cell(c, existing@),
    {
        let cells = Self::random_cells(256);
        let r = self.first_valid_bomb_cell(existing, &cells);
        proof {
            lemma_first_valid_bomb(*self, existing@, cells@);
        }
        r
    }

    /// The bombs for `count`: first the fixed slots of the round that are
    /// free, in order, then random free cells until there are `count` (or a
    /// random search gives up).
    pub fn compose_bombs(&self, count: usize) -> (bombs: Vec<Cell>)
        requires
            self.wf(),
        ensures
            ({
                let picks = layout_picks(self.snake@, self.food, self.power_up, self.hazard_layout@, Seq::empty(), count as nat);
                &&& picks.len() <= bombs@.len() <= count
                &&& bombs@.take(picks.len() as int) == picks
            }),
            self.bombs_placed_well(bombs@),
            forall|i: int| 0 <= i < bombs@.len() ==> in_bounds(#[trigger] bombs@[i]),
            bombs@.len() < count ==> exists|cells: Seq<Cell>|
                cells.len() == 256 && (forall|i: int| 0 <= i < cells.len() ==> in_bounds(#[trigger] cells[i]))
                    && #[trigger] spec_first_valid_bomb(*self, bombs@, cells) is None,
    {
        let ghost g = *self;
        let ghost sn = self.snake@;
        let ghost layout = self.hazard_layout@;
        let mut bombs: Vec<Cell> = Vec::new();
        let mut i: usize = 0;
        assert(layout.skip(0) =~= layout);
        while i < self.hazard_layout.len()
            invariant
                g == *self,
                sn == self.snake@,
                layout == self.hazard_layout@,
                self.wf(),
                0 <= i <= layout.len(),
                bombs@.len() <= count,
                layout_picks(sn, g.food, g.power_up, layout, Seq::empty(), count as nat) == layout_picks(
                    sn,
                    g.food,
                    g.power_up,
                    layout.skip(i as int),
                    bombs@,
                    count as nat,
                ),
                self.bombs_placed_well(bombs@),
                forall|k: int| 0 <= k < bombs@.len() ==> in_bounds(#[trigger] bombs@[k]),
            ensures
                bombs@.len() == count || i == layout.len(),
            decreases layout.len() - i,
        {
            if bombs.len() == count {
                break;
            }
            let slot = self.hazard_layout[i];
            let ghost before = bombs@;
            assert(layout.skip(i as int).drop_first() =~= layout.skip(i + 1));
            assert(layout.skip(i as int)[0] == slot);
            if self.is_valid_bomb_cell_exec(slot, &bombs) {
                bombs.push(slot);
                assert(bombs@.take(before.len() as int) =~= before);
                assert forall|k: int| 0 <= k < bombs@.len() implies self.is_valid_bomb_cell(
                    #[trigger] bombs@[k],
                    bombs@.take(k),
                ) by {
                    if k < before.len() {
                        assert(bombs@.take(k) =~= before.take(k));
                    }
                }
            }
            i = i + 1;
        }
        let ghost picks = layout_picks(sn, g.food, g.power_up, layout, Seq::empty(), count as nat);
        proof {
            if bombs@.len() == count {
                assert(layout_picks(sn, g.food, g.power_up, layout.skip(i as int), bombs@, count as nat) == bombs@);
            } else {
                assert(layout.skip(i as int) =~= Seq::<Cell>::empty());
                assert(layout_picks(sn, g.food, g.power_up, layout.skip(i as int), bombs@, count as nat) == bombs@);
            }
        }
        assert(bombs@.take(picks.len() as int) =~= picks);
        while bombs.len() < count
            invariant
                g == *self,
                self.wf(),
                picks.len() <= bombs@.len() <= count,
                bombs@.take(picks.len() as int) == picks,
                self.bombs_placed_well(bombs@),
                forall|k: int| 0 <= k < bombs@.len() ==> in_bounds(#[trigger] bombs@[k]),
            ensures
                picks.len() <= bombs@.len() <= count,
                bombs@.take(picks.len() as int) == picks,
                self.bombs_placed_well(bombs@),
                forall|k: int| 0 <= k < bombs@.len() ==> in_bounds(#[trigger] bombs@[k]),
                bombs@.len() < count ==> exists|cells: Seq<Cell>|
                    cells.len() == 256 && (forall|i: int| 0 <= i < cells.len() ==> in_bounds(#[trigger] cells[i]))
                        && #[trigger] spec_first_valid_bomb(*self, bombs@, cells) is None,
            decreases count - bombs@.len(),
        {
            match self.spawn_random_bomb(&bombs) {
                Some(candidate) => {
                    let ghost before = bombs@;
                    bombs.push(candidate);
                    assert(bombs@.take(before.len() as int) =~= before);
                    assert(bombs@.take(picks.len() as int) =~= before.take(picks.len() as int));
                    assert forall|k: int| 0 <= k < bombs@.len() implies self.is_valid_bomb_cell(
                        #[trigger] bombs@[k],
                        bombs@.take(k),
                    ) by {
                        if k < before.len() {
                            assert(bombs@.take(k) =~= before.take(k));
                        }
                    }
                },
                None => {
                    break;
                },
            }
        }
        bombs
    }
}

/// The first of `cells` where a bomb may go next to the bombs `existing`.
pub open spec fn spec_first_valid_bomb(g: Game, existing: Seq<Cell>, cells: Seq<Cell>) -> Option<Cell>
    decreases cells.len(),
{
    if cells.len() == 0 {
        None
    } else if g.is_valid_bomb_cell(cells[0], existing) {
        Some(cells[0])
    } else {
        spec_first_valid_bomb(g, existing, cells.drop_first())
    }
}

/// The cell the search gives is one of `cells` and valid for a bomb.
pub proof fn lemma_first_valid_bomb(g: Game, existing: Seq<Cell>, cells: Seq<Cell>)
    ensures
        spec_first_valid_bomb(g, existing, cells) matches Some(c) ==> cells.contains(c) && g.is_valid_bomb_cell(c, existing),
    decreases cells.len(),
{
    if cells.len() > 0 && !g.is_valid_bomb_cell(cells[0], existing) {
        lemma_first_valid_bomb(g, existing, cells.drop_first());
        if let Some(c) = spec_first_valid_bomb(g, existing, cells) {
            let k = choose|k: int| 0 <= k < cells.drop_first().len() && cells.drop_first()[k] == c;
            assert(cells[k + 1] == c);
        }
    } else if cells.len() > 0 {
        assert(cells[0] == cells[0]);
    }
}

/// The search depends only on the snake, the food and the pick-up.
pub proof fn lemma_first_valid_bomb_same(a: Game, b: Game, existing: Seq<Cell>, cells: Seq<Cell>)
    requires
        a.snake@ == b.snake@,
        a.food == b.food,
        a.power_up == b.power_up,
    ensures
        spec_first_valid_bomb(a, existing, cells) == spec_first_valid_bomb(b, existing, cells),
    decreases cells.len(),
{
    if cells.len() > 0 {
        lemma_first_valid_bomb_same(a, b, existing, cells.drop_first());
    }
}

/// Everything but the high-score table, the best score and the
/// recorded flag is the same in `a` and `b`.
pub open spec fn same_board_and_run(a: Game, b: Game) -> bool {
    &&& a.snake == b.snake
    &&& a.direction == b.direction
    &&& a.queued_direction == b.queued_direction
    &&& a.food == b.food
    &&& a.bombs == b.bombs
    &&& a.hazard_pattern == b.hazard_pattern
    &&& a.hazard_layout == b.hazard_layout
    &&& a.mode == b.mode
    &&& a.challenge == b.challenge
    &&& a.power_up == b.power_up
    &&& a.phase == b.phase
    &&& a.score == b.score
    &&& a.rounds_played == b.rounds_played
    &&& a.foods_eaten == b.foods_eaten
    &&& a.survival_time == b.survival_time
    &&& a.shield_active == b.shield_active
    &&& a.multiplier_timer == b.multiplier_timer
    &&& a.slow_timer == b.slow_timer
    &&& a.step_timer == b.step_timer
    &&& a.step_delay == b.step_delay
    &&& a.food_flash == b.food_flash
    &&& a.death_flash == b.death_flash
}

/// Everything but the heading and the queued turn is the same in `a`
/// and `b`.
pub open spec fn same_except_heading(a: Game, b: Game) -> bool {
    &&& a.snake == b.snake
    &&& a.food == b.food
    &&& a.bombs == b.bombs
    &&& a.hazard_pattern == b.hazard_pattern
    &&& a.hazard_layout == b.hazard_layout
    &&& a.mode == b.mode
    &&& a.challenge == b.challenge
    &&& a.power_up == b.power_up
    &&& a.phase == b.phase
    &&& a.score == b.score
    &&& a.best_score == b.best_score
    &&& a.rounds_played == b.rounds_played
    &&& a.foods_eaten == b.foods_eaten
    &&& a.survival_time == b.survival_time
    &&& a.shield_active == b.shield_active
    &&& a.multiplier_timer == b.multiplier_timer
    &&& a.slow_timer == b.slow_timer
    &&& a.high_scores == b.high_scores
    &&& a.score_recorded == b.score_recorded
    &&& a.step_timer == b.step_timer
    &&& a.step_delay == b.step_delay
    &&& a.food_flash == b.food_flash
    &&& a.death_flash == b.death_flash
}

/// Everything but the shield and the effect timers is the same in `a`
/// and `b`.
pub open spec fn same_except_effects(a: Game, b: Game) -> bool {
    &&& a.snake == b.snake
    &&& a.direction == b.direction
    &&& a.queued_direction == b.queued_direction
    &&& a.food == b.food
    &&& a.bombs == b.bombs
    &&& a.hazard_pattern == b.hazard_pattern
    &&& a.hazard_layout == b.hazard_layout
    &&& a.mode == b.mode
    &&& a.challenge == b.challenge
    &&& a.power_up == b.power_up
    &&& a.phase == b.phase
    &&& a.score == b.score
    &&& a.best_score == b.best_score
    &&& a.rounds_played == b.rounds_played
    &&& a.foods_eaten == b.foods_eaten
    &&& a.survival_time == b.survival_time
    &&& a.high_scores == b.high_scores
    &&& a.score_recorded == b.score_recorded
    &&& a.step_timer == b.step_timer
    &&& a.step_delay == b.step_delay
    &&& a.food_flash == b.food_flash
    &&& a.death_flash == b.death_flash
}

/// Everything but the bombs is the same in `a` and `b`.
pub open spec fn same_except_bombs(a: Game, b: Game) -> bool {
    &&& a.snake == b.snake
    &&& a.direction == b.direction
    &&& a.queued_direction == b.queued_direction
    &&& a.food == b.food
    &&& a.hazard_pattern == b.hazard_pattern
    &&& a.hazard_layout == b.hazard_layout
    &&& a.mode == b.mode
    &&& a.challenge == b.challenge
    &&& a.power_up == b.power_up
    &&& a.phase == b.phase
    &&& a.score == b.score
    &&& a.best_score == b.best_score
    &&& a.rounds_played == b.rounds_played
    &&& a.foods_eaten == b.foods_eaten
    &&& a.survival_time == b.survival_time
    &&& a.shield_active == b.shield_active
    &&& a.multiplier_timer == b.multiplier_timer
    &&& a.slow_timer == b.slow_timer
    &&& a.high_scores == b.high_scores
    &&& a.score_recorded == b.score_recorded
    &&& a.step_timer == b.step_timer
    &&& a.step_delay == b.step_delay
    &&& a.food_flash == b.food_flash
    &&& a.death_flash == b.death_flash
}

/// Everything but the pick-up is the same in `a` and `b`.
pub open spec fn same_except_power_up(a: Game, b: Game) -> bool {
    &&& a.snake == b.snake
    &&& a.direction == b.direction
    &&& a.queued_direction == b.queued_direction
    &&& a.food == b.food
    &&& a.bombs == b.bombs
    &&& a.hazard_pattern == b.hazard_pattern
    &&& a.hazard_layout == b.hazard_layout
    &&& a.mode == b.mode
    &&& a.challenge == b.challenge
    &&& a.phase == b.phase
    &&& a.score == b.score
    &&& a.best_score == b.best_score
    &&& a.rounds_played == b.rounds_played
    &&& a.foods_eaten == b.foods_eaten
    &&& a.survival_time == b.survival_time
    &&& a.shield_active == b.shield_active
    &&& a.multiplier_timer == b.multiplier_timer
    &&& a.slow_timer == b.slow_timer
    &&& a.high_scores == b.high_scores
    &&& a.score_recorded == b.score_recorded
    &&& a.step_timer == b.step_timer
    &&& a.step_delay == b.step_delay
    &&& a.food_flash == b.food_flash
    &&& a.death_flash == b.death_flash
}

/// A well-formed snake never holds more cells than the board.
pub proof fn lemma_snake_fits_board(g: Game)
    requires
        g.wf(),
    ensures
        g.snake@.len() <= GRID_SIZE * GRID_SIZE,
        g.score <= 20 * GRID_SIZE * GRID_SIZE,
        g.foods_eaten <= 2 * GRID_SIZE * GRID_SIZE,
{
    lemma_board_capacity(g.snake@);
}

} // verus!
