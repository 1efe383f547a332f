//! One step of the snake: turning, moving, crashing, eating and picking
//! up.

use vstd::prelude::*;

use crate::grid::{in_bounds, lemma_board_capacity, spec_opposite, spec_vector, Cell, Direction};
use crate::kinds::{AudioCue, Phase, PowerUpKind, SpawnedPowerUp};
use crate::pace::{spec_speed_for_score, spec_target_bomb_count, speed_for_score, target_bomb_count, BASE_STEP_DELAY, MIN_STEP_DELAY};
use crate::game::state::{lemma_first_valid_bomb_same, spec_first_valid_bomb, bomb_cell_ok, cells_contain, cells_prefix_contain, layout_picks, pick_up_on, same_except_bombs, same_except_heading, same_except_power_up, Game};
use crate::game::round::{lemma_first_free_power_up_same, records_run, spec_first_free_power_up, spec_place_power_up, DOUBLE_DURATION, POWER_UP_TTL, SLOW_DURATION};

verus! {

/// A burst of particles the frame loop should draw.
#[derive(Clone, Copy, Debug, PartialEq, Eq, Structural)]
pub enum Burst {
    /// Food was eaten on this cell.
    Food(Cell),
    /// The snake crashed into this cell; `true` when it hit a bomb.
    Crash(Cell, bool),
}

/// What one step of the snake produced.
pub struct StepOutcome {
    pub cue: Option<AudioCue>,
    pub bursts: Vec<Burst>,
    /// The high-score table changed and should be saved.
    pub table_changed: bool,
}

/// The flash after running into a wall or into itself: 0.6 s.
pub const CRASH_FLASH: u64 = 600_000;

/// The flash after hitting a bomb without a shield: 0.8 s.
pub const BOMB_FLASH: u64 = 800_000;

/// The flash after eating: 0.3 s.
pub const FOOD_FLASH: u64 = 300_000;

/// The heading for the next step: the queued turn, unless it reverses the
/// current heading.
pub open spec fn turned_direction(g: Game) -> Direction {
    match g.queued_direction {
        Some(d) => if d != spec_opposite(g.direction) {
            d
        } else {
            g.direction
        },
        None => g.direction,
    }
}

/// The cell one step from `c` towards `d`.
pub open spec fn step_cell(c: Cell, d: Direction) -> Cell {
    Cell { x: (c.x + spec_vector(d).x) as i32, y: (c.y + spec_vector(d).y) as i32 }
}

/// The cell the head moves onto.
pub open spec fn next_head(g: Game) -> Cell {
    step_cell(g.snake@[0], turned_direction(g))
}

/// The head moves onto the food.
pub open spec fn eats(g: Game) -> bool {
    next_head(g) == g.food
}

/// The head leaves the board or runs into the body. The last cell is left
/// out of the body unless the snake grows, since it moves away.
pub open spec fn crashes(g: Game) -> bool {
    let body = if eats(g) { g.snake@.len() as int } else { g.snake@.len() - 1 };
    !in_bounds(next_head(g)) || g.snake@.take(body).contains(next_head(g))
}

/// The head moves onto a bomb.
pub open spec fn hits_bomb(g: Game) -> bool {
    g.bombs@.contains(next_head(g))
}

/// The snake after the step (when it survives): the new head in front,
/// and the last cell dropped unless it grows.
pub open spec fn moved_snake(g: Game) -> Seq<Cell> {
    if eats(g) {
        seq![next_head(g)] + g.snake@
    } else {
        seq![next_head(g)] + g.snake@.drop_last()
    }
}

/// The kind of pick-up the head moves onto, if any.
pub open spec fn picked_kind(g: Game) -> Option<PowerUpKind> {
    match g.power_up {
        Some(p) => if p.position == next_head(g) {
            Some(p.kind)
        } else {
            None
        },
        None => None,
    }
}

/// `cells` without any `c`.
pub open spec fn without_cell(cells: Seq<Cell>, c: Cell) -> Seq<Cell>
    decreases cells.len(),
{
    if cells.len() == 0 {
        Seq::empty()
    } else if cells.last() == c {
        without_cell(cells.drop_last(), c)
    } else {
        without_cell(cells.drop_last(), c).push(cells.last())
    }
}

/// The bombs after the step's bomb check: a bomb hit under a shield is
/// removed.
pub open spec fn bombs_after_hit(g: Game) -> Seq<Cell> {
    if hits_bomb(g) {
        without_cell(g.bombs@, next_head(g))
    } else {
        g.bombs@
    }
}

/// The points for a food: 20 while double score runs, else 10.
pub open spec fn food_points(g: Game) -> u32 {
    if g.multiplier_timer > 0 {
        20
    } else {
        10
    }
}

/// The step ends the round: `n` keeps the board of `g` and records the run.
pub open spec fn ends_round(g: Game, n: Game, changed: bool, flash: u64) -> bool {
    &&& n.phase == Phase::GameOver
    &&& n.death_flash == flash
    &&& n.snake == g.snake
    &&& n.bombs == g.bombs
    &&& n.food == g.food
    &&& n.power_up == g.power_up
    &&& n.score == g.score
    &&& n.foods_eaten == g.foods_eaten
    &&& n.shield_active == g.shield_active
    &&& n.multiplier_timer == g.multiplier_timer
    &&& n.slow_timer == g.slow_timer
    &&& n.step_delay == g.step_delay
    &&& n.food_flash == g.food_flash
    &&& records_run(g, n, changed)
}

/// What stays fixed in every step.
pub open spec fn step_keeps(g: Game, n: Game) -> bool {
    &&& n.wf()
    &&& n.queued_direction is None
    &&& n.direction == turned_direction(g)
    &&& n.rounds_played == g.rounds_played
    &&& n.mode == g.mode
    &&& n.challenge == g.challenge
    &&& n.hazard_pattern == g.hazard_pattern
    &&& n.hazard_layout == g.hazard_layout
    &&& n.survival_time == g.survival_time
}

/// A step the snake survives: it moves, and its effects follow the
/// pick-up and bomb it met.
pub open spec fn survives(g: Game, n: Game, changed: bool) -> bool {
    &&& !changed
    &&& n.snake@ == moved_snake(g)
    &&& n.phase == g.phase
    &&& n.death_flash == g.death_flash
    &&& n.high_scores == g.high_scores
    &&& n.score_recorded == g.score_recorded
    &&& n.slow_timer == (if !eats(g) && picked_kind(g) == Some(PowerUpKind::Slow) {
        SLOW_DURATION
    } else {
        g.slow_timer
    })
    &&& n.multiplier_timer == (if !eats(g) && picked_kind(g) == Some(PowerUpKind::Double) {
        DOUBLE_DURATION
    } else {
        g.multiplier_timer
    })
    &&& n.shield_active == (if !eats(g) && picked_kind(g) == Some(PowerUpKind::Shield) {
        true
    } else if hits_bomb(g) {
        false
    } else {
        g.shield_active
    })
}

/// The bursts of a surviving step before any food: a bomb blown away by
/// the shield.
pub open spec fn hit_bursts(g: Game) -> Seq<Burst> {
    if hits_bomb(g) {
        seq![Burst::Crash(next_head(g), true)]
    } else {
        Seq::empty()
    }
}

/// A surviving step onto food: the snake grows and scores, speeds up, and
/// new food, bombs for the new score and maybe a pick-up appear.
pub open spec fn eat_step(g: Game, n: Game, cue: Option<AudioCue>, bursts: Seq<Burst>) -> bool {
    let score = (g.score + food_points(g)) as u32;
    let foods = (g.foods_eaten + 1) as u32;
    let picks = layout_picks(
        n.snake@,
        n.food,
        g.power_up,
        g.hazard_layout@,
        Seq::empty(),
        spec_target_bomb_count(score) as nat,
    );
    &&& cue == Some(AudioCue::Eat)
    &&& bursts == hit_bursts(g).push(Burst::Food(next_head(g)))
    &&& n.score == score
    &&& n.foods_eaten == foods
    &&& n.best_score == (if g.best_score < score { score } else { g.best_score })
    &&& n.step_delay == spec_speed_for_score(score)
    &&& n.food_flash == FOOD_FLASH
    // new food on a cell free of the grown snake, the remaining bombs and
    // the pick-up; it stays put only when no such cell exists
    &&& ({
        ||| (in_bounds(n.food) && !n.snake@.contains(n.food) && !bombs_after_hit(g).contains(n.food)
            && !pick_up_on(g.power_up, n.food))
        ||| (n.food == g.food && forall|c: Cell|
            in_bounds(c) && !n.snake@.contains(c) && !bombs_after_hit(g).contains(c) ==> pick_up_on(
                g.power_up,
                c,
            ))
    })
    // the bombs are laid again for the new score, the free slots first
    &&& picks.len() <= n.bombs@.len() <= spec_target_bomb_count(score)
    &&& n.bombs@.take(picks.len() as int) == picks
    // fewer bombs only when a random search of 256 cells found no place
    &&& (n.bombs@.len() < spec_target_bomb_count(score) ==> exists|cells: Seq<Cell>|
        cells.len() == 256 && (forall|i: int| 0 <= i < cells.len() ==> in_bounds(#[trigger] cells[i]))
            && #[trigger] spec_first_valid_bomb(Game { power_up: g.power_up, ..n }, n.bombs@, cells) is None)
    &&& (forall|i: int|
        0 <= i < n.bombs@.len() ==> #[trigger] bomb_cell_ok(
            n.snake@,
            n.food,
            g.power_up,
            n.bombs@[i],
            n.bombs@.take(i),
        ) && in_bounds(n.bombs@[i]))
    // a pick-up may appear after every third food when none lies out
    &&& pick_up_after_food(g.power_up, foods, n)
}

/// The pick-up after a food that made `foods` eaten, when `prev` lay out
/// before: after every third food with none out, either none or one placed
/// on a free cell of `n` by some cell and kind draw; otherwise `prev` stays.
pub open spec fn pick_up_after_food(prev: Option<SpawnedPowerUp>, foods: u32, n: Game) -> bool {
    if prev is None && foods % 3 == 0 {
        &&& exists|cells: Seq<Cell>, k: int|
            cells.len() == 128 && (forall|i: int| 0 <= i < cells.len() ==> in_bounds(#[trigger] cells[i]))
                && 0 <= k < 3 && n.power_up == #[trigger] spec_first_free_power_up(n, cells, k)
        &&& (n.power_up is None || exists|c: Cell, k: int|
            in_bounds(c) && 0 <= k < 3 && n.power_up == #[trigger] spec_place_power_up(n, c, k))
        &&& n.power_up matches Some(p) ==> {
            &&& in_bounds(p.position)
            &&& !n.snake@.contains(p.position)
            &&& !n.bombs@.contains(p.position)
            &&& p.position != n.food
            &&& p.ttl == POWER_UP_TTL
        }
    } else {
        n.power_up == prev
    }
}

/// A surviving step without food: the score stays, and a pick-up on the
/// new head is taken.
pub open spec fn move_step(g: Game, n: Game, cue: Option<AudioCue>, bursts: Seq<Burst>) -> bool {
    &&& n.score == g.score
    &&& n.foods_eaten == g.foods_eaten
    &&& n.best_score == g.best_score
    &&& n.step_delay == g.step_delay
    &&& n.food_flash == g.food_flash
    &&& n.food == g.food
    &&& n.bombs@ == bombs_after_hit(g)
    &&& bursts == hit_bursts(g)
    &&& if picked_kind(g) is Some {
        &&& cue == Some(AudioCue::PowerUp)
        &&& n.power_up is None
    } else {
        &&& cue is None
        &&& n.power_up == g.power_up
    }
}

/// One step of the snake from `g` to `n`, with its cue, bursts and whether
/// the table changed.
///
/// The snake turns to the queued heading (unless that reverses it) and
/// moves its head one cell. Leaving the board or running into its body ends
/// the round; so does a bomb, unless a shield is up, which the bomb then
/// uses up along with itself. Otherwise the snake moves; on food it grows,
/// scores 10 (20 under double score), speeds up, and new food, bombs for
/// the new score and maybe a pick-up appear; on a pick-up (without food) it
/// takes the pick-up's effect.
pub open spec fn step_relation(
    g: Game,
    n: Game,
    cue: Option<AudioCue>,
    bursts: Seq<Burst>,
    changed: bool,
) -> bool {
    &&& step_keeps(g, n)
    &&& if crashes(g) {
        &&& cue == Some(AudioCue::GameOver)
        &&& bursts == seq![Burst::Crash(next_head(g), false)]
        &&& ends_round(g, n, changed, CRASH_FLASH)
    } else if hits_bomb(g) && !g.shield_active {
        &&& cue == Some(AudioCue::Boom)
        &&& bursts == seq![Burst::Crash(next_head(g), true)]
        &&& ends_round(g, n, changed, BOMB_FLASH)
    } else {
        &&& survives(g, n, changed)
        &&& if eats(g) {
            eat_step(g, n, cue, bursts)
        } else {
            move_step(g, n, cue, bursts)
        }
    }
}

impl Game {
    /// Removes every bomb on `c`.
    fn remove_bomb(&mut self, c: Cell)
        ensures
            final(self).bombs@ == without_cell(old(self).bombs@, c),
            same_except_bombs(*old(self), *final(self)),
    {
        let mut kept: Vec<Cell> = Vec::new();
        let mut i: usize = 0;
        assert(self.bombs@.take(0) =~= Seq::<Cell>::empty());
        while i < self.bombs.len()
            invariant
                0 <= i <= self.bombs@.len(),
                self.bombs == old(self).bombs,
                kept@ == without_cell(self.bombs@.take(i as int), c),
            decreases self.bombs@.len() - i,
        {
            let b = self.bombs[i];
            assert(self.bombs@.take(i + 1).drop_last() =~= self.bombs@.take(i as int));
            if b != c {
                kept.push(b);
            }
            i = i + 1;
        }
        assert(self.bombs@.take(i as int) =~= self.bombs@);
        self.bombs = kept;
    }

    /// Lays the bombs the current score calls for.
    pub fn sync_bombs(&mut self)
        requires
            old(self).wf(),
        ensures
            ({
                let count = spec_target_bomb_count(old(self).score) as nat;
                let picks = layout_picks(old(self).snake@, old(self).food, old(self).power_up, old(self).hazard_layout@, Seq::empty(), count);
                &&& picks.len() <= final(self).bombs@.len() <= count
                &&& final(self).bombs@.take(picks.len() as int) == picks
            }),
            old(self).bombs_placed_well(final(self).bombs@),
            forall|i: int| 0 <= i < final(self).bombs@.len() ==> in_bounds(#[trigger] final(self).bombs@[i]),
            final(self).bombs@.len() < spec_target_bomb_count(old(self).score) ==> exists|cells: Seq<Cell>|
                cells.len() == 256 && (forall|i: int| 0 <= i < cells.len() ==> in_bounds(#[trigger] cells[i]))
                    && #[trigger] spec_first_valid_bomb(*old(self), final(self).bombs@, cells) is None,
            same_except_bombs(*old(self), *final(self)),
    {
        let target = target_bomb_count(self.score);
        let bombs = self.compose_bombs(target);
        self.bombs = bombs;
    }

    /// After every third food a pick-up may appear, when none lies out;
    /// whether it does depends on the random search of
    /// [`Game::spawn_power_up`].
    pub fn maybe_spawn_power_up(&mut self)
        ensures
            if old(self).power_up is None && old(self).foods_eaten > 0 && old(self).foods_eaten % 3 == 0 {
                &&& exists|cells: Seq<Cell>, k: int|
                    cells.len() == 128 && (forall|i: int| 0 <= i < cells.len() ==> in_bounds(#[trigger] cells[i]))
                        && 0 <= k < 3 && final(self).power_up == #[trigger] spec_first_free_power_up(*old(self), cells, k)
                &&& (final(self).power_up is None || exists|c: Cell, k: int|
                    in_bounds(c) && 0 <= k < 3 && final(self).power_up == #[trigger] spec_place_power_up(*old(self), c, k))
                &&& final(self).power_up matches Some(p) ==> {
                    &&& in_bounds(p.position)
                    &&& !old(self).snake@.contains(p.position)
                    &&& !old(self).bombs@.contains(p.position)
                    &&& p.position != old(self).food
                    &&& p.ttl == POWER_UP_TTL
                }
            } else {
                final(self).power_up == old(self).power_up
            },
            same_except_power_up(*old(self), *final(self)),
    {
        if self.power_up.is_none() && self.foods_eaten > 0 && self.foods_eaten % 3 == 0 {
            self.power_up = self.spawn_power_up();
        }
    }

    /// Turns to the queued heading, unless it reverses the current one,
    /// and clears the queue.
    fn take_turn(&mut self)
        ensures
            final(self).direction == turned_direction(*old(self)),
            final(self).queued_direction is None,
            final(self).snake == old(self).snake,
            final(self).bombs == old(self).bombs,
            final(self).food == old(self).food,
            final(self).power_up == old(self).power_up,
            same_except_heading(*old(self), *final(self)),
    {
        match self.queued_direction {
            Some(next_direction) => {
                self.queued_direction = None;
                if next_direction != self.direction.opposite() {
                    self.direction = next_direction;
                }
            },
            None => {},
        }
    }

    /// Ends the round after a crash: records the run, shows the game-over
    /// phase and starts the crash flash.
    fn end_round(&mut self, flash: u64) -> (changed: bool)
        requires
            old(self).wf(),
        ensures
            ends_round(*old(self), *final(self), changed, flash),
            final(self).wf(),
            final(self).queued_direction == old(self).queued_direction,
            final(self).direction == old(self).direction,
            final(self).rounds_played == old(self).rounds_played,
            final(self).mode == old(self).mode,
            final(self).challenge == old(self).challenge,
            final(self).hazard_pattern == old(self).hazard_pattern,
            final(self).hazard_layout == old(self).hazard_layout,
            final(self).survival_time == old(self).survival_time,
            final(self).step_timer == old(self).step_timer,
    {
        let changed = self.record_score();
        self.phase = Phase::GameOver;
        self.death_flash = flash;
        changed
    }

    /// Eats the food under the head that has just moved onto it.
    fn eat_food(&mut self)
        requires
            old(self).snake@.len() >= 2,
            old(self).snake@.no_duplicates(),
            forall|i: int| 0 <= i < old(self).snake@.len() ==> in_bounds(#[trigger] old(self).snake@[i]),
            old(self).score + 20 <= 20 * old(self).snake@.len(),
            10 * old(self).foods_eaten <= old(self).score,
            MIN_STEP_DELAY <= old(self).step_delay <= BASE_STEP_DELAY,
            forall|i: int| 0 <= i < old(self).hazard_layout@.len() ==> in_bounds(#[trigger] old(self).hazard_layout@[i]),
        ensures
            final(self).wf(),
            ({
                let g = *old(self);
                let n = *final(self);
                let score = (g.score + food_points(g)) as u32;
                let foods = (g.foods_eaten + 1) as u32;
                let picks = layout_picks(g.snake@, n.food, g.power_up, g.hazard_layout@, Seq::empty(), spec_target_bomb_count(score) as nat);
                &&& n.score == score
                &&& n.foods_eaten == foods
                &&& n.best_score == (if g.best_score < score { score } else { g.best_score })
                &&& n.step_delay == spec_speed_for_score(score)
                &&& n.food_flash == FOOD_FLASH
                &&& ({
                    ||| (in_bounds(n.food) && !g.snake@.contains(n.food) && !g.bombs@.contains(n.food) && !pick_up_on(g.power_up, n.food))
                    ||| (n.food == g.food && forall|c: Cell| in_bounds(c) && !g.snake@.contains(c) && !g.bombs@.contains(c) ==> pick_up_on(g.power_up, c))
                })
                &&& picks.len() <= n.bombs@.len() <= spec_target_bomb_count(score)
                &&& n.bombs@.take(picks.len() as int) == picks
                &&& (n.bombs@.len() < spec_target_bomb_count(score) ==> exists|cells: Seq<Cell>|
                    cells.len() == 256 && (forall|i: int| 0 <= i < cells.len() ==> in_bounds(#[trigger] cells[i]))
                        && #[trigger] spec_first_valid_bomb(Game { power_up: g.power_up, ..n }, n.bombs@, cells) is None)
                &&& (forall|i: int| 0 <= i < n.bombs@.len() ==> #[trigger] bomb_cell_ok(g.snake@, n.food, g.power_up, n.bombs@[i], n.bombs@.take(i)) && in_bounds(n.bombs@[i]))
                &&& pick_up_after_food(g.power_up, foods, n)
                &&& n.snake == g.snake
                &&& n.direction == g.direction
                &&& n.queued_direction == g.queued_direction
                &&& n.phase == g.phase
                &&& n.death_flash == g.death_flash
                &&& n.high_scores == g.high_scores
                &&& n.score_recorded == g.score_recorded
                &&& n.slow_timer == g.slow_timer
                &&& n.multiplier_timer == g.multiplier_timer
                &&& n.shield_active == g.shield_active
                &&& n.rounds_played == g.rounds_played
                &&& n.mode == g.mode
                &&& n.challenge == g.challenge
                &&& n.hazard_pattern == g.hazard_pattern
                &&& n.hazard_layout == g.hazard_layout
                &&& n.survival_time == g.survival_time
                &&& n.step_timer == g.step_timer
            }),
    {
        proof {
            lemma_board_capacity(self.snake@);
        }
        let gained: u32 = if self.multiplier_timer > 0 {
            20
        } else {
            10
        };
        self.foods_eaten = self.foods_eaten + 1;
        self.score = self.score + gained;
        if self.best_score < self.score {
            self.best_score = self.score;
        }
        self.step_delay = speed_for_score(self.score);
        self.food_flash = FOOD_FLASH;
        let ghost before_spawn = *self;
        match self.spawn_food() {
            Some(f) => {
                self.food = f;
            },
            None => {
                assert forall|c: Cell|
                    in_bounds(c) && !before_spawn.snake@.contains(c) && !before_spawn.bombs@.contains(
                        c,
                    ) implies pick_up_on(before_spawn.power_up, c) by {
                    assert(!before_spawn.is_free_for_food(c));
                }
            },
        }
        let ghost before_sync = *self;
        self.sync_bombs();
        let ghost before_pick_up = *self;
        self.maybe_spawn_power_up();
        proof {
            if before_pick_up.power_up is None && before_pick_up.foods_eaten % 3 == 0 {
                let (cells, k) = choose|cells: Seq<Cell>, k: int|
                    cells.len() == 128 && (forall|i: int| 0 <= i < cells.len() ==> in_bounds(#[trigger] cells[i]))
                        && 0 <= k < 3 && self.power_up == #[trigger] spec_first_free_power_up(before_pick_up, cells, k);
                lemma_first_free_power_up_same(before_pick_up, *self, cells, k);
            }
            if before_pick_up.power_up is None && before_pick_up.foods_eaten % 3 == 0 && self.power_up is Some {
                let (c, k) = choose|c: Cell, k: int|
                    in_bounds(c) && 0 <= k < 3 && self.power_up == #[trigger] spec_place_power_up(before_pick_up, c, k);
                assert(spec_place_power_up(before_pick_up, c, k) == spec_place_power_up(*self, c, k));
            }
            if self.bombs@.len() < spec_target_bomb_count(self.score) {
                let cells = choose|cells: Seq<Cell>|
                    cells.len() == 256 && (forall|i: int| 0 <= i < cells.len() ==> in_bounds(#[trigger] cells[i]))
                        && #[trigger] spec_first_valid_bomb(before_sync, before_pick_up.bombs@, cells) is None;
                lemma_first_valid_bomb_same(before_sync, Game { power_up: old(self).power_up, ..*self }, self.bombs@, cells);
            }
        }
    }

    /// Moves the snake one step; see [`step_relation`].
    pub fn advance(&mut self) -> (out: StepOutcome)
        requires
            old(self).wf(),
        ensures
            step_relation(*old(self), *final(self), out.cue, out.bursts@, out.table_changed),
            final(self).step_timer == old(self).step_timer,
    {
        let ghost g = *self;
        self.take_turn();
        let step = self.direction.vector();
        let head = self.snake[0];
        let new_head = Cell { x: head.x + step.x, y: head.y + step.y };
        assert(new_head == next_head(g));
        let will_grow = new_head == self.food;
        let hit_bomb = cells_contain(&self.bombs, new_head);
        let picked = match self.power_up {
            Some(p) => if p.position == new_head {
                Some(p.kind)
            } else {
                None
            },
            None => None,
        };
        assert(picked == picked_kind(g));
        let body_to_check = if will_grow {
            self.snake.len()
        } else {
            self.snake.len() - 1
        };
        let collides_with_self = cells_prefix_contain(&self.snake, body_to_check, new_head);
        let out_of_bounds = !new_head.is_on_board();
        assert((out_of_bounds || collides_with_self) == crashes(g));
        let mut bursts: Vec<Burst> = Vec::new();
        if out_of_bounds || collides_with_self {
            bursts.push(Burst::Crash(new_head, false));
            let changed = self.end_round(CRASH_FLASH);
            assert(bursts@ =~= seq![Burst::Crash(new_head, false)]);
            return StepOutcome { cue: Some(AudioCue::GameOver), bursts, table_changed: changed };
        }
        if hit_bomb {
            bursts.push(Burst::Crash(new_head, true));
            if self.shield_active {
                self.shield_active = false;
                self.remove_bomb(new_head);
            } else {
                let changed = self.end_round(BOMB_FLASH);
                assert(bursts@ =~= seq![Burst::Crash(new_head, true)]);
                return StepOutcome { cue: Some(AudioCue::Boom), bursts, table_changed: changed };
            }
        }
        assert(bursts@ =~= hit_bursts(g));
        assert(self.bombs@ == bombs_after_hit(g));
        proof {
            lemma_moved_snake_wf(g);
        }
        self.snake.insert(0, new_head);
        if will_grow {
            assert(self.snake@ =~= moved_snake(g));
            bursts.push(Burst::Food(new_head));
            self.eat_food();
            assert(eat_step(g, *self, Some(AudioCue::Eat), bursts@));
            return StepOutcome { cue: Some(AudioCue::Eat), bursts, table_changed: false };
        } else {
            self.snake.pop();
            assert(self.snake@ =~= moved_snake(g));
        }
        match picked {
            Some(kind) => {
                self.power_up = None;
                self.apply_power_up(kind);
                StepOutcome { cue: Some(AudioCue::PowerUp), bursts, table_changed: false }
            },
            None => StepOutcome { cue: None, bursts, table_changed: false },
        }
    }
}

/// The snake after a surviving step is still on the board and without
/// overlaps.
proof fn lemma_moved_snake_wf(g: Game)
    requires
        g.wf(),
        !crashes(g),
    ensures
        moved_snake(g).no_duplicates(),
        forall|i: int| 0 <= i < moved_snake(g).len() ==> in_bounds(#[trigger] moved_snake(g)[i]),
        moved_snake(g).len() >= 1,
{
    let h = next_head(g);
    let m = moved_snake(g);
    let body = if eats(g) { g.snake@ } else { g.snake@.drop_last() };
    assert(m =~= seq![h] + body);
    if !eats(g) {
        assert(g.snake@.drop_last() =~= g.snake@.take(g.snake@.len() - 1));
    } else {
        assert(g.snake@.take(g.snake@.len() as int) =~= g.snake@);
    }
    assert forall|i: int, j: int| 0 <= i < m.len() && 0 <= j < m.len() && i != j implies m[i] != m[j] by {
        if i == 0 {
            assert(body.contains(m[j]));
        } else if j == 0 {
            assert(body.contains(m[i]));
        } else {
            assert(m[i] == g.snake@[i - 1]);
            assert(m[j] == g.snake@[j - 1]);
        }
    }
    assert forall|i: int| 0 <= i < m.len() implies in_bounds(#[trigger] m[i]) by {
        if i > 0 {
            assert(m[i] == g.snake@[i - 1]);
        }
    }
}

/// A step never turns the snake straight back: the heading it steps with
/// is never the reverse of the heading it had.
pub proof fn lemma_never_reverses(g: Game)
    ensures
        turned_direction(g) != spec_opposite(g.direction),
{
}

/// Within a round the score never falls and the snake never shrinks: a
/// step keeps or raises both.
pub proof fn lemma_step_never_loses_ground(
    g: Game,
    n: Game,
    cue: Option<AudioCue>,
    bursts: Seq<Burst>,
    changed: bool,
)
    requires
        g.wf(),
        step_relation(g, n, cue, bursts, changed),
    ensures
        n.score >= g.score,
        n.snake@.len() >= g.snake@.len(),
        n.snake@.len() == g.snake@.len() + 1 <==> (!crashes(g) && !(hits_bomb(g) && !g.shield_active) && eats(g)),
{
    lemma_board_capacity(g.snake@);
}

/// A pick-up can appear only after every third food: a step that eats
/// keeps the pick-up as it was (none stays none) unless the food eaten makes
/// the count a multiple of three while none lies out. Any step also counts
/// at most one food.
pub proof fn lemma_pick_up_only_every_third_food(
    g: Game,
    n: Game,
    cue: Option<AudioCue>,
    bursts: Seq<Burst>,
    changed: bool,
)
    requires
        g.wf(),
        step_relation(g, n, cue, bursts, changed),
    ensures
        n.foods_eaten == g.foods_eaten || n.foods_eaten == g.foods_eaten + 1,
        n.foods_eaten == g.foods_eaten + 1 ==> eats(g),
        n.foods_eaten == g.foods_eaten + 1 && !(g.power_up is None && n.foods_eaten % 3 == 0)
            ==> n.power_up == g.power_up,
        n.foods_eaten == g.foods_eaten + 1 && n.foods_eaten % 3 != 0 ==> n.power_up == g.power_up,
{
    lemma_board_capacity(g.snake@);
}

/// Removing a cell leaves none of it, and only removes it.
proof fn lemma_without_cell(cells: Seq<Cell>, c: Cell)
    ensures
        !without_cell(cells, c).contains(c),
        forall|d: Cell| d != c && cells.contains(d) ==> without_cell(cells, c).contains(d),
    decreases cells.len(),
{
    if cells.len() > 0 {
        lemma_without_cell(cells.drop_last(), c);
        assert forall|d: Cell| d != c && cells.contains(d) implies without_cell(cells, c).contains(d) by {
            let i = choose|i: int| 0 <= i < cells.len() && cells[i] == d;
            let rest = without_cell(cells.drop_last(), c);
            if i < cells.len() - 1 {
                assert(cells.drop_last()[i] == d);
                assert(cells.drop_last().contains(d));
                assert(rest.contains(d));
                let j = choose|j: int| 0 <= j < rest.len() && rest[j] == d;
                if cells.last() != c {
                    assert(rest.push(cells.last())[j] == d);
                }
            } else {
                assert(cells.last() == d);
                assert(rest.push(cells.last())[rest.len() as int] == d);
            }
        }
        if cells.last() != c {
            assert forall|k: int| 0 <= k < without_cell(cells, c).len() implies without_cell(cells, c)[k] != c by {
                let rest = without_cell(cells.drop_last(), c);
                if k < rest.len() {
                    assert(rest.push(cells.last())[k] == rest[k]);
                    assert(!rest.contains(c));
                }
            }
        }
    }
}

/// What a step does, stated over the cells and counters themselves.
///
/// The snake takes the queued heading unless that reverses it, and its head
/// moves one cell that way. Leaving the board or running into its body
/// (the last cell aside unless it eats) ends the round with a game-over cue
/// and the snake and score as they were; so does a bomb without a shield,
/// with a boom. Otherwise the head goes on the new cell, no bomb is left
/// there, and either the snake grows by that cell and scores 10 (20 under
/// double score) and the step delay follows the new score, or it moves
/// along keeping its length and score.
pub proof fn lemma_step_outcomes(g: Game, n: Game, cue: Option<AudioCue>, bursts: Seq<Burst>, changed: bool)
    requires
        g.wf(),
        step_relation(g, n, cue, bursts, changed),
    ensures
        g.queued_direction is None ==> n.direction == g.direction,
        (g.queued_direction matches Some(q) && q != spec_opposite(g.direction)) ==> g.queued_direction == Some(n.direction),
        ({
            let h = g.snake@[0];
            let nh = next_head(g);
            let body = if nh == g.food { g.snake@ } else { g.snake@.drop_last() };
            let wall = !(0 <= nh.x < 24 && 0 <= nh.y < 24);
            let fatal = wall || body.contains(nh) || (g.bombs@.contains(nh) && !g.shield_active);
            &&& n.direction == Direction::Up ==> nh == Cell { x: h.x, y: (h.y - 1) as i32 }
            &&& n.direction == Direction::Down ==> nh == Cell { x: h.x, y: (h.y + 1) as i32 }
            &&& n.direction == Direction::Left ==> nh == Cell { x: (h.x - 1) as i32, y: h.y }
            &&& n.direction == Direction::Right ==> nh == Cell { x: (h.x + 1) as i32, y: h.y }
            &&& (wall || body.contains(nh)) ==> {
                &&& n.phase == Phase::GameOver
                &&& cue == Some(AudioCue::GameOver)
                &&& n.snake == g.snake
                &&& n.score == g.score
            }
            &&& (!wall && !body.contains(nh) && g.bombs@.contains(nh) && !g.shield_active) ==> {
                &&& n.phase == Phase::GameOver
                &&& cue == Some(AudioCue::Boom)
                &&& n.snake == g.snake
                &&& n.score == g.score
            }
            &&& !fatal ==> {
                &&& n.phase == g.phase
                &&& n.snake@[0] == nh
                &&& !n.bombs@.contains(nh)
                &&& (g.bombs@.contains(nh) ==> !n.shield_active || picked_kind(g) == Some(PowerUpKind::Shield))
            }
            &&& (!fatal && nh == g.food) ==> {
                &&& cue == Some(AudioCue::Eat)
                &&& n.snake@.len() == g.snake@.len() + 1
                &&& n.snake@.skip(1) == g.snake@
                &&& n.score == g.score + (if g.multiplier_timer > 0 { 20int } else { 10int })
                &&& n.foods_eaten == g.foods_eaten + 1
                &&& n.step_delay == (if 160_000 - 600 * n.score < 70_000 { 70_000 } else { 160_000 - 600 * n.score })
            }
            &&& (!fatal && nh != g.food) ==> {
                &&& n.snake@.len() == g.snake@.len()
                &&& n.snake@.skip(1) == g.snake@.take(g.snake@.len() - 1)
                &&& n.score == g.score
                &&& n.foods_eaten == g.foods_eaten
            }
        }),
{
    lemma_board_capacity(g.snake@);
    let nh = next_head(g);
    if nh == g.food {
        assert(g.snake@.take(g.snake@.len() as int) =~= g.snake@);
    } else {
        assert(g.snake@.take(g.snake@.len() - 1) =~= g.snake@.drop_last());
    }
    if !crashes(g) && !(hits_bomb(g) && !g.shield_active) {
        assert(n.snake@ == moved_snake(g));
        lemma_without_cell(g.bombs@, nh);
        if eats(g) {
            assert(n.snake@[0] == nh);
            if n.bombs@.contains(nh) {
                let i = choose|i: int| 0 <= i < n.bombs@.len() && n.bombs@[i] == nh;
                assert(bomb_cell_ok(n.snake@, n.food, g.power_up, n.bombs@[i], n.bombs@.take(i)));
                assert(n.snake@.contains(nh));
            }
            assert(n.snake@.skip(1) =~= g.snake@);
        } else {
            assert(n.snake@.skip(1) =~= g.snake@.take(g.snake@.len() - 1));
        }
    }
}

/// Taking a pick-up without eating turns on its effect, clears it from the
/// board and plays the pick-up cue: a shield, 9 s of double score or 7 s
/// of slow-down.
pub proof fn lemma_pick_up_effects(g: Game, n: Game, cue: Option<AudioCue>, bursts: Seq<Burst>, changed: bool)
    requires
        g.wf(),
        step_relation(g, n, cue, bursts, changed),
        !crashes(g),
        !(hits_bomb(g) && !g.shield_active),
        next_head(g) != g.food,
        g.power_up matches Some(p) && p.position == next_head(g),
    ensures
        n.power_up is None,
        cue == Some(AudioCue::PowerUp),
        g.power_up->0.kind == PowerUpKind::Shield ==> n.shield_active && n.multiplier_timer == g.multiplier_timer
            && n.slow_timer == g.slow_timer,
        g.power_up->0.kind == PowerUpKind::Double ==> n.multiplier_timer == 9_000_000 && n.slow_timer == g.slow_timer,
        g.power_up->0.kind == PowerUpKind::Slow ==> n.slow_timer == 7_000_000 && n.multiplier_timer == g.multiplier_timer,
{
}

} // verus!
