//! Rounds and the player's state between steps: setting a round up,
//! the step delay, recording a finished run, queued turns, power-up
//! effects and challenges.

use vstd::prelude::*;

use crate::grid::{in_bounds, spec_opposite, Cell, Direction, GRID_SIZE, START_LENGTH};
use crate::hazards::{build_hazard_layout, spec_hazard_layout};
use crate::kinds::{spec_challenge_for_round, spec_kind_from_draw, spec_next_threshold, spec_pattern_for_round, spec_pattern_name, spec_speed_percent, spec_theme_for_score, ChallengeKind, GameMode, HazardPattern, LevelTheme, Phase, PowerUpKind, SpawnedPowerUp};
use crate::pace::{initial_bomb_count, BASE_STEP_DELAY, MAX_SLOWED_DELAY};
use crate::random::gen_range_i32;
use crate::scores::{lemma_register_keeps_table, register_high_score, top_scores, HighScoreEntry};
use crate::game::state::{bomb_cell_ok, cells_contain, layout_picks, same_board_and_run, same_except_effects, start_snake, Game};

verus! {

/// How long double score lasts: 9 s.
pub const DOUBLE_DURATION: u64 = 9_000_000;

/// How long a slow-down lasts: 7 s.
pub const SLOW_DURATION: u64 = 7_000_000;

/// How long a pick-up stays on the board: 10 s.
pub const POWER_UP_TTL: u64 = 10_000_000;

/// The state of a round that has just been set up, as round `round_number`
/// after a round whose food lay on `prior_food`.
pub open spec fn is_fresh_round(g: Game, round_number: u32, prior_food: Cell) -> bool {
    let pattern = spec_pattern_for_round(round_number);
    let layout = spec_hazard_layout(pattern, round_number);
    let picks = layout_picks(start_snake(), prior_food, None, layout, Seq::empty(), 1);
    &&& g.wf()
    &&& g.snake@ == start_snake()
    &&& g.direction == Direction::Right
    &&& g.queued_direction is None
    &&& g.score == 0
    &&& g.foods_eaten == 0
    &&& g.survival_time == 0
    &&& !g.shield_active
    &&& g.multiplier_timer == 0
    &&& g.slow_timer == 0
    &&& !g.score_recorded
    &&& g.step_timer == 0
    &&& g.step_delay == BASE_STEP_DELAY
    &&& g.food_flash == 0
    &&& g.death_flash == 0
    &&& g.power_up is None
    &&& g.hazard_pattern == pattern
    &&& g.hazard_layout@ == layout
    &&& g.challenge == spec_challenge_for_round(round_number)
    &&& picks.len() <= g.bombs@.len() <= 1
    &&& g.bombs@.take(picks.len() as int) == picks
    &&& (forall|i: int|
        0 <= i < g.bombs@.len() ==> #[trigger] bomb_cell_ok(
            start_snake(),
            prior_food,
            None,
            g.bombs@[i],
            g.bombs@.take(i),
        ) && in_bounds(g.bombs@[i]))
    &&& g.is_free_for_food(g.food)
}

impl Game {
    /// A free cell for new food, chosen at random among all free cells
    /// (each free cell equally likely, as drawing board cells until one is
    /// free would give); `None` when the board has no free cell.
    pub fn spawn_food(&self) -> (r: Option<Cell>)
        ensures
            r matches Some(c) ==> self.is_free_for_food(c),
            r is None ==> forall|c: Cell| !self.is_free_for_food(c),
    {
        let mut free: Vec<Cell> = Vec::new();
        let mut y: i32 = 0;
        while y < GRID_SIZE
            invariant
                0 <= y <= GRID_SIZE,
                free@.len() <= y * GRID_SIZE,
                forall|k: int| 0 <= k < free@.len() ==> self.is_free_for_food(#[trigger] free@[k]),
                forall|c: Cell| #![trigger self.is_free_for_food(c)]
                    c.y < y && self.is_free_for_food(c) ==> free@.contains(c),
            decreases GRID_SIZE - y,
        {
            let mut x: i32 = 0;
            while x < GRID_SIZE
                invariant
                    0 <= y < GRID_SIZE,
                    0 <= x <= GRID_SIZE,
                    free@.len() <= y * GRID_SIZE + x,
                    forall|k: int| 0 <= k < free@.len() ==> self.is_free_for_food(#[trigger] free@[k]),
                    forall|c: Cell| #![trigger self.is_free_for_food(c)]
                        (c.y < y || (c.y == y && c.x < x)) && self.is_free_for_food(c) ==> free@.contains(c),
                decreases GRID_SIZE - x,
            {
                let c = Cell { x, y };
                let ghost before = free@;
                if !cells_contain(&self.snake, c) && !cells_contain(&self.bombs, c) && !self.power_up_on(c) {
                    free.push(c);
                    assert forall|d: Cell| #![trigger self.is_free_for_food(d)]
                        (d.y < y || (d.y == y && d.x < x + 1)) && self.is_free_for_food(d) implies free@.contains(d) by {
                        if d == c {
                            assert(free@[before.len() as int] == c);
                        } else {
                            assert(before.contains(d));
                            let k = choose|k: int| 0 <= k < before.len() && before[k] == d;
                            assert(free@[k] == d);
                        }
                    }
                }
                x = x + 1;
            }
            y = y + 1;
        }
        if free.len() == 0 {
            assert forall|c: Cell| !self.is_free_for_food(c) by {
                if self.is_free_for_food(c) {
                    assert(free@.contains(c));
                }
            }
            return None;
        }
        let k = gen_range_i32(0, free.len() as i32);
        Some(free[k as usize])
    }

    /// Whether a pick-up may go on `cell`: on the board and off the snake,
    /// the bombs and the food.
    pub fn power_up_cell_free(&self, cell: Cell) -> (b: bool)
        ensures
            b == spec_power_up_cell_free(*self, cell),
    {
        cell.is_on_board() && !cells_contain(&self.snake, cell) && !cells_contain(&self.bombs, cell)
            && cell != self.food
    }

    /// The pick-up that the drawn `cell` and kind draw `kind_draw` give: one
    /// of the drawn kind on that cell, lasting 10 s, when the cell is free
    /// for it; none otherwise.
    pub fn place_power_up(&self, cell: Cell, kind_draw: i32) -> (r: Option<SpawnedPowerUp>)
        ensures
            r == spec_place_power_up(*self, cell, kind_draw as int),
    {
        if self.power_up_cell_free(cell) {
            Some(SpawnedPowerUp { kind: PowerUpKind::from_draw(kind_draw), position: cell, ttl: POWER_UP_TTL })
        } else {
            None
        }
    }

    /// The pick-up that the first free cell among the drawn `cells` gives,
    /// with the kind draw `kind_draw` (see [`Game::place_power_up`]); none
    /// when no drawn cell is free.
    pub fn first_free_power_up(&self, cells: &Vec<Cell>, kind_draw: i32) -> (r: Option<SpawnedPowerUp>)
        ensures
            r == spec_first_free_power_up(*self, cells@, kind_draw as int),
            r is None || exists|c: Cell| in_bounds(c) && r == #[trigger] spec_place_power_up(*self, c, kind_draw as int),
    {
        let mut i: usize = 0;
        assert(cells@.skip(0) =~= cells@);
        while i < cells.len()
            invariant
                0 <= i <= cells@.len(),
                spec_first_free_power_up(*self, cells@, kind_draw as int) == spec_first_free_power_up(
                    *self,
                    cells@.skip(i as int),
                    kind_draw as int,
                ),
            decreases cells@.len() - i,
        {
            let c = cells[i];
            assert(cells@.skip(i as int)[0] == c);
            assert(cells@.skip(i as int).drop_first() =~= cells@.skip(i + 1));
            if self.power_up_cell_free(c) {
                let placed = self.place_power_up(c, kind_draw);
                assert(in_bounds(c) && placed == spec_place_power_up(*self, c, kind_draw as int));
                return placed;
            }
            i = i + 1;
        }
        assert(cells@.skip(i as int) =~= Seq::<Cell>::empty());
        None
    }

    /// Draws 128 random cells and a kind from `0..3`, and places a pick-up
    /// on the first free cell among them (see
    /// [`Game::first_free_power_up`]); none when all 128 are taken. The
    /// cells are drawn at random, so it may give up even when a free cell
    /// exists.
    pub fn spawn_power_up(&self) -> (r: Option<SpawnedPowerUp>)
        ensures
            exists|cells: Seq<Cell>, k: int|
                cells.len() == 128 && (forall|i: int| 0 <= i < cells.len() ==> in_bounds(#[trigger] cells[i]))
                    && 0 <= k < 3 && r == #[trigger] spec_first_free_power_up(*self, cells, k),
            r is None || exists|c: Cell, k: int|
                in_bounds(c) && 0 <= k < 3 && r == #[trigger] spec_place_power_up(*self, c, k),
            r matches Some(p) ==> {
                &&& in_bounds(p.position)
                &&& !self.snake@.contains(p.position)
                &&& !self.bombs@.contains(p.position)
                &&& p.position != self.food
                &&& p.ttl == POWER_UP_TTL
            },
    {
        let cells = Self::random_cells(128);
        let draw = gen_range_i32(0, 3);
        let r = self.first_free_power_up(&cells, draw);
        proof {
            if r is Some {
                let c = choose|c: Cell| in_bounds(c) && r == #[trigger] spec_place_power_up(*self, c, draw as int);
                assert(in_bounds(c) && 0 <= draw < 3 && r == spec_place_power_up(*self, c, draw as int));
            }
        }
        r
    }

    fn start_snake_cells() -> (v: Vec<Cell>)
        ensures
            v@ == start_snake(),
    {
        let center = GRID_SIZE / 2;
        let mut v: Vec<Cell> = Vec::new();
        let mut offset: i32 = 0;
        while offset < START_LENGTH
            invariant
                0 <= offset <= START_LENGTH,
                center == 12,
                v@ == start_snake().take(offset as int),
            decreases START_LENGTH - offset,
        {
            v.push(Cell { x: center - offset, y: center });
            assert(v@ =~= start_snake().take(offset + 1));
            offset = offset + 1;
        }
        assert(v@ =~= start_snake());
        v
    }

    /// Sets up the next round: the starting snake heading right, all
    /// counters and effects cleared, the hazard pattern, layout and
    /// challenge of round `rounds_played + 1`, the opening bomb and fresh
    /// food. The phase, mode, round count, best score and table stay.
    pub fn reset_round(&mut self)
        requires
            old(self).rounds_played < u32::MAX,
        ensures
            is_fresh_round(*final(self), (old(self).rounds_played + 1) as u32, old(self).food),
            final(self).phase == old(self).phase,
            final(self).mode == old(self).mode,
            final(self).rounds_played == old(self).rounds_played,
            final(self).best_score == old(self).best_score,
            final(self).high_scores@ == old(self).high_scores@,
    {
        self.snake = Self::start_snake_cells();
        self.direction = Direction::Right;
        self.queued_direction = None;
        self.score = 0;
        self.foods_eaten = 0;
        self.survival_time = 0;
        self.shield_active = false;
        self.multiplier_timer = 0;
        self.slow_timer = 0;
        self.score_recorded = false;
        self.step_timer = 0;
        self.step_delay = BASE_STEP_DELAY;
        self.food_flash = 0;
        self.death_flash = 0;
        self.power_up = None;
        let round_number = self.rounds_played + 1;
        self.hazard_pattern = HazardPattern::for_round(round_number);
        self.challenge = ChallengeKind::for_round(round_number);
        self.hazard_layout = build_hazard_layout(self.hazard_pattern, round_number);
        proof {
            assert(self.snake@.no_duplicates()) by {
                assert forall|i: int, j: int|
                    0 <= i < self.snake@.len() && 0 <= j < self.snake@.len() && i != j implies self.snake@[i]
                    != self.snake@[j] by {}
            }
        }
        let count = initial_bomb_count(self.score);
        let bombs = self.compose_bombs(count);
        self.bombs = bombs;
        assert(count == 1);
        // The corner cells (0, 0) and (1, 0) are off the starting snake, and
        // the single bomb cannot cover both, so some cell is free.
        let ghost c0 = Cell { x: 0, y: 0 };
        let ghost c1 = Cell { x: 1, y: 0 };
        proof {
            assert(!self.snake@.contains(c0));
            assert(!self.snake@.contains(c1));
            if self.bombs@.contains(c0) {
                assert(self.bombs@[0] == c0);
                assert(!self.bombs@.contains(c1));
                assert(self.is_free_for_food(c1));
            } else {
                assert(self.is_free_for_food(c0));
            }
        }
        match self.spawn_food() {
            Some(f) => {
                self.food = f;
            },
            None => {},
        }
    }
}

/// A pick-up may go on `cell`: on the board and off the snake, the bombs and
/// the food.
pub open spec fn spec_power_up_cell_free(g: Game, cell: Cell) -> bool {
    &&& in_bounds(cell)
    &&& !g.snake@.contains(cell)
    &&& !g.bombs@.contains(cell)
    &&& cell != g.food
}

/// The pick-up that a drawn cell and kind draw give on `g`: one of the drawn
/// kind on that cell, lasting 10 s, when the cell is free for it; none
/// otherwise.
pub open spec fn spec_place_power_up(g: Game, cell: Cell, kind_draw: int) -> Option<SpawnedPowerUp> {
    if spec_power_up_cell_free(g, cell) {
        Some(SpawnedPowerUp { kind: spec_kind_from_draw(kind_draw), position: cell, ttl: POWER_UP_TTL })
    } else {
        None
    }
}

/// The pick-up that the first free cell of `cells` gives with the kind draw
/// `kind_draw`; none when no cell of `cells` is free.
pub open spec fn spec_first_free_power_up(g: Game, cells: Seq<Cell>, kind_draw: int) -> Option<SpawnedPowerUp>
    decreases cells.len(),
{
    if cells.len() == 0 {
        None
    } else if spec_power_up_cell_free(g, cells[0]) {
        spec_place_power_up(g, cells[0], kind_draw)
    } else {
        spec_first_free_power_up(g, cells.drop_first(), kind_draw)
    }
}

/// The search for a pick-up cell depends only on the snake, the bombs and
/// the food.
pub proof fn lemma_first_free_power_up_same(a: Game, b: Game, cells: Seq<Cell>, kind_draw: int)
    requires
        a.snake@ == b.snake@,
        a.bombs@ == b.bombs@,
        a.food == b.food,
    ensures
        spec_first_free_power_up(a, cells, kind_draw) == spec_first_free_power_up(b, cells, kind_draw),
    decreases cells.len(),
{
    if cells.len() > 0 {
        lemma_first_free_power_up_same(a, b, cells.drop_first(), kind_draw);
    }
}

/// The step delay after the theme and a running slow-down: the plain delay
/// scaled by the theme's percentage, then, while slowed, by 155 percent but
/// to at most 0.24 s.
pub open spec fn spec_effective_step_delay(step_delay: u64, score: u32, slow_timer: u64) -> u64 {
    let themed = step_delay * spec_speed_percent(spec_theme_for_score(score)) / 100;
    if slow_timer > 0 {
        let slowed = themed * 155 / 100;
        if slowed < MAX_SLOWED_DELAY {
            slowed as u64
        } else {
            MAX_SLOWED_DELAY
        }
    } else {
        themed as u64
    }
}

/// The table entry of the run that is ending.
pub open spec fn run_entry(g: Game) -> HighScoreEntry {
    HighScoreEntry { score: g.score, length: g.snake@.len() as usize }
}

/// The best score a table shows: its first entry's, or 0 when empty.
pub open spec fn table_best(table: Seq<HighScoreEntry>) -> u32 {
    if table.len() > 0 {
        table[0].score
    } else {
        0
    }
}

impl Game {
    /// A game on the title screen, with the saved table `high_scores`, the
    /// best score taken from its first entry, and the first round set up.
    pub fn new(high_scores: Vec<HighScoreEntry>) -> (g: Game)
        ensures
            is_fresh_round(g, 1, Cell { x: 0, y: 0 }),
            g.phase == Phase::Title,
            g.mode == GameMode::Arcade,
            g.rounds_played == 0,
            g.high_scores@ == high_scores@,
            g.best_score == table_best(high_scores@),
    {
        let best = if high_scores.len() > 0 {
            high_scores[0].score
        } else {
            0
        };
        let mut game = Game {
            snake: Vec::new(),
            direction: Direction::Right,
            queued_direction: None,
            food: Cell { x: 0, y: 0 },
            bombs: Vec::new(),
            hazard_pattern: HazardPattern::SplitGates,
            hazard_layout: Vec::new(),
            mode: GameMode::Arcade,
            challenge: ChallengeKind::Survive60,
            power_up: None,
            phase: Phase::Title,
            score: 0,
            best_score: best,
            rounds_played: 0,
            foods_eaten: 0,
            survival_time: 0,
            shield_active: false,
            multiplier_timer: 0,
            slow_timer: 0,
            high_scores,
            score_recorded: false,
            step_timer: 0,
            step_delay: BASE_STEP_DELAY,
            food_flash: 0,
            death_flash: 0,
        };
        game.reset_round();
        game.phase = Phase::Title;
        game
    }

    /// Sets up the next round and starts playing it.
    pub fn start_round(&mut self)
        requires
            old(self).wf(),
            old(self).rounds_played < u32::MAX,
        ensures
            started_round(*old(self), *final(self)),
    {
        self.reset_round();
        self.phase = Phase::Playing;
        self.rounds_played = self.rounds_played + 1;
    }

    /// The step delay after the theme and a running slow-down.
    pub fn effective_step_delay(&self) -> (d: u64)
        requires
            self.wf(),
        ensures
            d == spec_effective_step_delay(self.step_delay, self.score, self.slow_timer),
            d > 0,
    {
        let themed = self.step_delay * self.level_theme().speed_percent() / 100;
        if self.slow_timer > 0 {
            let slowed = themed * 155 / 100;
            if slowed < MAX_SLOWED_DELAY {
                slowed
            } else {
                MAX_SLOWED_DELAY
            }
        } else {
            themed
        }
    }

    /// The theme of the current score.
    pub fn level_theme(&self) -> (t: LevelTheme)
        ensures
            t == spec_theme_for_score(self.score),
    {
        LevelTheme::for_score(self.score)
    }

    /// The score at which the next theme begins, if any.
    pub fn next_theme_score(&self) -> (r: Option<u32>)
        ensures
            r == spec_next_threshold(spec_theme_for_score(self.score)),
    {
        self.level_theme().next_threshold()
    }

    /// The name of the round's hazard pattern.
    pub fn hazard_pattern_name(&self) -> (s: &'static str)
        ensures
            s@ == spec_pattern_name(self.hazard_pattern),
    {
        self.hazard_pattern.name()
    }

    /// Records the run that is ending, once per round and only when it
    /// scored: the table takes the run and keeps its five best, and the best
    /// score becomes the table's first. Returns whether the table changed
    /// (and so should be saved).
    pub fn record_score(&mut self) -> (changed: bool)
        requires
            old(self).wf(),
        ensures
            changed == (!old(self).score_recorded && old(self).score != 0),
            changed ==> {
                &&& final(self).high_scores@ == top_scores(old(self).high_scores@.push(run_entry(*old(self))))
                &&& final(self).best_score == table_best(final(self).high_scores@)
                &&& final(self).score_recorded
            },
            !changed ==> {
                &&& final(self).high_scores@ == old(self).high_scores@
                &&& final(self).best_score == old(self).best_score
                &&& final(self).score_recorded == old(self).score_recorded
            },
            same_board_and_run(*old(self), *final(self)),
            final(self).wf(),
    {
        if self.score_recorded || self.score == 0 {
            return false;
        }
        let entry = HighScoreEntry { score: self.score, length: self.snake.len() };
        proof {
            lemma_register_keeps_table(self.high_scores@, entry);
        }
        register_high_score(&mut self.high_scores, entry);
        self.best_score = if self.high_scores.len() > 0 {
            self.high_scores[0].score
        } else {
            0
        };
        self.score_recorded = true;
        true
    }

    /// Queues a turn unless it repeats or reverses the heading the snake
    /// will have (the queued turn if there is one, else the current
    /// heading). Returns whether the turn was queued.
    pub fn queue_direction(&mut self, next_direction: Direction) -> (queued: bool)
        ensures
            queued_turn(*old(self), *final(self), next_direction, queued),
    {
        let reference = match self.queued_direction {
            Some(d) => d,
            None => self.direction,
        };
        if next_direction != reference && next_direction != reference.opposite() {
            self.queued_direction = Some(next_direction);
            true
        } else {
            false
        }
    }

    /// Turns on a picked-up effect: a shield, 9 s of double score or 7 s of
    /// slow-down.
    pub fn apply_power_up(&mut self, kind: PowerUpKind)
        ensures
            kind == PowerUpKind::Shield ==> final(self).shield_active && final(self).multiplier_timer == old(self).multiplier_timer && final(self).slow_timer == old(self).slow_timer,
            kind == PowerUpKind::Double ==> final(self).multiplier_timer == DOUBLE_DURATION && final(self).shield_active == old(self).shield_active && final(self).slow_timer == old(self).slow_timer,
            kind == PowerUpKind::Slow ==> final(self).slow_timer == SLOW_DURATION && final(self).shield_active == old(self).shield_active && final(self).multiplier_timer == old(self).multiplier_timer,
            same_except_effects(*old(self), *final(self)),
    {
        match kind {
            PowerUpKind::Shield => {
                self.shield_active = true;
            },
            PowerUpKind::Double => {
                self.multiplier_timer = DOUBLE_DURATION;
            },
            PowerUpKind::Slow => {
                self.slow_timer = SLOW_DURATION;
            },
        }
    }
}

/// `n` and `changed` are what recording the run of `g` gives.
pub open spec fn records_run(g: Game, n: Game, changed: bool) -> bool {
    &&& changed == (!g.score_recorded && g.score != 0)
    &&& changed ==> {
        &&& n.high_scores@ == top_scores(g.high_scores@.push(run_entry(g)))
        &&& n.best_score == table_best(n.high_scores@)
        &&& n.score_recorded
    }
    &&& !changed ==> {
        &&& n.high_scores@ == g.high_scores@
        &&& n.best_score == g.best_score
        &&& n.score_recorded == g.score_recorded
    }
}

/// A run is recorded once: recording it again changes neither the table,
/// the best score nor the recorded flag, and says the table is unchanged.
pub proof fn lemma_record_once(g: Game, n: Game, m: Game, c1: bool, c2: bool)
    requires
        records_run(g, n, c1),
        same_board_and_run(g, n),
        records_run(n, m, c2),
    ensures
        !c2,
        m.high_scores@ == n.high_scores@,
        m.best_score == n.best_score,
        m.score_recorded == n.score_recorded,
{
}

/// `n` is `g` with the next round set up and started.
pub open spec fn started_round(g: Game, n: Game) -> bool {
    &&& is_fresh_round(n, (g.rounds_played + 1) as u32, g.food)
    &&& n.phase == Phase::Playing
    &&& n.rounds_played == g.rounds_played + 1
    &&& n.mode == g.mode
    &&& n.best_score == g.best_score
    &&& n.high_scores@ == g.high_scores@
}

/// `n` is `g` after asking to turn to `d`: the turn is queued, when it
/// neither repeats nor reverses the heading the snake will have.
pub open spec fn queued_turn(g: Game, n: Game, d: Direction, queued: bool) -> bool {
    let reference = match g.queued_direction {
        Some(q) => q,
        None => g.direction,
    };
    &&& queued == (d != reference && d != spec_opposite(reference))
    &&& queued ==> n == Game { queued_direction: Some(d), ..g }
    &&& !queued ==> n == g
}

/// An effect the player has running.
#[derive(Clone, Copy, Debug, PartialEq, Eq, Structural)]
pub enum ActiveEffect {
    /// A shield waits for the next bomb.
    ShieldReady,
    /// Double score, with the time it has left.
    Double(u64),
    /// Slow-down, with the time it has left.
    Slow(u64),
}

/// The running effects of `g`, in the order shield, double, slow.
pub open spec fn spec_active_effects(g: Game) -> Seq<ActiveEffect> {
    let a = if g.shield_active { seq![ActiveEffect::ShieldReady] } else { Seq::empty() };
    let b = if g.multiplier_timer > 0 { a.push(ActiveEffect::Double(g.multiplier_timer)) } else { a };
    if g.slow_timer > 0 {
        b.push(ActiveEffect::Slow(g.slow_timer))
    } else {
        b
    }
}

impl Game {
    /// The running effects, in the order shield, double, slow.
    pub fn active_power_ups(&self) -> (effects: Vec<ActiveEffect>)
        ensures
            effects@ == spec_active_effects(*self),
    {
        let mut effects: Vec<ActiveEffect> = Vec::new();
        if self.shield_active {
            effects.push(ActiveEffect::ShieldReady);
        }
        if self.multiplier_timer > 0 {
            effects.push(ActiveEffect::Double(self.multiplier_timer));
        }
        if self.slow_timer > 0 {
            effects.push(ActiveEffect::Slow(self.slow_timer));
        }
        assert(effects@ =~= spec_active_effects(*self));
        effects
    }

    /// The name of the current mode.
    pub fn mode_label(&self) -> (s: &'static str)
        ensures
            self.mode == GameMode::Arcade ==> s@ == "Arcade"@,
            self.mode == GameMode::Challenge ==> s@ == "Challenge"@,
    {
        self.mode.label()
    }

    /// Whether the game is in challenge mode.
    pub fn is_challenge_mode(&self) -> (b: bool)
        ensures
            b == (self.mode == GameMode::Challenge),
    {
        self.mode == GameMode::Challenge
    }

    /// The short name of the round's challenge.
    pub fn challenge_title(&self) -> (s: &'static str)
        ensures
            self.challenge == ChallengeKind::Survive60 ==> s@ == "Survive 60"@,
            self.challenge == ChallengeKind::Collect20 ==> s@ == "Collect 20"@,
            self.challenge == ChallengeKind::NoWallHits ==> s@ == "No Wall Hits"@,
    {
        self.challenge.title()
    }

    /// The description of the round's challenge.
    pub fn challenge_detail(&self) -> (s: &'static str)
        ensures
            self.challenge == ChallengeKind::Survive60 ==> s@ == "Stay alive for 60 seconds."@,
            self.challenge == ChallengeKind::Collect20 ==> s@ == "Collect 20 food in one run."@,
            self.challenge == ChallengeKind::NoWallHits ==> s@ == "Reach 120 score without a wall hit."@,
    {
        self.challenge.detail()
    }
}

/// The progress of a challenge and its goal: whole seconds survived out of
/// 60, food eaten out of 20, or score out of 120, the progress capped at
/// the goal.
pub open spec fn spec_challenge_progress(g: Game) -> (u64, u64) {
    let (have, goal) = match g.challenge {
        ChallengeKind::Survive60 => (g.survival_time / 1_000_000, 60u64),
        ChallengeKind::Collect20 => (g.foods_eaten as u64, 20u64),
        ChallengeKind::NoWallHits => (g.score as u64, 120u64),
    };
    (if have < goal { have } else { goal }, goal)
}

/// The challenge of the round is met.
pub open spec fn challenge_met(g: Game) -> bool {
    spec_challenge_progress(g).0 >= spec_challenge_progress(g).1
}

impl Game {
    /// The progress of the round's challenge and its goal.
    pub fn challenge_progress(&self) -> (r: (u64, u64))
        ensures
            r == spec_challenge_progress(*self),
    {
        let (have, goal): (u64, u64) = match self.challenge {
            ChallengeKind::Survive60 => (self.survival_time / 1_000_000, 60),
            ChallengeKind::Collect20 => (self.foods_eaten as u64, 20),
            ChallengeKind::NoWallHits => (self.score as u64, 120),
        };
        (if have < goal { have } else { goal }, goal)
    }

    /// Whether the round's challenge has been met.
    pub fn challenge_complete(&self) -> (b: bool)
        ensures
            b == challenge_met(*self),
    {
        let (have, goal) = self.challenge_progress();
        have >= goal
    }
}

/// Each challenge is met exactly when its goal is reached: 60 seconds
/// survived, 20 foods eaten, or a score of 120; its progress is what has
/// been reached towards the goal, never past it.
pub proof fn lemma_challenge_goals(g: Game)
    ensures
        g.challenge == ChallengeKind::Survive60 ==> {
            &&& (challenge_met(g) <==> g.survival_time >= 60_000_000)
            &&& spec_challenge_progress(g).1 == 60
            &&& spec_challenge_progress(g).0 <= 60
            &&& spec_challenge_progress(g).0 * 1_000_000 <= g.survival_time
        },
        g.challenge == ChallengeKind::Collect20 ==> {
            &&& (challenge_met(g) <==> g.foods_eaten >= 20)
            &&& spec_challenge_progress(g) == (if g.foods_eaten < 20 { (g.foods_eaten as u64, 20u64) } else { (20u64, 20u64) })
        },
        g.challenge == ChallengeKind::NoWallHits ==> {
            &&& (challenge_met(g) <==> g.score >= 120)
            &&& spec_challenge_progress(g) == (if g.score < 120 { (g.score as u64, 120u64) } else { (120u64, 120u64) })
        },
{
    if g.challenge == ChallengeKind::Survive60 {
        let q = g.survival_time / 1_000_000;
        assert(q * 1_000_000 <= g.survival_time < q * 1_000_000 + 1_000_000) by (nonlinear_arith)
            requires
                q == g.survival_time / 1_000_000,
        ;
    }
}

/// How the themes and a slow-down set the step delay: without a slow-down
/// the first theme (below 80 points) keeps the plain delay and later ones
/// never lengthen it; a running slow-down always lengthens the delay, by 55
/// percent, but to no more than 0.24 s.
pub proof fn lemma_slow_down_delay(step_delay: u64, score: u32, slow: u64)
    requires
        70_000 <= step_delay <= 160_000,
        slow > 0,
    ensures
        spec_effective_step_delay(step_delay, score, 0) <= step_delay,
        score < 80 ==> spec_effective_step_delay(step_delay, score, 0) == step_delay,
        spec_effective_step_delay(step_delay, score, slow) > spec_effective_step_delay(step_delay, score, 0),
        spec_effective_step_delay(step_delay, score, slow) <= 240_000,
        ({
            let plain = spec_effective_step_delay(step_delay, score, 0) as int;
            spec_effective_step_delay(step_delay, score, slow) == (if plain * 155 / 100 < 240_000 {
                plain * 155 / 100
            } else {
                240_000
            })
        }),
{
    let pct = spec_speed_percent(spec_theme_for_score(score));
    assert(88 <= pct <= 100);
    let themed = step_delay * pct / 100;
    assert(61_600 <= themed <= step_delay) by (nonlinear_arith)
        requires
            70_000 <= step_delay <= 160_000,
            88 <= pct <= 100,
            themed == step_delay * pct / 100,
    ;
    assert(themed * 155 / 100 > themed) by (nonlinear_arith)
        requires
            themed >= 61_600,
    ;
}

} // verus!
