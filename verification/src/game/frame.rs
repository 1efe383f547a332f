//! One frame of play: the timers run and the snake steps once per step
//! delay gathered.

use vstd::prelude::*;

use crate::kinds::{AudioCue, ChallengeKind, GameMode, Phase, PowerUpKind, SpawnedPowerUp};
use crate::game::state::{same_board_and_run, Game};
use crate::game::round::{lemma_challenge_goals, challenge_met, records_run, run_entry, spec_effective_step_delay};
use crate::game::step::{next_head, picked_kind, step_relation, Burst};

verus! {

/// What a frame produced: the cues to play, the bursts to draw, and
/// whether the high-score table changed and should be saved.
pub struct FrameOutcome {
    pub cues: Vec<AudioCue>,
    pub bursts: Vec<Burst>,
    pub table_changed: bool,
}

/// `a - b`, or 0 when `b` is larger.
pub open spec fn sat_sub(a: u64, b: u64) -> u64 {
    if a > b {
        (a - b) as u64
    } else {
        0
    }
}

/// `a + b`, or the largest `u64` when that overflows.
pub open spec fn sat_add(a: u64, b: u64) -> u64 {
    if a + b > u64::MAX {
        u64::MAX
    } else {
        (a + b) as u64
    }
}

/// The pick-up after `dt` more time: it vanishes when its time runs out.
pub open spec fn aged_power_up(p: Option<SpawnedPowerUp>, dt: u64) -> Option<SpawnedPowerUp> {
    match p {
        Some(q) => if q.ttl <= dt {
            None
        } else {
            Some(SpawnedPowerUp { ttl: (q.ttl - dt) as u64, ..q })
        },
        None => None,
    }
}

/// The flashes fade in every frame.
pub open spec fn flashes_faded(g: Game, t: Game, dt: u64) -> bool {
    &&& t.food_flash == sat_sub(g.food_flash, dt)
    &&& t.death_flash == sat_sub(g.death_flash, dt)
}

/// The timers of a frame of play have run on `g`, giving `t`: the effects
/// and the pick-up age, and the round time and the step time grow.
pub open spec fn timers_ran(g: Game, t: Game, dt: u64) -> bool {
    &&& flashes_faded(g, t, dt)
    &&& t.multiplier_timer == sat_sub(g.multiplier_timer, dt)
    &&& t.slow_timer == sat_sub(g.slow_timer, dt)
    &&& t.power_up == aged_power_up(g.power_up, dt)
    &&& t.survival_time == sat_add(g.survival_time, dt)
    &&& t.step_timer == sat_add(g.step_timer, dt)
    &&& t.snake == g.snake
    &&& t.direction == g.direction
    &&& t.queued_direction == g.queued_direction
    &&& t.food == g.food
    &&& t.bombs == g.bombs
    &&& t.hazard_pattern == g.hazard_pattern
    &&& t.hazard_layout == g.hazard_layout
    &&& t.mode == g.mode
    &&& t.challenge == g.challenge
    &&& t.phase == g.phase
    &&& t.score == g.score
    &&& t.best_score == g.best_score
    &&& t.rounds_played == g.rounds_played
    &&& t.foods_eaten == g.foods_eaten
    &&& t.shield_active == g.shield_active
    &&& t.high_scores == g.high_scores
    &&& t.score_recorded == g.score_recorded
    &&& t.step_delay == g.step_delay
}

/// Step `i` of a frame: from a played state with a whole delay gathered,
/// the snake steps to the next state, which has one delay less gathered.
pub open spec fn step_ok(states: Seq<Game>, outs: Seq<(Option<AudioCue>, Seq<Burst>, bool)>, i: int, delay: u64) -> bool {
    &&& states[i].phase == Phase::Playing
    &&& states[i].step_timer >= delay
    &&& step_relation(states[i], states[i + 1], outs[i].0, outs[i].1, outs[i].2)
    &&& states[i + 1].step_timer == states[i].step_timer - delay
}

/// The steps of a frame: from each state of `states` the snake steps to
/// the next while the round is played and a whole step delay has gathered;
/// the steps stop when the round ends or less than a delay is left.
pub open spec fn frame_steps(states: Seq<Game>, outs: Seq<(Option<AudioCue>, Seq<Burst>, bool)>, delay: u64) -> bool {
    &&& states.len() == outs.len() + 1
    &&& forall|i: int| 0 <= i < outs.len() ==> #[trigger] step_ok(states, outs, i, delay)
    &&& (states.last().phase != Phase::Playing || states.last().step_timer < delay)
}

/// At the end of a frame a met challenge clears the round: the run is
/// recorded and the phase becomes `ChallengeClear`.
pub open spec fn challenge_checked(s: Game, n: Game, changed: bool) -> bool {
    if s.phase == Phase::Playing && s.mode == GameMode::Challenge && challenge_met(s) {
        &&& n.phase == Phase::ChallengeClear
        &&& records_run(s, n, changed)
        &&& same_board_and_run(s, Game { phase: s.phase, ..n })
    } else {
        &&& n == s
        &&& !changed
    }
}

/// The cues of the steps, in order.
pub open spec fn step_cues(outs: Seq<(Option<AudioCue>, Seq<Burst>, bool)>) -> Seq<AudioCue> {
    outs.map_values(|o: (Option<AudioCue>, Seq<Burst>, bool)| o.0).filter_map(|c: Option<AudioCue>| c)
}

/// The bursts of the steps, in order.
pub open spec fn step_bursts(outs: Seq<(Option<AudioCue>, Seq<Burst>, bool)>) -> Seq<Burst> {
    outs.map_values(|o: (Option<AudioCue>, Seq<Burst>, bool)| o.1).flatten_alt()
}

/// Some step changed the table.
pub open spec fn steps_changed_table(outs: Seq<(Option<AudioCue>, Seq<Burst>, bool)>) -> bool {
    exists|i: int| 0 <= i < outs.len() && #[trigger] outs[i].2
}

/// A frame of play from `g` to `n` through the step states `states` with
/// outcomes `outs`, the challenge check giving `checked`: the timers run,
/// the snake steps, a met challenge clears the round, and the frame's cues,
/// bursts and table change are those of its steps and check.
pub open spec fn played_frame(
    g: Game,
    n: Game,
    dt: u64,
    cues: Seq<AudioCue>,
    bursts: Seq<Burst>,
    changed: bool,
    states: Seq<Game>,
    outs: Seq<(Option<AudioCue>, Seq<Burst>, bool)>,
    checked: bool,
) -> bool {
    &&& states.len() > 0
    &&& timers_ran(g, states[0], dt)
    &&& frame_steps(states, outs, spec_effective_step_delay(states[0].step_delay, states[0].score, states[0].slow_timer))
    &&& cues == step_cues(outs)
    &&& bursts == step_bursts(outs)
    &&& challenge_checked(states.last(), n, checked)
    &&& changed == (steps_changed_table(outs) || checked)
}

/// All fields but the step timer agree.
pub open spec fn same_except_step_timer(a: Game, b: Game) -> bool {
    a == Game { step_timer: a.step_timer, ..b }
}

proof fn lemma_step_ignores_timer(
    g: Game,
    g1: Game,
    n: Game,
    cue: Option<AudioCue>,
    bursts: Seq<Burst>,
    changed: bool,
)
    requires
        same_except_step_timer(g, g1),
        step_relation(g1, n, cue, bursts, changed),
    ensures
        step_relation(g, n, cue, bursts, changed),
{
    assert(next_head(g) == next_head(g1));
    assert(run_entry(g) == run_entry(g1));
}

impl Game {
    /// Runs one frame of `dt` microseconds.
    ///
    /// The flashes fade. While a round is played, the effects and the
    /// pick-up age, the round time grows, and the step time gathers; the
    /// snake then steps once per step delay gathered (the delay of the
    /// frame's start), until the round ends. A challenge that has been met
    /// then clears the round.
    pub fn update(&mut self, dt: u64) -> (out: FrameOutcome)
        requires
            old(self).wf(),
        ensures
            final(self).wf(),
            old(self).phase != Phase::Playing ==> {
                &&& flashes_faded(*old(self), *final(self), dt)
                &&& *final(self) == Game { food_flash: final(self).food_flash, death_flash: final(self).death_flash, ..*old(self) }
                &&& out.cues@.len() == 0
                &&& out.bursts@.len() == 0
                &&& !out.table_changed
            },
            old(self).phase == Phase::Playing ==> exists|
                states: Seq<Game>,
                outs: Seq<(Option<AudioCue>, Seq<Burst>, bool)>,
                checked: bool,
            |
                #[trigger] played_frame(*old(self), *final(self), dt, out.cues@, out.bursts@, out.table_changed, states, outs, checked),
    {
        let mut cues: Vec<AudioCue> = Vec::new();
        let mut bursts: Vec<Burst> = Vec::new();
        self.food_flash = if self.food_flash > dt {
            self.food_flash - dt
        } else {
            0
        };
        self.death_flash = if self.death_flash > dt {
            self.death_flash - dt
        } else {
            0
        };
        if self.phase != Phase::Playing {
            return FrameOutcome { cues, bursts, table_changed: false };
        }
        self.multiplier_timer = if self.multiplier_timer > dt {
            self.multiplier_timer - dt
        } else {
            0
        };
        self.slow_timer = if self.slow_timer > dt {
            self.slow_timer - dt
        } else {
            0
        };
        match self.power_up {
            Some(p) => {
                if p.ttl <= dt {
                    self.power_up = None;
                } else {
                    self.power_up = Some(SpawnedPowerUp { ttl: p.ttl - dt, ..p });
                }
            },
            None => {},
        }
        self.survival_time = self.survival_time.saturating_add(dt);
        self.step_timer = self.step_timer.saturating_add(dt);
        let effective_delay = self.effective_step_delay();
        let ghost start = *self;
        let ghost mut states: Seq<Game> = seq![*self];
        let ghost mut outs: Seq<(Option<AudioCue>, Seq<Burst>, bool)> = Seq::empty();
        let mut changed = false;
        assert(step_cues(outs) =~= Seq::<AudioCue>::empty());
        assert(step_bursts(outs) =~= Seq::<Burst>::empty());
        while self.step_timer >= effective_delay
            invariant_except_break
                self.phase == Phase::Playing,
            invariant
                self.wf(),
                effective_delay > 0,
                effective_delay == spec_effective_step_delay(start.step_delay, start.score, start.slow_timer),
                states.len() == outs.len() + 1,
                states[0] == start,
                states.last() == *self,
                forall|i: int| 0 <= i < outs.len() ==> #[trigger] step_ok(states, outs, i, effective_delay),
                cues@ == step_cues(outs),
                bursts@ == step_bursts(outs),
                changed == steps_changed_table(outs),
            ensures
                self.phase != Phase::Playing || self.step_timer < effective_delay,
            decreases self.step_timer,
        {
            let ghost prev = *self;
            self.step_timer = self.step_timer - effective_delay;
            let ghost dec = *self;
            let out = self.advance();
            proof {
                lemma_step_ignores_timer(prev, dec, *self, out.cue, out.bursts@, out.table_changed);
            }
            let ghost entry = (out.cue, out.bursts@, out.table_changed);
            let ghost old_outs = outs;
            let ghost old_states = states;
            proof {
                states = states.push(*self);
                outs = outs.push(entry);
            }
            let cue = out.cue;
            let mut step_bursts_vec = out.bursts;
            bursts.append(&mut step_bursts_vec);
            changed = changed || out.table_changed;
            match cue {
                Some(c) => {
                    cues.push(c);
                },
                None => {},
            }
            proof {
                let m = outs.map_values(|o: (Option<AudioCue>, Seq<Burst>, bool)| o.0);
                let m_old = old_outs.map_values(|o: (Option<AudioCue>, Seq<Burst>, bool)| o.0);
                assert(m.drop_last() =~= m_old);
                assert(m.last() == cue);
                let b = outs.map_values(|o: (Option<AudioCue>, Seq<Burst>, bool)| o.1);
                let b_old = old_outs.map_values(|o: (Option<AudioCue>, Seq<Burst>, bool)| o.1);
                assert(b.drop_last() =~= b_old);
                assert(b.last() == entry.1);
                if changed {
                    if entry.2 {
                        assert(outs[outs.len() - 1].2);
                    } else {
                        let k = choose|k: int| 0 <= k < old_outs.len() && #[trigger] old_outs[k].2;
                        assert(outs[k] == old_outs[k]);
                    }
                } else {
                    assert forall|k: int| 0 <= k < outs.len() implies !#[trigger] outs[k].2 by {
                        if k < old_outs.len() {
                            assert(outs[k] == old_outs[k]);
                        }
                    }
                }
                assert forall|i: int| 0 <= i < outs.len() implies #[trigger] step_ok(states, outs, i, effective_delay) by {
                    if i < old_outs.len() {
                        assert(step_ok(old_states, old_outs, i, effective_delay));
                        assert(outs[i] == old_outs[i]);
                        assert(states[i] == old_states[i]);
                        assert(states[i + 1] == old_states[i + 1]);
                    } else {
                        assert(states[i] == prev);
                        assert(states[i + 1] == *self);
                        assert(outs[i] == entry);
                        assert(prev.phase == Phase::Playing);
                        assert(prev.step_timer >= effective_delay);
                        assert(step_relation(prev, *self, entry.0, entry.1, entry.2));
                    }
                }
            }
            if cue == Some(AudioCue::GameOver) {
                break;
            }
            if self.phase != Phase::Playing {
                break;
            }
        }
        let ghost last = *self;
        let checked = if self.phase == Phase::Playing && self.mode == GameMode::Challenge && self.challenge_complete() {
            let recorded = self.record_score();
            self.phase = Phase::ChallengeClear;
            recorded
        } else {
            false
        };
        proof {
            assert(timers_ran(*old(self), start, dt));
            assert(frame_steps(states, outs, effective_delay));
            assert(challenge_checked(last, *self, checked));
        }
        let result = FrameOutcome { cues, bursts, table_changed: changed || checked };
        assert(played_frame(
            *old(self),
            *self,
            dt,
            result.cues@,
            result.bursts@,
            result.table_changed,
            states,
            outs,
            checked,
        ));
        result
    }
}

/// Steps that take no slow-down pick-up leave the slow-down timer alone.
proof fn lemma_steps_keep_slow_timer(
    states: Seq<Game>,
    outs: Seq<(Option<AudioCue>, Seq<Burst>, bool)>,
    delay: u64,
    k: int,
)
    requires
        states.len() == outs.len() + 1,
        forall|i: int| 0 <= i < outs.len() ==> #[trigger] step_ok(states, outs, i, delay),
        0 <= k <= outs.len(),
        forall|j: int| 0 <= j < k ==> picked_kind(#[trigger] states[j]) != Some(PowerUpKind::Slow),
    ensures
        states[k].slow_timer == states[0].slow_timer,
    decreases k,
{
    if k > 0 {
        lemma_steps_keep_slow_timer(states, outs, delay, k - 1);
        assert(step_ok(states, outs, k - 1, delay));
        assert(picked_kind(states[k - 1]) != Some(PowerUpKind::Slow));
    }
}

/// In a frame of play of `dt`, the running effects run down by `dt` (to no
/// less than zero), and so do the flashes and the pick-up's life (it goes
/// when its life runs out), while the round time and the step time grow
/// by `dt`: a slow-down or double score that is running gets
/// strictly shorter when time passes, and unless a step of the frame takes
/// a new slow-down pick-up, the frame ends with the slow-down `dt` shorter.
pub proof fn lemma_frame_runs_down_effects(
    g: Game,
    n: Game,
    dt: u64,
    cues: Seq<AudioCue>,
    bursts: Seq<Burst>,
    changed: bool,
    states: Seq<Game>,
    outs: Seq<(Option<AudioCue>, Seq<Burst>, bool)>,
    checked: bool,
)
    requires
        played_frame(g, n, dt, cues, bursts, changed, states, outs, checked),
    ensures
        states[0].slow_timer == (if g.slow_timer > dt { g.slow_timer - dt } else { 0 }),
        states[0].multiplier_timer == (if g.multiplier_timer > dt { g.multiplier_timer - dt } else { 0 }),
        g.slow_timer > 0 && dt > 0 ==> states[0].slow_timer < g.slow_timer,
        g.multiplier_timer > 0 && dt > 0 ==> states[0].multiplier_timer < g.multiplier_timer,
        (forall|j: int| 0 <= j < outs.len() ==> picked_kind(#[trigger] states[j]) != Some(PowerUpKind::Slow))
            ==> n.slow_timer == (if g.slow_timer > dt { g.slow_timer - dt } else { 0 }),
        g.power_up matches Some(p) ==> (if p.ttl > dt {
            states[0].power_up == Some(SpawnedPowerUp { ttl: (p.ttl - dt) as u64, ..p })
        } else {
            states[0].power_up is None
        }),
        g.power_up is None ==> states[0].power_up is None,
        states[0].food_flash == (if g.food_flash > dt { g.food_flash - dt } else { 0 }),
        states[0].death_flash == (if g.death_flash > dt { g.death_flash - dt } else { 0 }),
        g.survival_time + dt <= u64::MAX ==> states[0].survival_time == g.survival_time + dt,
        g.step_timer + dt <= u64::MAX ==> states[0].step_timer == g.step_timer + dt,
{
    if forall|j: int| 0 <= j < outs.len() ==> picked_kind(#[trigger] states[j]) != Some(PowerUpKind::Slow) {
        let delay = spec_effective_step_delay(states[0].step_delay, states[0].score, states[0].slow_timer);
        lemma_steps_keep_slow_timer(states, outs, delay, outs.len() as int);
        assert(states.last() == states[outs.len() as int]);
    }
}

/// The flashes fade by `dt` in every frame, down to zero.
pub proof fn lemma_flashes_fade(g: Game, t: Game, dt: u64)
    requires
        flashes_faded(g, t, dt),
    ensures
        t.food_flash == (if g.food_flash > dt { g.food_flash - dt } else { 0 }),
        t.death_flash == (if g.death_flash > dt { g.death_flash - dt } else { 0 }),
        g.food_flash > 0 && dt > 0 ==> t.food_flash < g.food_flash,
        g.death_flash > 0 && dt > 0 ==> t.death_flash < g.death_flash,
{
}

/// The steps of a frame keep the mode and the challenge.
proof fn lemma_steps_keep_mode(
    states: Seq<Game>,
    outs: Seq<(Option<AudioCue>, Seq<Burst>, bool)>,
    delay: u64,
    k: int,
)
    requires
        states.len() == outs.len() + 1,
        forall|i: int| 0 <= i < outs.len() ==> #[trigger] step_ok(states, outs, i, delay),
        0 <= k <= outs.len(),
    ensures
        states[k].mode == states[0].mode,
        states[k].challenge == states[0].challenge,
    decreases k,
{
    if k > 0 {
        lemma_steps_keep_mode(states, outs, delay, k - 1);
        assert(step_ok(states, outs, k - 1, delay));
    }
}

/// In challenge mode a frame that ends its steps still playing with the
/// round's goal reached (60 seconds survived, 20 foods, or a score of 120)
/// clears the round; a frame in arcade mode never does, and only a frame
/// in challenge mode ends in the challenge-clear phase.
pub proof fn lemma_met_challenge_clears(
    g: Game,
    n: Game,
    dt: u64,
    cues: Seq<AudioCue>,
    bursts: Seq<Burst>,
    changed: bool,
    states: Seq<Game>,
    outs: Seq<(Option<AudioCue>, Seq<Burst>, bool)>,
    checked: bool,
)
    requires
        played_frame(g, n, dt, cues, bursts, changed, states, outs, checked),
    ensures
        g.mode == GameMode::Challenge && states.last().phase == Phase::Playing ==> {
            &&& g.challenge == ChallengeKind::Survive60 && states.last().survival_time >= 60_000_000
                ==> n.phase == Phase::ChallengeClear
            &&& g.challenge == ChallengeKind::Collect20 && states.last().foods_eaten >= 20
                ==> n.phase == Phase::ChallengeClear
            &&& g.challenge == ChallengeKind::NoWallHits && states.last().score >= 120
                ==> n.phase == Phase::ChallengeClear
        },
        g.mode == GameMode::Arcade ==> n == states.last() && !checked,
        n.phase == Phase::ChallengeClear && states.last().phase != Phase::ChallengeClear ==> g.mode == GameMode::Challenge,
{
    let delay = spec_effective_step_delay(states[0].step_delay, states[0].score, states[0].slow_timer);
    lemma_steps_keep_mode(states, outs, delay, outs.len() as int);
    assert(states.last() == states[outs.len() as int]);
    lemma_challenge_goals(states.last());
}

} // verus!
