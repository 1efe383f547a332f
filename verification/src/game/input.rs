//! The keys of a frame and what each does.

use vstd::prelude::*;

use crate::grid::{spec_opposite, Cell, Direction};
use crate::kinds::{AudioCue, GameMode, Phase};
use crate::game::state::Game;
use crate::game::round::{queued_turn, started_round};

verus! {

/// The keys pressed in a frame, as the game reads them: Enter or Space
/// (confirm), Escape (pause), R (restart), M (mode) and the first heading
/// among Up/W, Down/S, Left/A, Right/D.
#[derive(Clone, Copy, Debug, PartialEq, Eq, Structural)]
pub struct InputState {
    pub confirm: bool,
    pub pause: bool,
    pub restart: bool,
    pub toggle_mode: bool,
    pub direction: Option<Direction>,
}

/// The heading asked for by the direction keys: up first, then down, left
/// and right.
pub fn direction_from_keys(up: bool, down: bool, left: bool, right: bool) -> (d: Option<Direction>)
    ensures
        up ==> d == Some(Direction::Up),
        !up && down ==> d == Some(Direction::Down),
        !up && !down && left ==> d == Some(Direction::Left),
        !up && !down && !left && right ==> d == Some(Direction::Right),
        !up && !down && !left && !right ==> d is None,
{
    if up {
        Some(Direction::Up)
    } else if down {
        Some(Direction::Down)
    } else if left {
        Some(Direction::Left)
    } else if right {
        Some(Direction::Right)
    } else {
        None
    }
}

/// The phases in which the game waits on a menu screen.
pub open spec fn in_menu(p: Phase) -> bool {
    p == Phase::Title || p == Phase::GameOver || p == Phase::ChallengeClear
}

/// The mode key: on a menu screen it switches the mode.
pub open spec fn mode_key(g: Game, n: Game, pressed: bool, cue: bool) -> bool {
    &&& cue == (pressed && in_menu(g.phase))
    &&& cue ==> n == Game { mode: if g.mode == GameMode::Arcade { GameMode::Challenge } else { GameMode::Arcade }, ..g }
    &&& !cue ==> n == g
}

/// The confirm key: a menu starts the next round, a pause resumes.
pub open spec fn confirm_key(g: Game, n: Game, pressed: bool, cue: bool) -> bool {
    &&& cue == pressed
    &&& if pressed && in_menu(g.phase) {
        started_round(g, n)
    } else if pressed && g.phase == Phase::Paused {
        n == Game { phase: Phase::Playing, ..g }
    } else {
        n == g
    }
}

/// The pause key: play pauses and a pause resumes.
pub open spec fn pause_key(g: Game, n: Game, pressed: bool, cue: bool) -> bool {
    &&& cue == pressed
    &&& if pressed && g.phase == Phase::Playing {
        n == Game { phase: Phase::Paused, ..g }
    } else if pressed && g.phase == Phase::Paused {
        n == Game { phase: Phase::Playing, ..g }
    } else {
        n == g
    }
}

/// The restart key: the next round starts at once.
pub open spec fn restart_key(g: Game, n: Game, pressed: bool, cue: bool) -> bool {
    &&& cue == pressed
    &&& pressed ==> started_round(g, n)
    &&& !pressed ==> n == g
}

/// A direction key: in play it queues a turn; on a menu it starts the next
/// round and then asks for the turn.
pub open spec fn direction_key(g: Game, n: Game, d: Option<Direction>, cue: bool) -> bool {
    match d {
        Some(dir) => if g.phase == Phase::Playing {
            queued_turn(g, n, dir, cue)
        } else if in_menu(g.phase) {
            &&& cue
            &&& exists|m: Game, q: bool| #![trigger started_round(g, m), queued_turn(m, n, dir, q)] started_round(g, m) && queued_turn(m, n, dir, q)
        } else {
            &&& n == g
            &&& !cue
        },
        None => {
            &&& n == g
            &&& !cue
        },
    }
}

/// How many rounds the keys `input` start from `g`: confirm on a menu
/// screen starts one, restart starts one, and a direction starts one on a
/// menu screen when neither of those was pressed.
pub open spec fn rounds_started(g: Game, input: InputState) -> nat {
    (if input.confirm && in_menu(g.phase) { 1nat } else { 0nat })
    + (if input.restart { 1nat } else { 0nat })
    + (if input.direction is Some && in_menu(g.phase) && !input.confirm && !input.restart { 1nat } else { 0nat })
}

/// The number of `true` among five flags.
pub open spec fn count_true(a: bool, b: bool, c: bool, d: bool, e: bool) -> nat {
    (if a { 1nat } else { 0nat }) + (if b { 1nat } else { 0nat }) + (if c { 1nat } else { 0nat }) + (if d { 1nat } else { 0nat }) + (if e { 1nat } else { 0nat })
}

impl Game {
    fn press_mode(&mut self, pressed: bool) -> (cue: bool)
        requires
            old(self).wf(),
        ensures
            mode_key(*old(self), *final(self), pressed, cue),
            final(self).wf(),
    {
        let cue = pressed && (self.phase == Phase::Title || self.phase == Phase::GameOver
            || self.phase == Phase::ChallengeClear);
        if cue {
            self.mode = self.mode.toggled();
        }
        cue
    }

    fn press_confirm(&mut self, pressed: bool) -> (cue: bool)
        requires
            old(self).wf(),
            pressed && in_menu(old(self).phase) ==> old(self).rounds_played < u32::MAX,
        ensures
            confirm_key(*old(self), *final(self), pressed, cue),
            final(self).wf(),
            final(self).rounds_played == old(self).rounds_played || (final(self).rounds_played
                == old(self).rounds_played + 1 && final(self).phase == Phase::Playing),
    {
        if pressed {
            match self.phase {
                Phase::Title | Phase::GameOver | Phase::ChallengeClear => self.start_round(),
                Phase::Paused => self.phase = Phase::Playing,
                Phase::Playing => {},
            }
        }
        pressed
    }

    fn press_pause(&mut self, pressed: bool) -> (cue: bool)
        requires
            old(self).wf(),
        ensures
            pause_key(*old(self), *final(self), pressed, cue),
            final(self).wf(),
    {
        if pressed {
            match self.phase {
                Phase::Playing => self.phase = Phase::Paused,
                Phase::Paused => self.phase = Phase::Playing,
                Phase::Title | Phase::GameOver | Phase::ChallengeClear => {},
            }
        }
        pressed
    }

    fn press_restart(&mut self, pressed: bool) -> (cue: bool)
        requires
            old(self).wf(),
            pressed ==> old(self).rounds_played < u32::MAX,
        ensures
            restart_key(*old(self), *final(self), pressed, cue),
            final(self).wf(),
    {
        if pressed {
            self.start_round();
        }
        pressed
    }

    fn press_direction(&mut self, d: Option<Direction>) -> (cue: bool)
        requires
            old(self).wf(),
            d is Some && in_menu(old(self).phase) ==> old(self).rounds_played < u32::MAX,
        ensures
            direction_key(*old(self), *final(self), d, cue),
            final(self).wf(),
    {
        match d {
            Some(next_direction) => {
                match self.phase {
                    Phase::Playing => self.queue_direction(next_direction),
                    Phase::Title | Phase::GameOver | Phase::ChallengeClear => {
                        let ghost g = *self;
                        self.start_round();
                        let ghost m = *self;
                        let q = self.queue_direction(next_direction);
                        assert(started_round(g, m) && queued_turn(m, *self, next_direction, q));
                        true
                    },
                    Phase::Paused => false,
                }
            },
            None => false,
        }
    }

    /// How many rounds the keys `input` would start, each of which counts
    /// one more round played.
    pub fn rounds_started_by(&self, input: InputState) -> (n: u32)
        ensures
            n == rounds_started(*self, input),
    {
        let menu = self.phase == Phase::Title || self.phase == Phase::GameOver
            || self.phase == Phase::ChallengeClear;
        let mut n: u32 = 0;
        if input.confirm && menu {
            n = n + 1;
        }
        if input.restart {
            n = n + 1;
        }
        if input.direction.is_some() && menu && !input.confirm && !input.restart {
            n = n + 1;
        }
        n
    }

    /// The keys of a frame, handled in turn: the mode key, confirm, pause,
    /// restart, then a direction. Each key that does something asks for a
    /// key click (a direction only when it queues a turn, or starts a
    /// round).
    pub fn handle_input(&mut self, input: InputState) -> (cues: Vec<AudioCue>)
        requires
            old(self).wf(),
            old(self).rounds_played + rounds_started(*old(self), input) <= u32::MAX,
        ensures
            final(self).wf(),
            exists|s1: Game, s2: Game, s3: Game, s4: Game, c1: bool, c2: bool, c3: bool, c4: bool, c5: bool|
                #[trigger] input_chain(*old(self), s1, s2, s3, s4, *final(self), input, c1, c2, c3, c4, c5)
                && cues@.len() == count_true(c1, c2, c3, c4, c5),
            forall|i: int| 0 <= i < cues@.len() ==> cues@[i] == AudioCue::Key,
    {
        let mut cues: Vec<AudioCue> = Vec::new();
        let ghost g0 = *self;
        let c1 = self.press_mode(input.toggle_mode);
        if c1 {
            cues.push(AudioCue::Key);
        }
        let ghost s1 = *self;
        let c2 = self.press_confirm(input.confirm);
        if c2 {
            cues.push(AudioCue::Key);
        }
        let ghost s2 = *self;
        let c3 = self.press_pause(input.pause);
        if c3 {
            cues.push(AudioCue::Key);
        }
        let ghost s3 = *self;
        let c4 = self.press_restart(input.restart);
        if c4 {
            cues.push(AudioCue::Key);
        }
        let ghost s4 = *self;
        let c5 = self.press_direction(input.direction);
        if c5 {
            cues.push(AudioCue::Key);
        }
        proof {
            assert(input_chain(g0, s1, s2, s3, s4, *self, input, c1, c2, c3, c4, c5));
        }
        cues
    }
}

/// The five key stages of a frame, through the states between them.
pub open spec fn input_chain(
    g: Game,
    s1: Game,
    s2: Game,
    s3: Game,
    s4: Game,
    n: Game,
    input: InputState,
    c1: bool,
    c2: bool,
    c3: bool,
    c4: bool,
    c5: bool,
) -> bool {
    &&& mode_key(g, s1, input.toggle_mode, c1)
    &&& confirm_key(s1, s2, input.confirm, c2)
    &&& pause_key(s2, s3, input.pause, c3)
    &&& restart_key(s3, s4, input.restart, c4)
    &&& direction_key(s4, n, input.direction, c5)
}

/// Switching the mode twice gives back the mode one started with.
pub proof fn lemma_mode_toggle_twice(g: Game, n: Game, m: Game)
    requires
        mode_key(g, n, true, true),
        mode_key(n, m, true, true),
    ensures
        m == g,
{
}

/// Pressing pause twice in play gives back the game one started with.
pub proof fn lemma_pause_twice(g: Game, n: Game, m: Game)
    requires
        g.phase == Phase::Playing,
        pause_key(g, n, true, true),
        pause_key(n, m, true, true),
    ensures
        m == g,
        n.phase == Phase::Paused,
{
}

/// Pressing only confirm on the title, game-over or challenge-clear screen
/// starts the next round: the game is playing a fresh round, numbered one
/// more than before, with the starting snake heading right, no score, no
/// food eaten and no effects, and one key click sounds.
pub proof fn lemma_confirm_starts_round(
    g: Game,
    s1: Game,
    s2: Game,
    s3: Game,
    s4: Game,
    n: Game,
    c1: bool,
    c2: bool,
    c3: bool,
    c4: bool,
    c5: bool,
)
    requires
        g.phase == Phase::Title || g.phase == Phase::GameOver || g.phase == Phase::ChallengeClear,
        input_chain(
            g,
            s1,
            s2,
            s3,
            s4,
            n,
            InputState { confirm: true, pause: false, restart: false, toggle_mode: false, direction: None },
            c1,
            c2,
            c3,
            c4,
            c5,
        ),
    ensures
        n.phase == Phase::Playing,
        n.rounds_played == g.rounds_played + 1,
        n.snake@ == seq![
            Cell { x: 12, y: 12 },
            Cell { x: 11, y: 12 },
            Cell { x: 10, y: 12 },
            Cell { x: 9, y: 12 },
            Cell { x: 8, y: 12 },
        ],
        n.direction == Direction::Right,
        n.score == 0,
        n.foods_eaten == 0,
        !n.shield_active && n.multiplier_timer == 0 && n.slow_timer == 0,
        n.mode == g.mode,
        n.high_scores@ == g.high_scores@,
        count_true(c1, c2, c3, c4, c5) == 1,
{
}

/// Pressing only confirm while paused resumes play, changing nothing else.
pub proof fn lemma_confirm_resumes(
    g: Game,
    s1: Game,
    s2: Game,
    s3: Game,
    s4: Game,
    n: Game,
    c1: bool,
    c2: bool,
    c3: bool,
    c4: bool,
    c5: bool,
)
    requires
        g.phase == Phase::Paused,
        input_chain(
            g,
            s1,
            s2,
            s3,
            s4,
            n,
            InputState { confirm: true, pause: false, restart: false, toggle_mode: false, direction: None },
            c1,
            c2,
            c3,
            c4,
            c5,
        ),
    ensures
        n == (Game { phase: Phase::Playing, ..g }),
        count_true(c1, c2, c3, c4, c5) == 1,
{
}

/// Pressing only restart starts the next round from any screen.
pub proof fn lemma_restart_starts_round(
    g: Game,
    s1: Game,
    s2: Game,
    s3: Game,
    s4: Game,
    n: Game,
    c1: bool,
    c2: bool,
    c3: bool,
    c4: bool,
    c5: bool,
)
    requires
        input_chain(
            g,
            s1,
            s2,
            s3,
            s4,
            n,
            InputState { confirm: false, pause: false, restart: true, toggle_mode: false, direction: None },
            c1,
            c2,
            c3,
            c4,
            c5,
        ),
    ensures
        n.phase == Phase::Playing,
        n.rounds_played == g.rounds_played + 1,
        n.score == 0,
        n.foods_eaten == 0,
        n.direction == Direction::Right,
        n.snake@.len() == 5,
        count_true(c1, c2, c3, c4, c5) == 1,
{
}

/// Pressing only pause pauses play and resumes a pause, changing nothing
/// else; on a menu screen it does nothing and stays silent.
pub proof fn lemma_pause_toggles_play(
    g: Game,
    s1: Game,
    s2: Game,
    s3: Game,
    s4: Game,
    n: Game,
    c1: bool,
    c2: bool,
    c3: bool,
    c4: bool,
    c5: bool,
)
    requires
        input_chain(
            g,
            s1,
            s2,
            s3,
            s4,
            n,
            InputState { confirm: false, pause: true, restart: false, toggle_mode: false, direction: None },
            c1,
            c2,
            c3,
            c4,
            c5,
        ),
    ensures
        g.phase == Phase::Playing ==> n == (Game { phase: Phase::Paused, ..g }),
        g.phase == Phase::Paused ==> n == (Game { phase: Phase::Playing, ..g }),
        g.phase == Phase::Title || g.phase == Phase::GameOver || g.phase == Phase::ChallengeClear ==> n == g,
        count_true(c1, c2, c3, c4, c5) == 1,
{
}

/// Pressing only the mode key switches between arcade and challenge on a
/// menu screen, changing nothing else; elsewhere it does nothing.
pub proof fn lemma_mode_key_switches(
    g: Game,
    s1: Game,
    s2: Game,
    s3: Game,
    s4: Game,
    n: Game,
    c1: bool,
    c2: bool,
    c3: bool,
    c4: bool,
    c5: bool,
)
    requires
        input_chain(
            g,
            s1,
            s2,
            s3,
            s4,
            n,
            InputState { confirm: false, pause: false, restart: false, toggle_mode: true, direction: None },
            c1,
            c2,
            c3,
            c4,
            c5,
        ),
    ensures
        g.phase == Phase::Title || g.phase == Phase::GameOver || g.phase == Phase::ChallengeClear ==> {
            &&& n.mode != g.mode
            &&& n == (Game { mode: n.mode, ..g })
            &&& count_true(c1, c2, c3, c4, c5) == 1
        },
        g.phase == Phase::Playing || g.phase == Phase::Paused ==> n == g && count_true(c1, c2, c3, c4, c5) == 0,
{
}

/// Pressing only a direction in play queues it when nothing is queued and
/// it neither repeats nor reverses the heading, and changes nothing else;
/// on a menu screen it starts the next round.
pub proof fn lemma_direction_key(
    g: Game,
    s1: Game,
    s2: Game,
    s3: Game,
    s4: Game,
    n: Game,
    c1: bool,
    c2: bool,
    c3: bool,
    c4: bool,
    c5: bool,
    d: Direction,
)
    requires
        input_chain(
            g,
            s1,
            s2,
            s3,
            s4,
            n,
            InputState { confirm: false, pause: false, restart: false, toggle_mode: false, direction: Some(d) },
            c1,
            c2,
            c3,
            c4,
            c5,
        ),
    ensures
        g.phase == Phase::Playing && g.queued_direction is None && d != g.direction && d != spec_opposite(g.direction)
            ==> n == (Game { queued_direction: Some(d), ..g }),
        g.phase == Phase::Playing && g.queued_direction is None && (d == g.direction || d == spec_opposite(g.direction))
            ==> n == g,
        g.phase == Phase::Paused ==> n == g,
        g.phase == Phase::Title || g.phase == Phase::GameOver || g.phase == Phase::ChallengeClear ==> {
            &&& n.phase == Phase::Playing
            &&& n.rounds_played == g.rounds_played + 1
            &&& n.score == 0
        },
{
}

} // verus!
