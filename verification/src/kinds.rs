//! The small enumerations of the game: phases, modes, challenges, level
//! themes, hazard patterns, sound cues and power-ups.

use vstd::prelude::*;

use crate::grid::Cell;

verus! {

/// Where the game stands between frames.
#[derive(Clone, Copy, Debug, PartialEq, Eq, Structural)]
pub enum Phase {
    Title,
    Playing,
    Paused,
    GameOver,
    ChallengeClear,
}

/// Free play, or a round with a goal to reach.
#[derive(Clone, Copy, Debug, PartialEq, Eq, Structural)]
pub enum GameMode {
    Arcade,
    Challenge,
}

impl GameMode {
    /// The name shown for this mode.
    pub fn label(self) -> (s: &'static str)
        ensures
            self == GameMode::Arcade ==> s@ == "Arcade"@,
            self == GameMode::Challenge ==> s@ == "Challenge"@,
    {
        match self {
            GameMode::Arcade => "Arcade",
            GameMode::Challenge => "Challenge",
        }
    }

    /// The other mode.
    pub fn toggled(self) -> (m: GameMode)
        ensures
            m != self,
    {
        match self {
            GameMode::Arcade => GameMode::Challenge,
            GameMode::Challenge => GameMode::Arcade,
        }
    }
}

/// The goal of a challenge round.
#[derive(Clone, Copy, Debug, PartialEq, Eq, Structural)]
pub enum ChallengeKind {
    Survive60,
    Collect20,
    NoWallHits,
}

/// `round - 1`, and 0 for round 0 (a saturating subtraction).
pub open spec fn rounds_before(round_number: u32) -> nat {
    if round_number == 0 {
        0
    } else {
        (round_number - 1) as nat
    }
}

/// The challenge of a round: the three kinds in turn, starting with the
/// first round.
pub open spec fn spec_challenge_for_round(round_number: u32) -> ChallengeKind {
    let k = rounds_before(round_number) % 3;
    if k == 0 {
        ChallengeKind::Survive60
    } else if k == 1 {
        ChallengeKind::Collect20
    } else {
        ChallengeKind::NoWallHits
    }
}

impl ChallengeKind {
    /// The challenge of the round with this number.
    pub fn for_round(round_number: u32) -> (k: ChallengeKind)
        ensures
            k == spec_challenge_for_round(round_number),
    {
        let before: u32 = round_number.saturating_sub(1);
        match before % 3 {
            0 => ChallengeKind::Survive60,
            1 => ChallengeKind::Collect20,
            _ => ChallengeKind::NoWallHits,
        }
    }

    /// The short name of the challenge.
    pub fn title(self) -> (s: &'static str)
        ensures
            self == ChallengeKind::Survive60 ==> s@ == "Survive 60"@,
            self == ChallengeKind::Collect20 ==> s@ == "Collect 20"@,
            self == ChallengeKind::NoWallHits ==> s@ == "No Wall Hits"@,
    {
        match self {
            ChallengeKind::Survive60 => "Survive 60",
            ChallengeKind::Collect20 => "Collect 20",
            ChallengeKind::NoWallHits => "No Wall Hits",
        }
    }

    /// The one-line description of the challenge.
    pub fn detail(self) -> (s: &'static str)
        ensures
            self == ChallengeKind::Survive60 ==> s@ == "Stay alive for 60 seconds."@,
            self == ChallengeKind::Collect20 ==> s@ == "Collect 20 food in one run."@,
            self == ChallengeKind::NoWallHits ==> s@ == "Reach 120 score without a wall hit."@,
    {
        match self {
            ChallengeKind::Survive60 => "Stay alive for 60 seconds.",
            ChallengeKind::Collect20 => "Collect 20 food in one run.",
            ChallengeKind::NoWallHits => "Reach 120 score without a wall hit.",
        }
    }
}

/// The look and pace of the board, chosen by the score.
#[derive(Clone, Copy, Debug, PartialEq, Eq, Structural)]
pub enum LevelTheme {
    Afterglow,
    Voltage,
    Overdrive,
    Singularity,
}

/// The theme of a score: below 80, below 180, below 320, and the rest.
pub open spec fn spec_theme_for_score(score: u32) -> LevelTheme {
    if score < 80 {
        LevelTheme::Afterglow
    } else if score < 180 {
        LevelTheme::Voltage
    } else if score < 320 {
        LevelTheme::Overdrive
    } else {
        LevelTheme::Singularity
    }
}

/// The score at which the theme after `t` begins, if there is one.
pub open spec fn spec_next_threshold(t: LevelTheme) -> Option<u32> {
    match t {
        LevelTheme::Afterglow => Some(80u32),
        LevelTheme::Voltage => Some(180u32),
        LevelTheme::Overdrive => Some(320u32),
        LevelTheme::Singularity => None,
    }
}

/// The step delay of a theme, in percent of the plain delay.
pub open spec fn spec_speed_percent(t: LevelTheme) -> u64 {
    match t {
        LevelTheme::Afterglow => 100,
        LevelTheme::Voltage => 96,
        LevelTheme::Overdrive => 92,
        LevelTheme::Singularity => 88,
    }
}

/// The rank of a theme, from 0 for the calmest to 3.
pub open spec fn theme_rank(t: LevelTheme) -> int {
    match t {
        LevelTheme::Afterglow => 0,
        LevelTheme::Voltage => 1,
        LevelTheme::Overdrive => 2,
        LevelTheme::Singularity => 3,
    }
}

impl LevelTheme {
    /// The theme of a score.
    pub fn for_score(score: u32) -> (t: LevelTheme)
        ensures
            t == spec_theme_for_score(score),
    {
        if score <= 79 {
            LevelTheme::Afterglow
        } else if score <= 179 {
            LevelTheme::Voltage
        } else if score <= 319 {
            LevelTheme::Overdrive
        } else {
            LevelTheme::Singularity
        }
    }

    /// The name shown for this theme.
    pub fn name(self) -> (s: &'static str)
        ensures
            self == LevelTheme::Afterglow ==> s@ == "Afterglow"@,
            self == LevelTheme::Voltage ==> s@ == "Voltage"@,
            self == LevelTheme::Overdrive ==> s@ == "Overdrive"@,
            self == LevelTheme::Singularity ==> s@ == "Singularity"@,
    {
        match self {
            LevelTheme::Afterglow => "Afterglow",
            LevelTheme::Voltage => "Voltage",
            LevelTheme::Overdrive => "Overdrive",
            LevelTheme::Singularity => "Singularity",
        }
    }

    /// The score at which the next theme begins; `None` for the last one.
    pub fn next_threshold(self) -> (r: Option<u32>)
        ensures
            r == spec_next_threshold(self),
    {
        match self {
            LevelTheme::Afterglow => Some(80),
            LevelTheme::Voltage => Some(180),
            LevelTheme::Overdrive => Some(320),
            LevelTheme::Singularity => None,
        }
    }

    /// The step delay under this theme, in percent of the plain delay:
    /// 100, 96, 92 and 88.
    pub fn speed_percent(self) -> (p: u64)
        ensures
            p == spec_speed_percent(self),
    {
        match self {
            LevelTheme::Afterglow => 100,
            LevelTheme::Voltage => 96,
            LevelTheme::Overdrive => 92,
            LevelTheme::Singularity => 88,
        }
    }
}

/// The theme never gets calmer as the score grows, a score lies below the
/// threshold of its own theme, and reaching that threshold moves to the
/// next theme.
pub proof fn lemma_theme_progression(a: u32, b: u32)
    ensures
        a <= b ==> theme_rank(spec_theme_for_score(a)) <= theme_rank(spec_theme_for_score(b)),
        spec_next_threshold(spec_theme_for_score(a)) matches Some(t) ==> {
            &&& a < t
            &&& theme_rank(spec_theme_for_score(t)) == theme_rank(spec_theme_for_score(a)) + 1
        },
        spec_next_threshold(spec_theme_for_score(a)) is None <==> a >= 320,
        a <= b ==> spec_speed_percent(spec_theme_for_score(b)) <= spec_speed_percent(spec_theme_for_score(a)),
{
}

/// The arrangement of the fixed bombs of a round.
#[derive(Clone, Copy, Debug, PartialEq, Eq, Structural)]
pub enum HazardPattern {
    SplitGates,
    DiamondRun,
    ReactorLadder,
    CornerHooks,
    Pinwheel,
}

/// The pattern of a round: the five patterns in turn, starting with the
/// first round.
pub open spec fn spec_pattern_for_round(round_number: u32) -> HazardPattern {
    let k = rounds_before(round_number) % 5;
    if k == 0 {
        HazardPattern::SplitGates
    } else if k == 1 {
        HazardPattern::DiamondRun
    } else if k == 2 {
        HazardPattern::ReactorLadder
    } else if k == 3 {
        HazardPattern::CornerHooks
    } else {
        HazardPattern::Pinwheel
    }
}

/// The name shown for a pattern.
pub open spec fn spec_pattern_name(p: HazardPattern) -> Seq<char> {
    match p {
        HazardPattern::SplitGates => "Split Gates"@,
        HazardPattern::DiamondRun => "Diamond Run"@,
        HazardPattern::ReactorLadder => "Reactor Ladder"@,
        HazardPattern::CornerHooks => "Corner Hooks"@,
        HazardPattern::Pinwheel => "Pinwheel"@,
    }
}

impl HazardPattern {
    /// The pattern of the round with this number.
    pub fn for_round(round_number: u32) -> (p: HazardPattern)
        ensures
            p == spec_pattern_for_round(round_number),
    {
        let before: u32 = round_number.saturating_sub(1);
        match before % 5 {
            0 => HazardPattern::SplitGates,
            1 => HazardPattern::DiamondRun,
            2 => HazardPattern::ReactorLadder,
            3 => HazardPattern::CornerHooks,
            _ => HazardPattern::Pinwheel,
        }
    }

    /// The name shown for this pattern.
    pub fn name(self) -> (s: &'static str)
        ensures
            s@ == spec_pattern_name(self),
    {
        match self {
            HazardPattern::SplitGates => "Split Gates",
            HazardPattern::DiamondRun => "Diamond Run",
            HazardPattern::ReactorLadder => "Reactor Ladder",
            HazardPattern::CornerHooks => "Corner Hooks",
            HazardPattern::Pinwheel => "Pinwheel",
        }
    }
}

/// Challenges come back every three rounds and patterns every five, from
/// the first round on.
pub proof fn lemma_rounds_cycle(round_number: u32)
    requires
        1 <= round_number,
        round_number <= u32::MAX - 5,
    ensures
        spec_challenge_for_round((round_number + 3) as u32) == spec_challenge_for_round(round_number),
        spec_pattern_for_round((round_number + 5) as u32) == spec_pattern_for_round(round_number),
        spec_challenge_for_round(1) == ChallengeKind::Survive60,
        spec_pattern_for_round(1) == HazardPattern::SplitGates,
{
    let n = (round_number - 1) as nat;
    assert((n + 3) % 3 == n % 3) by (nonlinear_arith);
    assert((n + 5) % 5 == n % 5) by (nonlinear_arith);
}

/// A sound the game asks to have played.
#[derive(Clone, Copy, Debug, PartialEq, Eq, Structural)]
pub enum AudioCue {
    Key,
    Eat,
    PowerUp,
    Boom,
    GameOver,
}

/// The kinds of pick-up that appear on the board.
#[derive(Clone, Copy, Debug, PartialEq, Eq, Structural)]
pub enum PowerUpKind {
    Shield,
    Double,
    Slow,
}

/// The kind a draw stands for: 0 a shield, 1 double score, anything else
/// a slow-down.
pub open spec fn spec_kind_from_draw(draw: int) -> PowerUpKind {
    if draw == 0 {
        PowerUpKind::Shield
    } else if draw == 1 {
        PowerUpKind::Double
    } else {
        PowerUpKind::Slow
    }
}

impl PowerUpKind {
    /// The kind a draw from `0..3` stands for: 0 a shield, 1 double score,
    /// anything else a slow-down.
    pub fn from_draw(draw: i32) -> (k: PowerUpKind)
        ensures
            k == spec_kind_from_draw(draw as int),
    {
        match draw {
            0 => PowerUpKind::Shield,
            1 => PowerUpKind::Double,
            _ => PowerUpKind::Slow,
        }
    }

    /// The name shown for this power-up.
    pub fn label(self) -> (s: &'static str)
        ensures
            self == PowerUpKind::Shield ==> s@ == "Shield"@,
            self == PowerUpKind::Double ==> s@ == "Double"@,
            self == PowerUpKind::Slow ==> s@ == "Slow"@,
    {
        match self {
            PowerUpKind::Shield => "Shield",
            PowerUpKind::Double => "Double",
            PowerUpKind::Slow => "Slow",
        }
    }

    /// The tag drawn on the pick-up itself.
    pub fn short_label(self) -> (s: &'static str)
        ensures
            self == PowerUpKind::Shield ==> s@ == "S"@,
            self == PowerUpKind::Double ==> s@ == "x2"@,
            self == PowerUpKind::Slow ==> s@ == "SL"@,
    {
        match self {
            PowerUpKind::Shield => "S",
            PowerUpKind::Double => "x2",
            PowerUpKind::Slow => "SL",
        }
    }
}

/// The title and the help text shown over the board in `phase` and `mode`;
/// none while a round is played.
pub fn overlay_text(phase: Phase, mode: GameMode) -> (r: Option<(&'static str, &'static str)>)
    ensures
        phase == Phase::Playing ==> r is None,
        phase == Phase::Title && mode == GameMode::Challenge ==> (r matches Some((t, b)) && t@
            == "Challenge Mode"@ && b@
            == "Press Enter to start the challenge.\nPress M to switch back to arcade mode."@),
        phase == Phase::Title && mode == GameMode::Arcade ==> (r matches Some((t, b)) && t@
            == "Press Enter"@ && b@
            == "Use WASD or arrow keys to start.\nPress M to switch into challenge mode."@),
        phase == Phase::Paused ==> (r matches Some((t, b)) && t@ == "Paused"@ && b@
            == "Take a breath.\nPress Esc, Space, or Enter to resume."@),
        phase == Phase::ChallengeClear ==> (r matches Some((t, b)) && t@ == "Challenge Clear"@ && b@
            == "Press R for a clean restart.\nPress Enter to queue the next challenge."@),
        phase == Phase::GameOver && mode == GameMode::Challenge ==> (r matches Some((t, b)) && t@
            == "Challenge Failed"@ && b@
            == "Press R for a clean restart.\nPress Enter to jump straight back in."@),
        phase == Phase::GameOver && mode == GameMode::Arcade ==> (r matches Some((t, b)) && t@
            == "Round Over"@ && b@
            == "Press R for a clean restart.\nPress Enter to jump straight back in."@),
{
    match phase {
        Phase::Title => match mode {
            GameMode::Challenge => Some(
                (
                    "Challenge Mode",
                    "Press Enter to start the challenge.\nPress M to switch back to arcade mode.",
                ),
            ),
            GameMode::Arcade => Some(
                (
                    "Press Enter",
                    "Use WASD or arrow keys to start.\nPress M to switch into challenge mode.",
                ),
            ),
        },
        Phase::Paused => Some(("Paused", "Take a breath.\nPress Esc, Space, or Enter to resume.")),
        Phase::ChallengeClear => Some(
            ("Challenge Clear", "Press R for a clean restart.\nPress Enter to queue the next challenge."),
        ),
        Phase::GameOver => {
            let title = match mode {
                GameMode::Challenge => "Challenge Failed",
                GameMode::Arcade => "Round Over",
            };
            Some((title, "Press R for a clean restart.\nPress Enter to jump straight back in."))
        },
        Phase::Playing => None,
    }
}

/// The shape a particle of a burst is drawn with.
#[derive(Clone, Copy, Debug, PartialEq, Eq, Structural)]
pub enum ParticleShape {
    Dot,
    Shard,
    Ring,
}

/// A pick-up lying on the board, with the time it has left, in
/// microseconds.
#[derive(Clone, Copy, Debug, PartialEq, Eq, Structural)]
pub struct SpawnedPowerUp {
    pub kind: PowerUpKind,
    pub position: Cell,
    pub ttl: u64,
}

} // verus!
