//! The fixed poses used for screenshots.

use vstd::prelude::*;

use crate::grid::{in_bounds, Cell, Direction};
use crate::kinds::{HazardPattern, Phase, PowerUpKind, SpawnedPowerUp};
use crate::pace::{spec_speed_for_score, speed_for_score};
use crate::game::state::Game;

verus! {

/// The snake of the playing showcase, head first.
pub open spec fn showcase_playing_snake() -> Seq<Cell> {
    seq![
        Cell { x: 15, y: 10 },
        Cell { x: 14, y: 10 },
        Cell { x: 13, y: 10 },
        Cell { x: 12, y: 10 },
        Cell { x: 11, y: 10 },
        Cell { x: 11, y: 11 },
        Cell { x: 11, y: 12 },
        Cell { x: 12, y: 12 },
        Cell { x: 13, y: 12 },
        Cell { x: 14, y: 12 },
        Cell { x: 14, y: 13 },
        Cell { x: 14, y: 14 },
    ]
}

/// The snake of the game-over showcase, head first.
pub open spec fn showcase_game_over_snake() -> Seq<Cell> {
    seq![
        Cell { x: 9, y: 3 },
        Cell { x: 9, y: 4 },
        Cell { x: 9, y: 5 },
        Cell { x: 9, y: 6 },
        Cell { x: 10, y: 6 },
        Cell { x: 11, y: 6 },
        Cell { x: 11, y: 5 },
        Cell { x: 11, y: 4 },
        Cell { x: 10, y: 4 },
        Cell { x: 10, y: 5 },
    ]
}

impl Game {
    /// Poses a round in play for screenshots: a twelve-cell snake heading
    /// right, score 120 of best 240, twelve foods, a shield and 6.4 s of
    /// double score, three bombs (also the layout), a slow-down pick-up,
    /// and at least three rounds played.
    pub fn configure_showcase_playing(&mut self)
        ensures
            final(self).wf(),
            final(self).phase == Phase::Playing,
            final(self).rounds_played == (if old(self).rounds_played < 3 { 3 } else { old(self).rounds_played }),
            final(self).direction == Direction::Right,
            final(self).queued_direction is None,
            final(self).score == 120,
            final(self).best_score == 240,
            final(self).foods_eaten == 12,
            final(self).shield_active,
            final(self).multiplier_timer == 6_400_000,
            final(self).slow_timer == 0,
            final(self).step_delay == spec_speed_for_score(120),
            final(self).step_timer == 0,
            final(self).food_flash == 240_000,
            final(self).death_flash == 0,
            final(self).snake@ == showcase_playing_snake(),
            final(self).food == (Cell { x: 18, y: 8 }),
            final(self).bombs@ == seq![Cell { x: 7, y: 7 }, Cell { x: 18, y: 16 }, Cell { x: 8, y: 17 }],
            final(self).hazard_pattern == HazardPattern::DiamondRun,
            final(self).hazard_layout@ == final(self).bombs@,
            final(self).power_up == Some(SpawnedPowerUp { kind: PowerUpKind::Slow, position: Cell { x: 5, y: 13 }, ttl: 7_000_000 }),
            final(self).mode == old(self).mode,
            final(self).challenge == old(self).challenge,
            final(self).survival_time == old(self).survival_time,
            final(self).high_scores == old(self).high_scores,
            final(self).score_recorded == old(self).score_recorded,
    {
        self.phase = Phase::Playing;
        if self.rounds_played < 3 {
            self.rounds_played = 3;
        }
        self.direction = Direction::Right;
        self.queued_direction = None;
        self.score = 120;
        self.best_score = 240;
        self.foods_eaten = 12;
        self.shield_active = true;
        self.multiplier_timer = 6_400_000;
        self.slow_timer = 0;
        self.step_delay = speed_for_score(self.score);
        self.step_timer = 0;
        self.food_flash = 240_000;
        self.death_flash = 0;
        self.snake = vec![
            Cell { x: 15, y: 10 },
            Cell { x: 14, y: 10 },
            Cell { x: 13, y: 10 },
            Cell { x: 12, y: 10 },
            Cell { x: 11, y: 10 },
            Cell { x: 11, y: 11 },
            Cell { x: 11, y: 12 },
            Cell { x: 12, y: 12 },
            Cell { x: 13, y: 12 },
            Cell { x: 14, y: 12 },
            Cell { x: 14, y: 13 },
            Cell { x: 14, y: 14 },
        ];
        assert(self.snake@ =~= showcase_playing_snake());
        self.food = Cell { x: 18, y: 8 };
        self.bombs = vec![Cell { x: 7, y: 7 }, Cell { x: 18, y: 16 }, Cell { x: 8, y: 17 }];
        self.hazard_pattern = HazardPattern::DiamondRun;
        self.hazard_layout = self.bombs.clone();
        self.power_up = Some(
            SpawnedPowerUp { kind: PowerUpKind::Slow, position: Cell { x: 5, y: 13 }, ttl: 7_000_000 },
        );
        proof {
            lemma_showcase_snakes_valid();
        }
    }

    /// Poses a finished round for screenshots: the playing showcase, then
    /// game over with score 190 of best 260 after nineteen foods, no
    /// effects, a ten-cell snake heading up, other bombs (also the layout)
    /// and no pick-up.
    pub fn configure_showcase_game_over(&mut self)
        ensures
            final(self).wf(),
            final(self).phase == Phase::GameOver,
            final(self).rounds_played == (if old(self).rounds_played < 3 { 3 } else { old(self).rounds_played }),
            final(self).direction == Direction::Up,
            final(self).queued_direction is None,
            final(self).score == 190,
            final(self).best_score == 260,
            final(self).foods_eaten == 19,
            !final(self).shield_active,
            final(self).multiplier_timer == 0,
            final(self).slow_timer == 0,
            final(self).step_delay == spec_speed_for_score(120),
            final(self).step_timer == 0,
            final(self).food_flash == 0,
            final(self).death_flash == 250_000,
            final(self).snake@ == showcase_game_over_snake(),
            final(self).food == (Cell { x: 15, y: 14 }),
            final(self).bombs@ == seq![Cell { x: 12, y: 10 }, Cell { x: 16, y: 7 }, Cell { x: 5, y: 15 }],
            final(self).hazard_pattern == HazardPattern::CornerHooks,
            final(self).hazard_layout@ == final(self).bombs@,
            final(self).power_up is None,
            final(self).mode == old(self).mode,
            final(self).challenge == old(self).challenge,
            final(self).survival_time == old(self).survival_time,
            final(self).high_scores == old(self).high_scores,
            final(self).score_recorded == old(self).score_recorded,
    {
        self.configure_showcase_playing();
        self.phase = Phase::GameOver;
        self.score = 190;
        self.best_score = 260;
        self.foods_eaten = 19;
        self.shield_active = false;
        self.multiplier_timer = 0;
        self.slow_timer = 0;
        self.death_flash = 250_000;
        self.food_flash = 0;
        self.direction = Direction::Up;
        self.snake = vec![
            Cell { x: 9, y: 3 },
            Cell { x: 9, y: 4 },
            Cell { x: 9, y: 5 },
            Cell { x: 9, y: 6 },
            Cell { x: 10, y: 6 },
            Cell { x: 11, y: 6 },
            Cell { x: 11, y: 5 },
            Cell { x: 11, y: 4 },
            Cell { x: 10, y: 4 },
            Cell { x: 10, y: 5 },
        ];
        assert(self.snake@ =~= showcase_game_over_snake());
        self.food = Cell { x: 15, y: 14 };
        self.bombs = vec![Cell { x: 12, y: 10 }, Cell { x: 16, y: 7 }, Cell { x: 5, y: 15 }];
        self.hazard_pattern = HazardPattern::CornerHooks;
        self.hazard_layout = self.bombs.clone();
        self.power_up = None;
        proof {
            lemma_showcase_snakes_valid();
        }
    }
}

/// Both showcase snakes lie on the board without overlaps.
proof fn lemma_showcase_snakes_valid()
    ensures
        showcase_playing_snake().no_duplicates(),
        showcase_game_over_snake().no_duplicates(),
        forall|i: int| 0 <= i < showcase_playing_snake().len() ==> in_bounds(#[trigger] showcase_playing_snake()[i]),
        forall|i: int| 0 <= i < showcase_game_over_snake().len() ==> in_bounds(#[trigger] showcase_game_over_snake()[i]),
{
    let p = showcase_playing_snake();
    let q = showcase_game_over_snake();
    assert(p.no_duplicates());
    assert(q.no_duplicates());
}

} // verus!
