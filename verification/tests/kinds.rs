use neonsnake::grid::{Cell, Direction};
use neonsnake::hazards::{build_hazard_layout, rotate_offset};
use neonsnake::kinds::{overlay_text, ChallengeKind, GameMode, HazardPattern, LevelTheme, Phase, PowerUpKind};
use neonsnake::pace::{initial_bomb_count, speed_for_score, target_bomb_count};

#[test]
fn direction_opposite_and_vector() {
    let all = [Direction::Up, Direction::Down, Direction::Left, Direction::Right];
    for d in all {
        assert_eq!(d.opposite().opposite(), d);
        assert_ne!(d.opposite(), d);
        let v = d.vector();
        let w = d.opposite().vector();
        assert_eq!((v.x + w.x, v.y + w.y), (0, 0));
    }
    assert_eq!(Direction::Up.vector(), Cell::new(0, -1));
    assert_eq!(Direction::Down.vector(), Cell::new(0, 1));
    assert_eq!(Direction::Left.vector(), Cell::new(-1, 0));
    assert_eq!(Direction::Right.vector(), Cell::new(1, 0));
    assert_eq!(Direction::Up.opposite(), Direction::Down);
    assert_eq!(Direction::Left.opposite(), Direction::Right);
}

#[test]
fn direction_labels() {
    assert_eq!(Direction::Up.label(), "Up");
    assert_eq!(Direction::Down.label(), "Down");
    assert_eq!(Direction::Left.label(), "Left");
    assert_eq!(Direction::Right.label(), "Right");
}

#[test]
fn mode_label_and_toggle() {
    assert_eq!(GameMode::Arcade.label(), "Arcade");
    assert_eq!(GameMode::Challenge.label(), "Challenge");
    assert_eq!(GameMode::Arcade.toggled(), GameMode::Challenge);
    assert_eq!(GameMode::Challenge.toggled(), GameMode::Arcade);
    assert_eq!(GameMode::Arcade.toggled().toggled(), GameMode::Arcade);
}

#[test]
fn challenges_cycle_by_round() {
    assert_eq!(ChallengeKind::for_round(0), ChallengeKind::Survive60);
    assert_eq!(ChallengeKind::for_round(1), ChallengeKind::Survive60);
    assert_eq!(ChallengeKind::for_round(2), ChallengeKind::Collect20);
    assert_eq!(ChallengeKind::for_round(3), ChallengeKind::NoWallHits);
    assert_eq!(ChallengeKind::for_round(4), ChallengeKind::Survive60);
    assert_eq!(ChallengeKind::for_round(u32::MAX), ChallengeKind::for_round(u32::MAX - 3));
    assert_eq!(ChallengeKind::Survive60.title(), "Survive 60");
    assert_eq!(ChallengeKind::Collect20.title(), "Collect 20");
    assert_eq!(ChallengeKind::NoWallHits.title(), "No Wall Hits");
    assert_eq!(ChallengeKind::Survive60.detail(), "Stay alive for 60 seconds.");
    assert_eq!(ChallengeKind::Collect20.detail(), "Collect 20 food in one run.");
    assert_eq!(ChallengeKind::NoWallHits.detail(), "Reach 120 score without a wall hit.");
}

#[test]
fn themes_by_score() {
    assert_eq!(LevelTheme::for_score(0), LevelTheme::Afterglow);
    assert_eq!(LevelTheme::for_score(79), LevelTheme::Afterglow);
    assert_eq!(LevelTheme::for_score(80), LevelTheme::Voltage);
    assert_eq!(LevelTheme::for_score(179), LevelTheme::Voltage);
    assert_eq!(LevelTheme::for_score(180), LevelTheme::Overdrive);
    assert_eq!(LevelTheme::for_score(319), LevelTheme::Overdrive);
    assert_eq!(LevelTheme::for_score(320), LevelTheme::Singularity);
    assert_eq!(LevelTheme::for_score(u32::MAX), LevelTheme::Singularity);
    assert_eq!(LevelTheme::Afterglow.next_threshold(), Some(80));
    assert_eq!(LevelTheme::Voltage.next_threshold(), Some(180));
    assert_eq!(LevelTheme::Overdrive.next_threshold(), Some(320));
    assert_eq!(LevelTheme::Singularity.next_threshold(), None);
    assert_eq!(LevelTheme::Afterglow.name(), "Afterglow");
    assert_eq!(LevelTheme::Voltage.name(), "Voltage");
    assert_eq!(LevelTheme::Overdrive.name(), "Overdrive");
    assert_eq!(LevelTheme::Singularity.name(), "Singularity");
    assert_eq!(LevelTheme::Afterglow.speed_percent(), 100);
    assert_eq!(LevelTheme::Voltage.speed_percent(), 96);
    assert_eq!(LevelTheme::Overdrive.speed_percent(), 92);
    assert_eq!(LevelTheme::Singularity.speed_percent(), 88);
}

#[test]
fn theme_threshold_moves_to_next_theme() {
    for score in [0u32, 50, 79, 80, 150, 179, 180, 300, 319] {
        let t = LevelTheme::for_score(score);
        let next = t.next_threshold().unwrap();
        assert!(score < next);
        assert_ne!(LevelTheme::for_score(next), t);
    }
}

#[test]
fn patterns_cycle_by_round() {
    assert_eq!(HazardPattern::for_round(0), HazardPattern::SplitGates);
    assert_eq!(HazardPattern::for_round(1), HazardPattern::SplitGates);
    assert_eq!(HazardPattern::for_round(2), HazardPattern::DiamondRun);
    assert_eq!(HazardPattern::for_round(3), HazardPattern::ReactorLadder);
    assert_eq!(HazardPattern::for_round(4), HazardPattern::CornerHooks);
    assert_eq!(HazardPattern::for_round(5), HazardPattern::Pinwheel);
    assert_eq!(HazardPattern::for_round(6), HazardPattern::SplitGates);
    assert_eq!(HazardPattern::SplitGates.name(), "Split Gates");
    assert_eq!(HazardPattern::DiamondRun.name(), "Diamond Run");
    assert_eq!(HazardPattern::ReactorLadder.name(), "Reactor Ladder");
    assert_eq!(HazardPattern::CornerHooks.name(), "Corner Hooks");
    assert_eq!(HazardPattern::Pinwheel.name(), "Pinwheel");
}

#[test]
fn power_up_labels() {
    assert_eq!(PowerUpKind::Shield.label(), "Shield");
    assert_eq!(PowerUpKind::Double.label(), "Double");
    assert_eq!(PowerUpKind::Slow.label(), "Slow");
    assert_eq!(PowerUpKind::Shield.short_label(), "S");
    assert_eq!(PowerUpKind::Double.short_label(), "x2");
    assert_eq!(PowerUpKind::Slow.short_label(), "SL");
}

#[test]
fn pace_by_score() {
    assert_eq!(speed_for_score(0), 160_000);
    assert_eq!(speed_for_score(10), 154_000);
    assert_eq!(speed_for_score(120), 88_000);
    assert_eq!(speed_for_score(150), 70_000);
    assert_eq!(speed_for_score(151), 70_000);
    assert_eq!(speed_for_score(u32::MAX), 70_000);
    assert_eq!(target_bomb_count(0), 1);
    assert_eq!(target_bomb_count(39), 1);
    assert_eq!(target_bomb_count(40), 2);
    assert_eq!(target_bomb_count(159), 4);
    assert_eq!(target_bomb_count(160), 5);
    assert_eq!(target_bomb_count(u32::MAX), 5);
    assert_eq!(initial_bomb_count(0), 1);
    assert_eq!(initial_bomb_count(200), 5);
    let mut last = speed_for_score(0);
    for score in (0..400).step_by(10) {
        let d = speed_for_score(score);
        assert!(d <= last);
        last = d;
    }
}

#[test]
fn hazard_layout_rotates_each_round() {
    let first = build_hazard_layout(HazardPattern::SplitGates, 1);
    assert_eq!(
        first,
        vec![
            Cell::new(5, 10),
            Cell::new(5, 11),
            Cell::new(5, 12),
            Cell::new(19, 10),
            Cell::new(19, 11),
            Cell::new(19, 12)
        ]
    );
    // a quarter turn: (x, y) -> (-y, x)
    let second = build_hazard_layout(HazardPattern::SplitGates, 2);
    assert_eq!(second[0], Cell::new(14, 5));
    assert_eq!(second[3], Cell::new(14, 19));
    // the same pattern and turn come back after four rounds
    assert_eq!(build_hazard_layout(HazardPattern::DiamondRun, 6), build_hazard_layout(HazardPattern::DiamondRun, 2));
    for pattern in [
        HazardPattern::SplitGates,
        HazardPattern::DiamondRun,
        HazardPattern::ReactorLadder,
        HazardPattern::CornerHooks,
        HazardPattern::Pinwheel,
    ] {
        for round in 0..8 {
            let layout = build_hazard_layout(pattern, round);
            assert_eq!(layout.len(), 6);
            assert!(layout.iter().all(|c| c.is_on_board()));
        }
    }
    assert_eq!(build_hazard_layout(HazardPattern::CornerHooks, 1)[0], Cell::new(2, 4));
}

#[test]
fn rotate_offset_quarter_turns() {
    let o = Cell::new(3, -2);
    assert_eq!(rotate_offset(o, 0), o);
    assert_eq!(rotate_offset(o, 1), Cell::new(2, 3));
    assert_eq!(rotate_offset(o, 2), Cell::new(-3, 2));
    assert_eq!(rotate_offset(o, 3), Cell::new(-2, -3));
    assert_eq!(rotate_offset(o, 4), o);
}

#[test]
fn power_up_kind_from_draw() {
    assert_eq!(PowerUpKind::from_draw(0), PowerUpKind::Shield);
    assert_eq!(PowerUpKind::from_draw(1), PowerUpKind::Double);
    assert_eq!(PowerUpKind::from_draw(2), PowerUpKind::Slow);
}

#[test]
fn overlay_texts_by_phase_and_mode() {
    assert_eq!(overlay_text(Phase::Playing, GameMode::Arcade), None);
    assert_eq!(
        overlay_text(Phase::Title, GameMode::Arcade),
        Some(("Press Enter", "Use WASD or arrow keys to start.\nPress M to switch into challenge mode."))
    );
    assert_eq!(overlay_text(Phase::Title, GameMode::Challenge).map(|t| t.0), Some("Challenge Mode"));
    assert_eq!(overlay_text(Phase::Paused, GameMode::Challenge).map(|t| t.0), Some("Paused"));
    assert_eq!(overlay_text(Phase::GameOver, GameMode::Arcade).map(|t| t.0), Some("Round Over"));
    assert_eq!(overlay_text(Phase::GameOver, GameMode::Challenge).map(|t| t.0), Some("Challenge Failed"));
    assert_eq!(
        overlay_text(Phase::ChallengeClear, GameMode::Challenge).map(|t| t.1),
        Some("Press R for a clean restart.\nPress Enter to queue the next challenge.")
    );
}
