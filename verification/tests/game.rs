use neonsnake::game::{direction_from_keys, ActiveEffect, Burst, Game, InputState};
use neonsnake::grid::{Cell, Direction};
use neonsnake::hazards::build_hazard_layout;
use neonsnake::kinds::{AudioCue, ChallengeKind, GameMode, HazardPattern, Phase, PowerUpKind, SpawnedPowerUp};
use neonsnake::scores::HighScoreEntry;

fn c(x: i32, y: i32) -> Cell {
    Cell::new(x, y)
}

/// A round in play with no bombs, no pick-up and the food out of the way.
fn playing_game() -> Game {
    let mut g = Game::new(Vec::new());
    g.start_round();
    g.bombs.clear();
    g.power_up = None;
    g.food = c(0, 0);
    g
}

fn no_keys() -> InputState {
    InputState { confirm: false, pause: false, restart: false, toggle_mode: false, direction: None }
}

#[test]
fn new_game_waits_on_title() {
    let table = vec![HighScoreEntry { score: 200, length: 12 }, HighScoreEntry { score: 50, length: 6 }];
    let g = Game::new(table.clone());
    assert_eq!(g.phase, Phase::Title);
    assert_eq!(g.best_score, 200);
    assert_eq!(g.high_scores, table);
    assert_eq!(g.rounds_played, 0);
    assert_eq!(g.snake, vec![c(12, 12), c(11, 12), c(10, 12), c(9, 12), c(8, 12)]);
    assert_eq!(g.direction, Direction::Right);
    assert_eq!(g.score, 0);
    assert_eq!(g.step_delay, 160_000);
    assert_eq!(g.hazard_pattern, HazardPattern::SplitGates);
    assert_eq!(g.hazard_layout, build_hazard_layout(HazardPattern::SplitGates, 1));
    assert_eq!(g.bombs.len(), 1);
    assert_eq!(g.bombs[0], c(5, 10));
    assert!(!g.snake.contains(&g.food));
    assert!(!g.bombs.contains(&g.food));
    assert!(g.food.is_on_board());
    assert_eq!(Game::new(Vec::new()).best_score, 0);
}

#[test]
fn start_round_counts_rounds() {
    let mut g = Game::new(Vec::new());
    g.start_round();
    assert_eq!(g.phase, Phase::Playing);
    assert_eq!(g.rounds_played, 1);
    assert_eq!(g.challenge, ChallengeKind::Survive60);
    g.start_round();
    assert_eq!(g.rounds_played, 2);
    assert_eq!(g.hazard_pattern, HazardPattern::DiamondRun);
    assert_eq!(g.challenge, ChallengeKind::Collect20);
    assert_eq!(g.hazard_layout, build_hazard_layout(HazardPattern::DiamondRun, 2));
}

#[test]
fn a_step_moves_the_snake() {
    let mut g = playing_game();
    let out = g.update(159_999);
    assert!(out.cues.is_empty());
    assert_eq!(g.snake[0], c(12, 12));
    assert_eq!(g.step_timer, 159_999);
    let out = g.update(1);
    assert!(out.cues.is_empty());
    assert!(out.bursts.is_empty());
    assert_eq!(g.snake, vec![c(13, 12), c(12, 12), c(11, 12), c(10, 12), c(9, 12)]);
    assert_eq!(g.step_timer, 0);
    assert_eq!(g.survival_time, 160_000);
}

#[test]
fn several_steps_in_one_frame() {
    let mut g = playing_game();
    g.update(3 * 160_000 + 5);
    assert_eq!(g.snake[0], c(15, 12));
    assert_eq!(g.step_timer, 5);
}

#[test]
fn eating_grows_and_scores() {
    let mut g = playing_game();
    g.food = c(13, 12);
    let out = g.update(160_000);
    assert_eq!(out.cues, vec![AudioCue::Eat]);
    assert_eq!(out.bursts, vec![Burst::Food(c(13, 12))]);
    assert!(!out.table_changed);
    assert_eq!(g.snake.len(), 6);
    assert_eq!(g.snake[0], c(13, 12));
    assert_eq!(g.score, 10);
    assert_eq!(g.best_score, 10);
    assert_eq!(g.foods_eaten, 1);
    assert_eq!(g.step_delay, 154_000);
    assert_eq!(g.food_flash, 300_000);
    assert!(!g.snake.contains(&g.food));
    assert!(!g.bombs.contains(&g.food));
    assert_eq!(g.bombs.len(), 1);
}

#[test]
fn double_score_gives_twenty() {
    let mut g = playing_game();
    g.food = c(13, 12);
    g.multiplier_timer = 1_000_000;
    g.update(160_000);
    assert_eq!(g.score, 20);
    assert_eq!(g.multiplier_timer, 840_000);
}

#[test]
fn wall_ends_the_round_and_records_it() {
    let mut g = playing_game();
    g.snake = vec![c(23, 5), c(22, 5), c(21, 5)];
    g.score = 40;
    g.foods_eaten = 4;
    let out = g.update(160_000);
    assert_eq!(out.cues, vec![AudioCue::GameOver]);
    assert_eq!(out.bursts, vec![Burst::Crash(c(24, 5), false)]);
    assert!(out.table_changed);
    assert_eq!(g.phase, Phase::GameOver);
    assert_eq!(g.death_flash, 600_000);
    assert_eq!(g.snake, vec![c(23, 5), c(22, 5), c(21, 5)]);
    assert_eq!(g.high_scores, vec![HighScoreEntry { score: 40, length: 3 }]);
    assert_eq!(g.best_score, 40);
    assert!(g.score_recorded);
    // a game over does not step on
    let out = g.update(1_000_000);
    assert!(out.cues.is_empty());
    assert_eq!(g.death_flash, 0);
}

#[test]
fn a_round_without_points_is_not_recorded() {
    let mut g = playing_game();
    g.snake = vec![c(0, 3), c(1, 3)];
    g.direction = Direction::Left;
    let out = g.update(160_000);
    assert_eq!(out.cues, vec![AudioCue::GameOver]);
    assert!(!out.table_changed);
    assert!(g.high_scores.is_empty());
}

#[test]
fn running_into_the_body_crashes() {
    let mut g = playing_game();
    g.snake = vec![c(5, 5), c(6, 5), c(6, 6), c(5, 6), c(4, 6), c(4, 5)];
    g.direction = Direction::Down;
    let out = g.update(160_000);
    assert_eq!(out.cues, vec![AudioCue::GameOver]);
    assert_eq!(g.phase, Phase::GameOver);
}

#[test]
fn chasing_the_tail_is_allowed() {
    let mut g = playing_game();
    g.snake = vec![c(5, 5), c(6, 5), c(6, 6), c(5, 6)];
    g.direction = Direction::Down;
    let out = g.update(160_000);
    assert!(out.cues.is_empty());
    assert_eq!(g.phase, Phase::Playing);
    assert_eq!(g.snake, vec![c(5, 6), c(5, 5), c(6, 5), c(6, 6)]);
}

#[test]
fn bomb_without_shield_is_fatal() {
    let mut g = playing_game();
    g.bombs = vec![c(13, 12)];
    let out = g.update(160_000);
    assert_eq!(out.cues, vec![AudioCue::Boom]);
    assert_eq!(out.bursts, vec![Burst::Crash(c(13, 12), true)]);
    assert_eq!(g.phase, Phase::GameOver);
    assert_eq!(g.death_flash, 800_000);
}

#[test]
fn shield_takes_the_bomb() {
    let mut g = playing_game();
    g.bombs = vec![c(2, 2), c(13, 12)];
    g.shield_active = true;
    let out = g.update(160_000);
    assert!(out.cues.is_empty());
    assert_eq!(out.bursts, vec![Burst::Crash(c(13, 12), true)]);
    assert_eq!(g.phase, Phase::Playing);
    assert!(!g.shield_active);
    assert_eq!(g.bombs, vec![c(2, 2)]);
    assert_eq!(g.snake[0], c(13, 12));
}

#[test]
fn picking_up_slow_down() {
    let mut g = playing_game();
    g.power_up = Some(SpawnedPowerUp { kind: PowerUpKind::Slow, position: c(13, 12), ttl: 5_000_000 });
    let out = g.update(160_000);
    assert_eq!(out.cues, vec![AudioCue::PowerUp]);
    assert!(g.power_up.is_none());
    assert_eq!(g.slow_timer, 7_000_000);
    let mut g = playing_game();
    g.power_up = Some(SpawnedPowerUp { kind: PowerUpKind::Double, position: c(13, 12), ttl: 5_000_000 });
    g.update(160_000);
    assert_eq!(g.multiplier_timer, 9_000_000);
    let mut g = playing_game();
    g.power_up = Some(SpawnedPowerUp { kind: PowerUpKind::Shield, position: c(13, 12), ttl: 5_000_000 });
    g.update(160_000);
    assert!(g.shield_active);
}

#[test]
fn pick_up_expires() {
    let mut g = playing_game();
    g.power_up = Some(SpawnedPowerUp { kind: PowerUpKind::Slow, position: c(3, 3), ttl: 100_000 });
    g.update(50_000);
    assert_eq!(g.power_up.unwrap().ttl, 50_000);
    g.update(50_000);
    assert!(g.power_up.is_none());
}

#[test]
fn turns_are_queued_but_never_reversed() {
    let mut g = playing_game();
    assert!(!g.queue_direction(Direction::Left));
    assert!(!g.queue_direction(Direction::Right));
    assert!(g.queue_direction(Direction::Up));
    assert_eq!(g.queued_direction, Some(Direction::Up));
    // measured against the queued turn now
    assert!(!g.queue_direction(Direction::Down));
    assert!(g.queue_direction(Direction::Left));
    // the queue holds one turn: Left replaced Up, and Left reverses the
    // current heading, so the step goes on to the right
    g.update(160_000);
    assert_eq!(g.direction, Direction::Right);
    assert_eq!(g.queued_direction, None);
    assert_eq!(g.snake[0], c(13, 12));
    assert!(g.queue_direction(Direction::Down));
    g.update(160_000);
    assert_eq!(g.direction, Direction::Down);
    assert_eq!(g.snake[0], c(13, 13));
}

#[test]
fn a_reverse_in_the_queue_is_ignored() {
    let mut g = playing_game();
    g.queued_direction = Some(Direction::Left);
    g.update(160_000);
    assert_eq!(g.direction, Direction::Right);
    assert_eq!(g.snake[0], c(13, 12));
}

#[test]
fn step_delay_with_theme_and_slow_down() {
    let mut g = playing_game();
    assert_eq!(g.effective_step_delay(), 160_000);
    g.slow_timer = 1;
    assert_eq!(g.effective_step_delay(), 240_000);
    g.slow_timer = 0;
    g.score = 90;
    g.step_delay = 106_000;
    assert_eq!(g.effective_step_delay(), 101_760);
    g.slow_timer = 5;
    assert_eq!(g.effective_step_delay(), 157_728);
}

#[test]
fn keys_start_pause_and_resume() {
    let mut g = Game::new(Vec::new());
    let cues = g.handle_input(InputState { confirm: true, ..no_keys() });
    assert_eq!(cues, vec![AudioCue::Key]);
    assert_eq!(g.phase, Phase::Playing);
    assert_eq!(g.rounds_played, 1);
    let cues = g.handle_input(InputState { pause: true, ..no_keys() });
    assert_eq!(cues, vec![AudioCue::Key]);
    assert_eq!(g.phase, Phase::Paused);
    // directions do nothing while paused
    let cues = g.handle_input(InputState { direction: Some(Direction::Up), ..no_keys() });
    assert!(cues.is_empty());
    assert_eq!(g.queued_direction, None);
    let cues = g.handle_input(InputState { confirm: true, ..no_keys() });
    assert_eq!(cues, vec![AudioCue::Key]);
    assert_eq!(g.phase, Phase::Playing);
    assert_eq!(g.rounds_played, 1);
    let cues = g.handle_input(InputState { restart: true, ..no_keys() });
    assert_eq!(cues, vec![AudioCue::Key]);
    assert_eq!(g.rounds_played, 2);
    assert!(g.handle_input(no_keys()).is_empty());
}

#[test]
fn a_direction_on_the_title_starts_a_round() {
    let mut g = Game::new(Vec::new());
    let cues = g.handle_input(InputState { direction: Some(Direction::Up), ..no_keys() });
    assert_eq!(cues, vec![AudioCue::Key]);
    assert_eq!(g.phase, Phase::Playing);
    assert_eq!(g.queued_direction, Some(Direction::Up));
    // a reverse still starts the round, with nothing queued
    let mut g = Game::new(Vec::new());
    let cues = g.handle_input(InputState { direction: Some(Direction::Left), ..no_keys() });
    assert_eq!(cues, vec![AudioCue::Key]);
    assert_eq!(g.phase, Phase::Playing);
    assert_eq!(g.queued_direction, None);
}

#[test]
fn mode_key_works_only_in_menus() {
    let mut g = Game::new(Vec::new());
    let cues = g.handle_input(InputState { toggle_mode: true, ..no_keys() });
    assert_eq!(cues, vec![AudioCue::Key]);
    assert_eq!(g.mode, GameMode::Challenge);
    assert!(g.is_challenge_mode());
    assert_eq!(g.mode_label(), "Challenge");
    g.handle_input(InputState { confirm: true, ..no_keys() });
    let cues = g.handle_input(InputState { toggle_mode: true, ..no_keys() });
    assert!(cues.is_empty());
    assert_eq!(g.mode, GameMode::Challenge);
}

#[test]
fn several_keys_in_one_frame() {
    let mut g = Game::new(Vec::new());
    let cues = g.handle_input(InputState {
        confirm: true,
        pause: true,
        restart: false,
        toggle_mode: true,
        direction: Some(Direction::Up),
    });
    assert_eq!(cues, vec![AudioCue::Key, AudioCue::Key, AudioCue::Key]);
    assert_eq!(g.mode, GameMode::Challenge);
    assert_eq!(g.phase, Phase::Paused);
    assert_eq!(g.queued_direction, None);
}

#[test]
fn direction_keys_in_order() {
    assert_eq!(direction_from_keys(true, true, true, true), Some(Direction::Up));
    assert_eq!(direction_from_keys(false, true, true, false), Some(Direction::Down));
    assert_eq!(direction_from_keys(false, false, true, true), Some(Direction::Left));
    assert_eq!(direction_from_keys(false, false, false, true), Some(Direction::Right));
    assert_eq!(direction_from_keys(false, false, false, false), None);
}

#[test]
fn collect_challenge_clears_the_round() {
    let mut g = Game::new(Vec::new());
    g.mode = GameMode::Challenge;
    g.start_round();
    g.start_round();
    assert_eq!(g.challenge, ChallengeKind::Collect20);
    g.bombs.clear();
    g.power_up = None;
    g.foods_eaten = 19;
    g.score = 190;
    g.snake = vec![c(5, 5), c(4, 5), c(3, 5), c(2, 5), c(1, 5), c(0, 5), c(0, 6), c(1, 6), c(2, 6), c(3, 6)];
    g.direction = Direction::Right;
    g.food = c(6, 5);
    assert_eq!(g.challenge_progress(), (19, 20));
    let out = g.update(g.effective_step_delay());
    assert_eq!(out.cues, vec![AudioCue::Eat]);
    assert!(out.table_changed);
    assert_eq!(g.phase, Phase::ChallengeClear);
    assert_eq!(g.challenge_progress(), (20, 20));
    assert_eq!(g.high_scores, vec![HighScoreEntry { score: 200, length: 11 }]);
    // Enter on the clear screen starts the next challenge
    g.handle_input(InputState { confirm: true, ..no_keys() });
    assert_eq!(g.phase, Phase::Playing);
    assert_eq!(g.challenge, ChallengeKind::NoWallHits);
}

#[test]
fn survive_challenge_counts_time() {
    let mut g = Game::new(Vec::new());
    g.mode = GameMode::Challenge;
    g.start_round();
    g.survival_time = 59_900_000;
    assert_eq!(g.challenge_progress(), (59, 60));
    g.phase = Phase::Paused;
    g.update(200_000);
    assert_eq!(g.survival_time, 59_900_000);
    g.phase = Phase::Playing;
    g.update(100_000);
    assert_eq!(g.phase, Phase::ChallengeClear);
    assert_eq!(g.challenge_title(), "Survive 60");
    assert_eq!(g.challenge_detail(), "Stay alive for 60 seconds.");
}

#[test]
fn arcade_mode_has_no_goal() {
    let mut g = playing_game();
    g.survival_time = 70_000_000;
    g.update(1);
    assert_eq!(g.phase, Phase::Playing);
}

#[test]
fn paused_frame_only_fades_flashes() {
    let mut g = playing_game();
    g.phase = Phase::Paused;
    g.food_flash = 100;
    g.death_flash = 500;
    g.multiplier_timer = 900;
    let out = g.update(200);
    assert!(out.cues.is_empty());
    assert_eq!(g.food_flash, 0);
    assert_eq!(g.death_flash, 300);
    assert_eq!(g.multiplier_timer, 900);
    assert_eq!(g.step_timer, 0);
}

#[test]
fn showcase_poses() {
    let mut g = Game::new(Vec::new());
    g.configure_showcase_playing();
    assert_eq!(g.phase, Phase::Playing);
    assert_eq!(g.rounds_played, 3);
    assert_eq!(g.score, 120);
    assert_eq!(g.best_score, 240);
    assert_eq!(g.snake.len(), 12);
    assert_eq!(g.step_delay, 88_000);
    assert_eq!(g.hazard_layout, g.bombs);
    assert_eq!(g.power_up.unwrap().kind, PowerUpKind::Slow);
    assert_eq!(
        g.active_power_ups(),
        vec![ActiveEffect::ShieldReady, ActiveEffect::Double(6_400_000)]
    );
    g.configure_showcase_game_over();
    assert_eq!(g.phase, Phase::GameOver);
    assert_eq!(g.score, 190);
    assert_eq!(g.best_score, 260);
    assert_eq!(g.direction, Direction::Up);
    assert_eq!(g.snake[0], c(9, 3));
    assert_eq!(g.hazard_pattern, HazardPattern::CornerHooks);
    assert_eq!(g.hazard_pattern_name(), "Corner Hooks");
    assert!(g.power_up.is_none());
    assert!(g.active_power_ups().is_empty());
    assert_eq!(g.death_flash, 250_000);
}

#[test]
fn themes_follow_the_score() {
    let mut g = playing_game();
    assert_eq!(g.next_theme_score(), Some(80));
    g.score = 400;
    assert_eq!(g.next_theme_score(), None);
    assert_eq!(g.level_theme().name(), "Singularity");
}

#[test]
fn food_lands_on_varied_free_cells() {
    let g = playing_game();
    let mut seen = Vec::new();
    for _ in 0..50 {
        let f = g.spawn_food().unwrap();
        assert!(f.is_on_board());
        assert!(!g.snake.contains(&f));
        assert!(!g.bombs.contains(&f));
        if !seen.contains(&f) {
            seen.push(f);
        }
    }
    assert!(seen.len() > 1);
}

#[test]
fn no_food_on_a_full_board() {
    let mut g = playing_game();
    let mut cells = Vec::new();
    for y in 0..24 {
        for x in 0..24 {
            cells.push(c(x, y));
        }
    }
    g.snake = cells;
    assert_eq!(g.spawn_food(), None);
}

#[test]
fn bombs_take_layout_slots_first() {
    let mut g = playing_game();
    g.food = c(5, 11);
    let bombs = g.compose_bombs(3);
    assert_eq!(bombs, vec![c(5, 10), c(5, 12), c(19, 10)]);
    let many = g.compose_bombs(8);
    assert_eq!(many.len(), 8);
    assert_eq!(&many[..5], &[c(5, 10), c(5, 12), c(19, 10), c(19, 11), c(19, 12)]);
    for (i, b) in many.iter().enumerate() {
        assert!(b.is_on_board());
        assert!(!g.snake.contains(b));
        assert_ne!(*b, g.food);
        assert!(!many[..i].contains(b));
    }
}

#[test]
fn pick_ups_appear_on_free_cells() {
    let g = playing_game();
    let mut kinds = Vec::new();
    for _ in 0..60 {
        let p = g.spawn_power_up().unwrap();
        assert_eq!(p.ttl, 10_000_000);
        assert!(p.position.is_on_board());
        assert!(!g.snake.contains(&p.position));
        assert_ne!(p.position, g.food);
        if !kinds.contains(&p.kind) {
            kinds.push(p.kind);
        }
    }
    assert_eq!(kinds.len(), 3);
}

#[test]
fn third_food_may_bring_a_pick_up() {
    let mut g = playing_game();
    g.foods_eaten = 2;
    g.score = 20;
    g.food = c(13, 12);
    g.update(g.effective_step_delay());
    assert_eq!(g.foods_eaten, 3);
    let p = g.power_up.expect("a pick-up after the third food");
    assert!(!g.snake.contains(&p.position));
    assert!(!g.bombs.contains(&p.position));
    assert_ne!(p.position, g.food);
}

#[test]
fn record_score_happens_once() {
    let mut g = playing_game();
    g.score = 30;
    assert!(g.record_score());
    let table = g.high_scores.clone();
    assert_eq!(g.best_score, 30);
    assert!(!g.record_score());
    assert_eq!(g.high_scores, table);
    assert_eq!(g.best_score, 30);
    assert!(g.score_recorded);
    assert_eq!(g.high_scores.len(), 1);
}

fn assert_well_formed(g: &Game) {
    assert!(!g.snake.is_empty());
    assert!(g.snake.len() <= 24 * 24);
    for (i, cell) in g.snake.iter().enumerate() {
        assert!(cell.is_on_board());
        assert!(!g.snake[..i].contains(cell));
    }
    assert!(g.score as usize <= 20 * g.snake.len());
    assert!(10 * g.foods_eaten <= g.score);
    assert!(70_000 <= g.step_delay && g.step_delay <= 160_000);
    assert!(g.hazard_layout.iter().all(|c| c.is_on_board()));
    assert!(g.score <= g.best_score);
}

#[test]
fn long_play_keeps_the_snake_whole() {
    let mut g = Game::new(Vec::new());
    let turns = [Direction::Up, Direction::Left, Direction::Down, Direction::Right];
    let mut rounds_over = 0;
    for frame in 0u32..4000 {
        let direction = if frame % 7 == 0 { Some(turns[(frame / 7 % 4) as usize]) } else { None };
        let input = InputState { confirm: frame % 50 == 0, direction, ..no_keys() };
        g.handle_input(input);
        assert_well_formed(&g);
        let before_score = g.score;
        let before_len = g.snake.len();
        let was_playing = g.phase == Phase::Playing;
        let out = g.update(100_000);
        assert_well_formed(&g);
        if was_playing {
            assert!(g.score >= before_score);
            assert!(g.snake.len() >= before_len);
        }
        if out.cues.contains(&AudioCue::GameOver) || out.cues.contains(&AudioCue::Boom) {
            rounds_over += 1;
            assert_eq!(g.phase, Phase::GameOver);
        }
        for b in &g.bombs {
            assert!(!g.snake.contains(b));
        }
    }
    assert!(rounds_over > 0);
}

#[test]
fn pause_twice_resumes_unchanged() {
    let mut g = playing_game();
    let snake = g.snake.clone();
    g.handle_input(InputState { pause: true, ..no_keys() });
    assert_eq!(g.phase, Phase::Paused);
    g.handle_input(InputState { pause: true, ..no_keys() });
    assert_eq!(g.phase, Phase::Playing);
    assert_eq!(g.snake, snake);
}

#[test]
fn mode_toggles_back() {
    let mut g = Game::new(Vec::new());
    g.handle_input(InputState { toggle_mode: true, ..no_keys() });
    g.handle_input(InputState { toggle_mode: true, ..no_keys() });
    assert_eq!(g.mode, GameMode::Arcade);
}

#[test]
fn placing_a_pick_up_on_drawn_cells() {
    let mut g = playing_game();
    g.bombs = vec![c(3, 3)];
    assert_eq!(
        g.place_power_up(c(5, 5), 0),
        Some(SpawnedPowerUp { kind: PowerUpKind::Shield, position: c(5, 5), ttl: 10_000_000 })
    );
    assert_eq!(g.place_power_up(c(5, 5), 1).map(|p| p.kind), Some(PowerUpKind::Double));
    assert_eq!(g.place_power_up(c(5, 5), 2).map(|p| p.kind), Some(PowerUpKind::Slow));
    assert_eq!(g.place_power_up(c(12, 12), 0), None);
    assert_eq!(g.place_power_up(c(3, 3), 0), None);
    assert_eq!(g.place_power_up(c(0, 0), 0), None);
    assert_eq!(g.place_power_up(c(24, 5), 0), None);
    assert_eq!(g.place_power_up(c(-1, 5), 0), None);
    assert!(g.power_up_cell_free(c(5, 5)));
    assert!(!g.power_up_cell_free(c(0, 0)));
}

#[test]
fn rounds_started_by_a_frame_of_keys() {
    let mut g = Game::new(Vec::new());
    assert_eq!(g.rounds_started_by(no_keys()), 0);
    assert_eq!(g.rounds_started_by(InputState { confirm: true, ..no_keys() }), 1);
    assert_eq!(g.rounds_started_by(InputState { direction: Some(Direction::Up), ..no_keys() }), 1);
    let both = InputState { confirm: true, pause: true, restart: true, direction: Some(Direction::Up), ..no_keys() };
    assert_eq!(g.rounds_started_by(both), 2);
    g.handle_input(both);
    assert_eq!(g.rounds_played, 2);
    assert_eq!(g.rounds_started_by(InputState { confirm: true, direction: Some(Direction::Up), ..no_keys() }), 0);
    assert_eq!(g.rounds_started_by(InputState { restart: true, ..no_keys() }), 1);
    g.rounds_played = u32::MAX;
    g.handle_input(InputState { confirm: true, pause: true, direction: Some(Direction::Up), ..no_keys() });
    assert_eq!(g.rounds_played, u32::MAX);
}

#[test]
fn pick_up_search_takes_the_first_free_drawn_cell() {
    let mut g = playing_game();
    g.bombs = vec![c(3, 3)];
    let drawn = vec![c(12, 12), c(3, 3), c(0, 0), c(6, 7), c(8, 8)];
    assert_eq!(
        g.first_free_power_up(&drawn, 1),
        Some(SpawnedPowerUp { kind: PowerUpKind::Double, position: c(6, 7), ttl: 10_000_000 })
    );
    assert_eq!(g.first_free_power_up(&vec![c(12, 12), c(3, 3), c(0, 0)], 1), None);
    assert_eq!(g.first_free_power_up(&Vec::new(), 0), None);
}

#[test]
fn bomb_search_takes_the_first_valid_drawn_cell() {
    let mut g = playing_game();
    g.power_up = Some(SpawnedPowerUp { kind: PowerUpKind::Slow, position: c(4, 4), ttl: 1 });
    let existing = vec![c(3, 3)];
    let drawn = vec![c(12, 12), c(0, 0), c(3, 3), c(4, 4), c(5, 9), c(6, 6)];
    assert_eq!(g.first_valid_bomb_cell(&existing, &drawn), Some(c(5, 9)));
    assert_eq!(g.first_valid_bomb_cell(&existing, &vec![c(0, 0), c(4, 4)]), None);
}
