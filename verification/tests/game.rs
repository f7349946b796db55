use ball_game::direction::Direction;
use ball_game::entity::Enemy;
use ball_game::events::{handle_game_over, GameOver, Sound};
use ball_game::game::{FrameInput, Game};
use ball_game::geometry::{Bounds, Vec2};
use ball_game::movement::MoveKeys;
use ball_game::state::{AppState, KeyPresses, SimulationState};

fn window() -> Bounds {
    Bounds { width: 800_000, height: 600_000 }
}

fn frame() -> FrameInput {
    FrameInput {
        held: MoveKeys { up: false, down: false, left: false, right: false },
        presses: KeyPresses {
            enter_game: false,
            enter_menu: false,
            toggle_simulation: false,
            exit: false,
        },
        delta_us: 16_000,
        bounds: Some(window()),
    }
}

fn press_game() -> FrameInput {
    let mut input = frame();
    input.presses.enter_game = true;
    input
}

fn press_toggle() -> FrameInput {
    let mut input = frame();
    input.presses.toggle_simulation = true;
    input
}

fn game_with_lone_player() -> Game {
    let mut game = Game::new();
    game.update(&press_game());
    game.world.enemies.clear();
    game.world.stars.clear();
    game
}

#[test]
fn game_launches_in_the_menu_with_an_empty_world() {
    let game = Game::new();
    assert_eq!(game.session.app_state, AppState::MainMenu);
    assert_eq!(game.session.simulation_state, SimulationState::Paused);
    assert_eq!(game.world.player, None);
    assert!(game.world.enemies.is_empty());
    assert!(game.world.stars.is_empty());
    assert!(game.game_over_events.is_empty());
}

#[test]
fn countdowns_run_from_launch() {
    let mut game = Game::new();
    let mut input = frame();
    input.delta_us = 1_250_000;
    input.held.right = true;
    let (report, quit) = game.update(&input);
    assert!(!quit);
    assert_eq!(game.session.app_state, AppState::MainMenu);
    assert_eq!(game.world.player, None);
    assert_eq!(game.world.stars.len(), 1);
    assert!(game.world.enemies.is_empty());
    assert_eq!(game.world.star_timer.elapsed_us, 250_000);
    assert_eq!(game.world.enemy_timer.elapsed_us, 1_250_000);
    assert!(report.sounds.is_empty());
    assert!(report.pickups.is_empty());
}

#[test]
fn toggle_key_in_the_menu_does_nothing() {
    let mut game = Game::new();
    game.update(&press_toggle());
    assert_eq!(game.session.app_state, AppState::MainMenu);
    assert_eq!(game.session.simulation_state, SimulationState::Paused);
}

#[test]
fn entering_a_game_sets_up_the_world() {
    let mut game = Game::new();
    game.world.stars.push(Vec2 { x: 1, y: 1 });
    let (report, _) = game.update(&press_game());
    assert_eq!(game.session.app_state, AppState::Game);
    assert_eq!(game.session.simulation_state, SimulationState::Paused);
    assert_eq!(game.world.player, Some(Vec2 { x: 400_000, y: 300_000 }));
    assert_eq!(game.world.enemies.len(), 4);
    assert_eq!(game.world.stars.len(), 10);
    assert_eq!(game.world.star_timer.elapsed_us, 16_000);
    assert!(report.sounds.is_empty());
    assert_eq!(report.game_over, None);
    for star in &game.world.stars {
        assert!(0 <= star.x && star.x < 800_000 && 0 <= star.y && star.y < 600_000);
    }
}

#[test]
fn game_key_during_a_game_keeps_the_world() {
    let mut game = game_with_lone_player();
    game.world.stars.push(Vec2 { x: 5, y: 5 });
    game.update(&press_game());
    assert_eq!(game.session.app_state, AppState::Game);
    assert!(game.world.enemies.is_empty());
    assert_eq!(game.world.stars, vec![Vec2 { x: 5, y: 5 }]);
}

#[test]
fn world_advances_whatever_the_pause_mode() {
    let mut game = game_with_lone_player();
    assert_eq!(game.session.simulation_state, SimulationState::Paused);
    let mut input = frame();
    input.held.right = true;
    game.update(&input);
    assert_eq!(game.world.player, Some(Vec2 { x: 408_000, y: 300_000 }));
    game.update(&press_toggle());
    assert_eq!(game.session.simulation_state, SimulationState::Running);
    game.update(&input);
    assert_eq!(game.world.player, Some(Vec2 { x: 416_000, y: 300_000 }));
    assert_eq!(game.world.star_timer.elapsed_us, 64_000);
}

#[test]
fn running_game_queues_the_game_over_event() {
    let mut game = game_with_lone_player();
    game.world.score.value = 5;
    game.world.enemies.push(Enemy {
        position: Vec2 { x: 400_000, y: 330_000 },
        direction: Direction { x: 0, y: 0 },
    });
    let (report, quit) = game.update(&frame());
    assert!(!quit);
    assert_eq!(report.game_over, Some(GameOver { score: 5 }));
    assert_eq!(report.sounds, vec![Sound::Explosion]);
    assert_eq!(game.world.player, None);
    assert_eq!(game.game_over_events, vec![GameOver { score: 5 }]);
    assert_eq!(game.session.app_state, AppState::Game);
    let (next, _) = game.update(&frame());
    assert_eq!(next.game_over, None);
    assert_eq!(game.game_over_events.len(), 1);
    assert_eq!(handle_game_over(&mut game.game_over_events), vec![5]);
    assert!(game.game_over_events.is_empty());
}

#[test]
fn score_survives_pause_and_menu() {
    let mut game = game_with_lone_player();
    game.world.stars.push(Vec2 { x: 400_000, y: 300_000 });
    game.update(&frame());
    assert_eq!(game.world.score.value, 1);
    game.update(&press_toggle());
    game.update(&press_toggle());
    assert_eq!(game.session.simulation_state, SimulationState::Paused);
    assert_eq!(game.world.score.value, 1);
    let mut to_menu = frame();
    to_menu.presses.enter_menu = true;
    game.update(&to_menu);
    assert_eq!(game.session.app_state, AppState::MainMenu);
    assert_eq!(game.world.score.value, 1);
    game.update(&press_game());
    assert_eq!(game.session.app_state, AppState::Game);
    assert_eq!(game.world.score.value, 1);
    assert_eq!(game.world.enemies.len(), 4);
    assert_eq!(game.world.stars.len(), 10);
}

#[test]
fn frame_without_a_window_is_skipped() {
    let mut game = game_with_lone_player();
    let elapsed = game.world.star_timer.elapsed_us;
    let mut input = frame();
    input.bounds = None;
    input.held.left = true;
    input.delta_us = 3_000_000;
    let (report, _) = game.update(&input);
    assert_eq!(game.world.player, Some(Vec2 { x: 400_000, y: 300_000 }));
    assert!(game.world.stars.is_empty());
    assert_eq!(game.world.star_timer.elapsed_us, elapsed);
    assert!(report.sounds.is_empty());
}

#[test]
fn game_entered_without_a_window_stays_empty() {
    let mut game = Game::new();
    let mut input = press_game();
    input.bounds = None;
    game.update(&input);
    assert_eq!(game.session.app_state, AppState::Game);
    assert_eq!(game.world.player, None);
    assert!(game.world.enemies.is_empty());
    assert!(game.world.stars.is_empty());
}

#[test]
fn exit_key_is_reported() {
    let mut game = Game::new();
    let mut input = frame();
    input.presses.exit = true;
    let (_, quit) = game.update(&input);
    assert!(quit);
}
