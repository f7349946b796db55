use ball_game::direction::{Direction, DIRECTION_ONE_SQUARED};
use ball_game::entity::{Enemy, ENEMIES_NUMBER, STARS_NUMBER};
use ball_game::events::Sound;
use ball_game::geometry::{Bounds, Vec2};
use ball_game::spawner::{
    bounce_sound, despawn_enemies, despawn_stars, direction_from_samples, new_entity,
    position_from_samples, random_bounce_sound, random_enemy, random_position, spawn_camera,
    spawn_enemies, spawn_stars, spawn_stars_over_time, tick_and_maybe_spawn,
    tick_star_spawn_timer, NewEntitySpec,
};
use ball_game::timer::{SpawnKind, SpawnTimer};

const HALF: u32 = 0x8000_0000;

fn window() -> Bounds {
    Bounds { width: 800_000, height: 600_000 }
}

fn inside(position: Vec2, bounds: Bounds) -> bool {
    0 <= position.x
        && position.x < bounds.width as i64
        && 0 <= position.y
        && position.y < bounds.height as i64
}

fn unit(heading: Direction) -> bool {
    let squared = heading.x as i64 * heading.x as i64 + heading.y as i64 * heading.y as i64;
    0 < squared && squared as u64 <= DIRECTION_ONE_SQUARED
}

#[test]
fn samples_pick_their_fraction_of_the_window() {
    assert_eq!(
        position_from_samples(HALF, HALF / 2, window()),
        Vec2 { x: 400_000, y: 150_000 }
    );
    assert_eq!(position_from_samples(0, 0, window()), Vec2 { x: 0, y: 0 });
    assert_eq!(
        position_from_samples(u32::MAX, u32::MAX, window()),
        Vec2 { x: 799_999, y: 599_999 }
    );
    assert_eq!(
        position_from_samples(u32::MAX, 1, Bounds { width: u32::MAX, height: 0 }),
        Vec2 { x: 4_294_967_294, y: 0 }
    );
}

#[test]
fn samples_pick_a_heading_around_zero() {
    assert_eq!(direction_from_samples(0, 0), Direction { x: -46_340, y: -46_340 });
    assert_eq!(
        direction_from_samples(HALF + 3, HALF + 4),
        Direction { x: 39_321, y: 52_428 }
    );
    assert_eq!(direction_from_samples(u32::MAX, HALF), Direction { x: 65_536, y: 0 });
    assert_eq!(direction_from_samples(HALF, 0), Direction { x: 0, y: -65_536 });
}

#[test]
fn samples_of_the_zero_vector_point_along_x() {
    assert_eq!(direction_from_samples(HALF, HALF), Direction { x: 65_536, y: 0 });
}

#[test]
fn sample_halves_pick_the_bounce_variants() {
    assert_eq!(bounce_sound(0), Sound::BounceOne);
    assert_eq!(bounce_sound(HALF - 1), Sound::BounceOne);
    assert_eq!(bounce_sound(HALF), Sound::BounceTwo);
    assert_eq!(bounce_sound(u32::MAX), Sound::BounceTwo);
}

#[test]
fn new_entity_follows_the_kind() {
    assert_eq!(
        new_entity(SpawnKind::Collectible, window(), HALF, HALF, 1, 2),
        NewEntitySpec::Collectible(Vec2 { x: 400_000, y: 300_000 })
    );
    assert_eq!(
        new_entity(SpawnKind::Enemy, window(), HALF, HALF, HALF + 3, HALF + 4),
        NewEntitySpec::Enemy(Enemy {
            position: Vec2 { x: 400_000, y: 300_000 },
            direction: Direction { x: 39_321, y: 52_428 },
        })
    );
}

#[test]
fn drawn_positions_lie_in_the_window() {
    for _ in 0..200 {
        assert!(inside(random_position(window()), window()));
    }
    let flat = Bounds { width: 0, height: 7 };
    for _ in 0..50 {
        let position = random_position(flat);
        assert_eq!(position.x, 0);
        assert!(0 <= position.y && position.y < 7);
    }
}

#[test]
fn drawn_positions_differ() {
    let first = random_position(window());
    let mut all_equal = true;
    for _ in 0..64 {
        if random_position(window()) != first {
            all_equal = false;
        }
    }
    assert!(!all_equal);
}

#[test]
fn drawn_enemies_are_inside_and_headed_somewhere() {
    for _ in 0..200 {
        let enemy = random_enemy(window());
        assert!(inside(enemy.position, window()));
        assert!(unit(enemy.direction));
    }
}

#[test]
fn drawn_bounce_sounds_are_bounce_sounds() {
    for _ in 0..50 {
        let sound = random_bounce_sound();
        assert!(sound == Sound::BounceOne || sound == Sound::BounceTwo);
    }
}

#[test]
fn camera_sits_in_the_middle_of_the_window() {
    assert_eq!(
        spawn_camera(Some(window())),
        Some(Vec2 { x: 400_000, y: 300_000 })
    );
    assert_eq!(spawn_camera(None), None);
}

#[test]
fn a_game_starts_with_ten_stars() {
    assert_eq!(STARS_NUMBER, 10);
    let kept = Vec2 { x: -1, y: -1 };
    let mut stars = vec![kept];
    spawn_stars(&mut stars, Some(window()));
    assert_eq!(stars.len(), 11);
    assert_eq!(stars[0], kept);
    for star in &stars[1..] {
        assert!(inside(*star, window()));
    }
}

#[test]
fn a_game_starts_with_four_enemies() {
    assert_eq!(ENEMIES_NUMBER, 4);
    let mut enemies = Vec::new();
    spawn_enemies(&mut enemies, Some(window()));
    assert_eq!(enemies.len(), 4);
    for enemy in &enemies {
        assert!(inside(enemy.position, window()));
        assert!(unit(enemy.direction));
    }
}

#[test]
fn without_a_window_nothing_spawns() {
    let mut stars = vec![Vec2 { x: 1, y: 2 }];
    spawn_stars(&mut stars, None);
    assert_eq!(stars, vec![Vec2 { x: 1, y: 2 }]);
    let mut enemies: Vec<Enemy> = Vec::new();
    spawn_enemies(&mut enemies, None);
    assert!(enemies.is_empty());
    let mut timer = SpawnTimer::stars();
    timer.tick(1_000_000);
    spawn_stars_over_time(&mut stars, None, &timer);
    assert_eq!(stars.len(), 1);
}

#[test]
fn despawning_empties_the_lists() {
    let mut stars = vec![Vec2 { x: 1, y: 2 }, Vec2 { x: 3, y: 4 }];
    despawn_stars(&mut stars);
    assert!(stars.is_empty());
    let mut enemies = Vec::new();
    spawn_enemies(&mut enemies, Some(window()));
    despawn_enemies(&mut enemies);
    assert!(enemies.is_empty());
}

#[test]
fn expired_countdown_spawns_one_star() {
    let mut timer = SpawnTimer::stars();
    let mut stars = Vec::new();
    tick_star_spawn_timer(&mut timer, 1_500_000);
    assert!(timer.finished());
    assert_eq!(timer.elapsed_us, 500_000);
    spawn_stars_over_time(&mut stars, Some(window()), &timer);
    assert_eq!(stars.len(), 1);
    assert!(inside(stars[0], window()));
    tick_star_spawn_timer(&mut timer, 100_000);
    assert!(!timer.finished());
    spawn_stars_over_time(&mut stars, Some(window()), &timer);
    assert_eq!(stars.len(), 1);
}

#[test]
fn tick_and_maybe_spawn_asks_for_the_timers_kind() {
    let mut star_timer = SpawnTimer::stars();
    assert_eq!(tick_and_maybe_spawn(&mut star_timer, 999_999, Some(window())), None);
    assert_eq!(star_timer.elapsed_us, 999_999);
    match tick_and_maybe_spawn(&mut star_timer, 1, Some(window())) {
        Some(NewEntitySpec::Collectible(position)) => assert!(inside(position, window())),
        other => panic!("expected a star, got {:?}", other),
    }
    assert_eq!(star_timer.elapsed_us, 0);
    let mut enemy_timer = SpawnTimer::enemies();
    assert_eq!(tick_and_maybe_spawn(&mut enemy_timer, 4_000_000, Some(window())), None);
    match tick_and_maybe_spawn(&mut enemy_timer, 1_500_000, Some(window())) {
        Some(NewEntitySpec::Enemy(enemy)) => {
            assert!(inside(enemy.position, window()));
            assert!(unit(enemy.direction));
        }
        other => panic!("expected an enemy, got {:?}", other),
    }
    assert_eq!(enemy_timer.elapsed_us, 500_000);
}

#[test]
fn tick_and_maybe_spawn_without_a_window_still_ticks() {
    let mut timer = SpawnTimer::stars();
    assert_eq!(tick_and_maybe_spawn(&mut timer, 1_500_000, None), None);
    assert!(timer.finished());
    assert_eq!(timer.elapsed_us, 500_000);
}
