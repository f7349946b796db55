use ball_game::timer::{
    SpawnKind, SpawnTimer, ENEMY_SPAWN_PERIOD_US, STAR_SPAWN_PERIOD_US,
};

#[test]
fn one_and_a_half_periods_expire_once_and_carry_half() {
    let mut timer = SpawnTimer::stars();
    assert_eq!(timer.period_us, 1_000_000);
    timer.tick(1_500_000);
    assert!(timer.finished());
    assert_eq!(timer.elapsed_us, 500_000);
    timer.tick(400_000);
    assert!(!timer.finished());
    assert_eq!(timer.elapsed_us, 900_000);
    timer.tick(100_000);
    assert!(timer.finished());
    assert_eq!(timer.elapsed_us, 0);
}

#[test]
fn fresh_timers_have_their_periods() {
    let stars = SpawnTimer::stars();
    assert_eq!(
        stars,
        SpawnTimer {
            kind: SpawnKind::Collectible,
            period_us: STAR_SPAWN_PERIOD_US,
            elapsed_us: 0,
            finished: false
        }
    );
    let enemies = SpawnTimer::enemies();
    assert_eq!(enemies.kind, SpawnKind::Enemy);
    assert_eq!(enemies.period_us, ENEMY_SPAWN_PERIOD_US);
    assert_eq!(ENEMY_SPAWN_PERIOD_US, 5_000_000);
    assert_eq!(enemies.elapsed_us, 0);
    assert!(!enemies.finished());
}

#[test]
fn short_ticks_add_up() {
    let mut timer = SpawnTimer::new(SpawnKind::Enemy, 5_000_000);
    for n in 1..=4u32 {
        timer.tick(1_000_000);
        assert!(!timer.finished());
        assert_eq!(timer.elapsed_us, n * 1_000_000);
    }
    timer.tick(1_000_000);
    assert!(timer.finished());
    assert_eq!(timer.elapsed_us, 0);
    timer.tick(1);
    assert!(!timer.finished());
    assert_eq!(timer.elapsed_us, 1);
}

#[test]
fn tick_over_several_periods_keeps_the_remainder() {
    let mut timer = SpawnTimer::new(SpawnKind::Collectible, 1_000_000);
    timer.tick(3_250_000);
    assert!(timer.finished());
    assert_eq!(timer.elapsed_us, 250_000);
}

#[test]
fn tick_of_nothing_changes_nothing() {
    let mut timer = SpawnTimer::new(SpawnKind::Collectible, 1_000_000);
    timer.tick(300_000);
    timer.tick(0);
    assert!(!timer.finished());
    assert_eq!(timer.elapsed_us, 300_000);
}

#[test]
fn timer_without_period_always_expires() {
    let mut timer = SpawnTimer::new(SpawnKind::Collectible, 0);
    timer.tick(0);
    assert!(timer.finished());
    assert_eq!(timer.elapsed_us, 0);
    timer.tick(77);
    assert!(timer.finished());
    assert_eq!(timer.elapsed_us, 0);
}

#[test]
fn largest_times_do_not_overflow() {
    let mut timer = SpawnTimer {
        kind: SpawnKind::Enemy,
        period_us: u32::MAX,
        elapsed_us: u32::MAX - 1,
        finished: false,
    };
    timer.tick(u32::MAX);
    assert!(timer.finished());
    assert_eq!(timer.elapsed_us, u32::MAX - 1);
    assert_eq!(timer.period_us, u32::MAX);
    assert_eq!(timer.kind, SpawnKind::Enemy);
}
