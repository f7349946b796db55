use ball_game::confine::{clamp, reflect_enemy_direction};
use ball_game::direction::Direction;
use ball_game::geometry::{Bounds, Vec2, UNIT};

const RADIUS: u32 = 32_000;

fn window() -> Bounds {
    Bounds::from_units(800, 600)
}

#[test]
fn units_scale_by_a_thousand() {
    assert_eq!(UNIT, 1_000);
    assert_eq!(Vec2::from_units(3, -4), Vec2 { x: 3_000, y: -4_000 });
    assert_eq!(
        Vec2::from_units(i32::MIN, i32::MAX),
        Vec2 { x: -2_147_483_648_000, y: 2_147_483_647_000 }
    );
    assert_eq!(window(), Bounds { width: 800_000, height: 600_000 });
    assert_eq!(
        Bounds::from_units(u16::MAX, 0),
        Bounds { width: 65_535_000, height: 0 }
    );
    assert_eq!(Vec2::new(5, 6), Vec2 { x: 5, y: 6 });
}

#[test]
fn center_is_half_the_extent() {
    assert_eq!(window().center(), Vec2 { x: 400_000, y: 300_000 });
    assert_eq!(Bounds { width: 5, height: 0 }.center(), Vec2 { x: 2, y: 0 });
}

#[test]
fn inside_position_is_left_alone() {
    let inside = Vec2::from_units(400, 300);
    assert_eq!(clamp(inside, RADIUS, window()), inside);
    let low = Vec2::from_units(32, 32);
    assert_eq!(clamp(low, RADIUS, window()), low);
    let high = Vec2::from_units(768, 568);
    assert_eq!(clamp(high, RADIUS, window()), high);
}

#[test]
fn outside_position_is_brought_to_the_edge() {
    assert_eq!(
        clamp(Vec2::from_units(-50, 700), RADIUS, window()),
        Vec2::from_units(32, 568)
    );
    assert_eq!(
        clamp(Vec2::from_units(900, 10), RADIUS, window()),
        Vec2::from_units(768, 32)
    );
    assert_eq!(
        clamp(Vec2::new(i64::MIN, i64::MAX), RADIUS, window()),
        Vec2::from_units(32, 568)
    );
}

#[test]
fn each_axis_is_clamped_on_its_own() {
    assert_eq!(
        clamp(Vec2::from_units(400, 700), RADIUS, window()),
        Vec2::from_units(400, 568)
    );
}

#[test]
fn clamping_twice_is_clamping_once() {
    let windows = [
        window(),
        Bounds { width: 50_000, height: 600_000 },
        Bounds { width: 0, height: 0 },
        Bounds { width: u32::MAX, height: 64_000 },
    ];
    let coordinates = [i64::MIN, -1, 0, 31_999, 32_000, 32_001, 18_000, 400_000, i64::MAX];
    for bounds in windows {
        for x in coordinates {
            for y in coordinates {
                let once = clamp(Vec2 { x, y }, RADIUS, bounds);
                assert_eq!(clamp(once, RADIUS, bounds), once);
            }
        }
    }
}

#[test]
fn window_too_small_for_the_disc_clamps_to_the_far_limit() {
    let narrow = Bounds { width: 50_000, height: 600_000 };
    assert_eq!(
        clamp(Vec2 { x: 0, y: 300_000 }, RADIUS, narrow),
        Vec2 { x: 18_000, y: 300_000 }
    );
    assert_eq!(
        clamp(Vec2 { x: 40_000, y: 300_000 }, RADIUS, narrow),
        Vec2 { x: 18_000, y: 300_000 }
    );
}

#[test]
fn interior_enemy_keeps_its_heading() {
    let heading = Direction { x: 39_321, y: -52_428 };
    assert_eq!(
        reflect_enemy_direction(Vec2::from_units(400, 300), RADIUS, window(), heading),
        (heading, false)
    );
    assert_eq!(
        reflect_enemy_direction(Vec2::new(32_001, 567_999), RADIUS, window(), heading),
        (heading, false)
    );
}

#[test]
fn enemy_at_an_edge_turns_on_that_axis() {
    let heading = Direction { x: 39_321, y: -52_428 };
    assert_eq!(
        reflect_enemy_direction(Vec2::from_units(32, 300), RADIUS, window(), heading),
        (Direction { x: -39_321, y: -52_428 }, true)
    );
    assert_eq!(
        reflect_enemy_direction(Vec2::from_units(768, 300), RADIUS, window(), heading),
        (Direction { x: -39_321, y: -52_428 }, true)
    );
    assert_eq!(
        reflect_enemy_direction(Vec2::from_units(400, 32), RADIUS, window(), heading),
        (Direction { x: 39_321, y: 52_428 }, true)
    );
    assert_eq!(
        reflect_enemy_direction(Vec2::from_units(400, 568), RADIUS, window(), heading),
        (Direction { x: 39_321, y: 52_428 }, true)
    );
}

#[test]
fn enemy_in_a_corner_turns_on_both_axes() {
    let heading = Direction { x: -46_340, y: 46_340 };
    assert_eq!(
        reflect_enemy_direction(Vec2::from_units(-5, 900), RADIUS, window(), heading),
        (Direction { x: 46_340, y: -46_340 }, true)
    );
}

#[test]
fn enemy_resting_on_an_edge_turns_every_time() {
    let heading = Direction { x: 0, y: 65_536 };
    let at_edge = Vec2::from_units(400, 568);
    let (once, bounced) = reflect_enemy_direction(at_edge, RADIUS, window(), heading);
    assert!(bounced);
    assert_eq!(once, Direction { x: 0, y: -65_536 });
    let (twice, bounced_again) = reflect_enemy_direction(at_edge, RADIUS, window(), once);
    assert!(bounced_again);
    assert_eq!(twice, heading);
}
