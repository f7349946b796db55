//! Bringing entities into the window: at the start of a game and whenever a
//! countdown expires.

use vstd::prelude::*;
use crate::direction::{Direction, DIRECTION_ONE};
use crate::entity::{Enemy, ENEMIES_NUMBER, STARS_NUMBER};
use crate::events::Sound;
use crate::geometry::{Bounds, Vec2};
use crate::timer::{SpawnKind, SpawnTimer};

verus! {

/// Draws 32 bits with `rand::random`, which samples the thread-local
/// generator of the `rand` crate. Nothing is claimed of the value drawn.
#[verifier::external_body]
fn random_u32() -> (sample: u32) {
    rand::random::<u32>()
}

/// A request to bring one entity into the window.
#[derive(Clone, Copy, Debug, PartialEq, Eq, Structural)]
pub enum NewEntitySpec {
    Enemy(Enemy),
    Collectible(Vec2),
}

/// The coordinate that a sample picks on an axis of the given extent: the
/// sample's share of the extent, as a fraction of `2^32`, rounded down.
pub open spec fn scaled(sample: u32, extent: u32) -> int {
    sample * extent / 0x1_0000_0000
}

/// The position that two samples pick in the window.
pub open spec fn placed(sample_x: u32, sample_y: u32, bounds: Bounds) -> Vec2 {
    Vec2 {
        x: scaled(sample_x, bounds.width) as i64,
        y: scaled(sample_y, bounds.height) as i64,
    }
}

/// A sample read as a signed number around zero.
pub open spec fn centred(sample: u32) -> int {
    sample - 0x8000_0000
}

/// The heading that two samples pick: that of the vector of the two samples
/// read as signed numbers. The one vector without a heading, zero, points
/// along the x axis instead.
pub open spec fn aimed(sample_x: u32, sample_y: u32) -> Direction {
    if centred(sample_x) == 0 && centred(sample_y) == 0 {
        Direction { x: DIRECTION_ONE, y: 0 }
    } else {
        Direction::spec_normalized(centred(sample_x), centred(sample_y))
    }
}

/// The entity of the given kind that four samples pick: two for the
/// position and, for an enemy, two for the heading.
pub open spec fn spawned(
    kind: SpawnKind,
    bounds: Bounds,
    sample_x: u32,
    sample_y: u32,
    sample_dx: u32,
    sample_dy: u32,
) -> NewEntitySpec {
    match kind {
        SpawnKind::Enemy => NewEntitySpec::Enemy(
            Enemy {
                position: placed(sample_x, sample_y, bounds),
                direction: aimed(sample_dx, sample_dy),
            },
        ),
        SpawnKind::Collectible => NewEntitySpec::Collectible(placed(sample_x, sample_y, bounds)),
    }
}

/// The bounce sound that a sample picks: the first variant for the lower
/// half of the samples, the second for the upper half.
pub open spec fn bounce_variant(sample: u32) -> Sound {
    if sample < 0x8000_0000 {
        Sound::BounceOne
    } else {
        Sound::BounceTwo
    }
}

/// Whether an enemy is a fit newcomer: inside the window, with a heading of
/// length one.
pub open spec fn enemy_fits(enemy: Enemy, bounds: Bounds) -> bool {
    &&& bounds.holds(enemy.position)
    &&& enemy.direction.is_unit()
}

/// Whether a request fits its kind and the window.
pub open spec fn entity_fits(entity: NewEntitySpec, kind: SpawnKind, bounds: Bounds) -> bool {
    match entity {
        NewEntitySpec::Enemy(enemy) => kind == SpawnKind::Enemy && enemy_fits(enemy, bounds),
        NewEntitySpec::Collectible(position) => kind == SpawnKind::Collectible && bounds.holds(
            position,
        ),
    }
}

/// `after` is `before` with `count` more stars at its end, all inside the
/// window.
pub open spec fn stars_added(before: Seq<Vec2>, after: Seq<Vec2>, count: int, bounds: Bounds)
    -> bool {
    &&& after.len() == before.len() + count
    &&& after.take(before.len() as int) == before
    &&& forall|i: int| before.len() <= i < after.len() ==> bounds.holds(#[trigger] after[i])
}

/// `after` is `before` with `count` more enemies at its end, all fit
/// newcomers.
pub open spec fn enemies_added(before: Seq<Enemy>, after: Seq<Enemy>, count: int, bounds: Bounds)
    -> bool {
    &&& after.len() == before.len() + count
    &&& after.take(before.len() as int) == before
    &&& forall|i: int| before.len() <= i < after.len() ==> enemy_fits(#[trigger] after[i], bounds)
}

/// Picks a coordinate on an axis of the given extent from a sample.
fn scale_sample(sample: u32, extent: u32) -> (coordinate: i64)
    ensures
        coordinate == scaled(sample, extent),
        0 <= coordinate <= extent,
        extent > 0 ==> coordinate < extent,
{
    assert(sample * extent <= 0xffff_ffff * extent && 0xffff_ffff * extent <= 0xffff_ffff
        * 0xffff_ffff) by (nonlinear_arith)
        requires
            sample <= 0xffff_ffff,
            extent <= 0xffff_ffff,
    ;
    let product: u64 = sample as u64 * extent as u64;
    (product / 0x1_0000_0000) as i64
}

/// Picks a position in the window from two samples: each sample is the
/// fraction of the window's extent at which the position lies.
pub fn position_from_samples(sample_x: u32, sample_y: u32, bounds: Bounds) -> (position: Vec2)
    ensures
        position == placed(sample_x, sample_y, bounds),
        bounds.holds(position),
{
    Vec2 { x: scale_sample(sample_x, bounds.width), y: scale_sample(sample_y, bounds.height) }
}

/// Picks a heading from two samples.
pub fn direction_from_samples(sample_x: u32, sample_y: u32) -> (heading: Direction)
    ensures
        heading == aimed(sample_x, sample_y),
        heading.is_unit(),
{
    let vx: i32 = (sample_x as i64 - 0x8000_0000) as i32;
    let vy: i32 = (sample_y as i64 - 0x8000_0000) as i32;
    if vx == 0 && vy == 0 {
        Direction { x: DIRECTION_ONE, y: 0 }
    } else {
        Direction::normalized(vx, vy)
    }
}

/// Picks one of the two bounce sounds from a sample.
pub fn bounce_sound(sample: u32) -> (sound: Sound)
    ensures
        sound == bounce_variant(sample),
        sound.is_bounce(),
{
    if sample < 0x8000_0000 {
        Sound::BounceOne
    } else {
        Sound::BounceTwo
    }
}

/// Makes the request for an entity of the given kind from four samples.
pub fn new_entity(
    kind: SpawnKind,
    bounds: Bounds,
    sample_x: u32,
    sample_y: u32,
    sample_dx: u32,
    sample_dy: u32,
) -> (entity: NewEntitySpec)
    ensures
        entity == spawned(kind, bounds, sample_x, sample_y, sample_dx, sample_dy),
        entity_fits(entity, kind, bounds),
{
    let position = position_from_samples(sample_x, sample_y, bounds);
    match kind {
        SpawnKind::Enemy => NewEntitySpec::Enemy(
            Enemy { position, direction: direction_from_samples(sample_dx, sample_dy) },
        ),
        SpawnKind::Collectible => NewEntitySpec::Collectible(position),
    }
}

/// Draws a position in the window.
pub fn random_position(bounds: Bounds) -> (position: Vec2)
    ensures
        bounds.holds(position),
{
    let sample_x = random_u32();
    let sample_y = random_u32();
    position_from_samples(sample_x, sample_y, bounds)
}

/// Draws an enemy: a position in the window and a heading.
pub fn random_enemy(bounds: Bounds) -> (enemy: Enemy)
    ensures
        enemy_fits(enemy, bounds),
{
    let position = random_position(bounds);
    let sample_dx = random_u32();
    let sample_dy = random_u32();
    Enemy { position, direction: direction_from_samples(sample_dx, sample_dy) }
}

/// Draws one of the two bounce sounds.
pub fn random_bounce_sound() -> (sound: Sound)
    ensures
        sound.is_bounce(),
{
    bounce_sound(random_u32())
}

/// Where the camera goes: the middle of the window. Without a window there
/// is no camera.
pub fn spawn_camera(bounds: Option<Bounds>) -> (camera: Option<Vec2>)
    ensures
        camera == match bounds {
            Some(window) => Some(window.spec_center()),
            None => None,
        },
{
    match bounds {
        Some(window) => Some(window.center()),
        None => None,
    }
}

/// Adds the stars that a game starts with, `STARS_NUMBER` of them, each at a
/// position drawn in the window. Without a window nothing is added.
pub fn spawn_stars(stars: &mut Vec<Vec2>, bounds: Option<Bounds>)
    ensures
        match bounds {
            Some(window) => stars_added(old(stars)@, final(stars)@, STARS_NUMBER as int, window),
            None => final(stars)@ == old(stars)@,
        },
{
    match bounds {
        Some(window) => {
            let mut count: usize = 0;
            assert(stars@.take(stars@.len() as int) =~= stars@);
            while count < STARS_NUMBER
                invariant
                    count <= STARS_NUMBER,
                    stars_added(old(stars)@, stars@, count as int, window),
                decreases STARS_NUMBER - count,
            {
                let ghost before = stars@;
                let position = random_position(window);
                stars.push(position);
                assert(stars@.take(old(stars)@.len() as int) =~= before.take(
                    old(stars)@.len() as int,
                ));
                count = count + 1;
            }
        },
        None => {},
    }
}

/// Adds the enemies that a game starts with, `ENEMIES_NUMBER` of them, each
/// at a position drawn in the window and with a heading drawn. Without a
/// window nothing is added.
pub fn spawn_enemies(enemies: &mut Vec<Enemy>, bounds: Option<Bounds>)
    ensures
        match bounds {
            Some(window) => enemies_added(
                old(enemies)@,
                final(enemies)@,
                ENEMIES_NUMBER as int,
                window,
            ),
            None => final(enemies)@ == old(enemies)@,
        },
{
    match bounds {
        Some(window) => {
            let mut count: usize = 0;
            assert(enemies@.take(enemies@.len() as int) =~= enemies@);
            while count < ENEMIES_NUMBER
                invariant
                    count <= ENEMIES_NUMBER,
                    enemies_added(old(enemies)@, enemies@, count as int, window),
                decreases ENEMIES_NUMBER - count,
            {
                let ghost before = enemies@;
                let enemy = random_enemy(window);
                enemies.push(enemy);
                assert(enemies@.take(old(enemies)@.len() as int) =~= before.take(
                    old(enemies)@.len() as int,
                ));
                count = count + 1;
            }
        },
        None => {},
    }
}

/// Removes every star.
pub fn despawn_stars(stars: &mut Vec<Vec2>)
    ensures
        final(stars)@.len() == 0,
{
    stars.clear();
}

/// Removes every enemy.
pub fn despawn_enemies(enemies: &mut Vec<Enemy>)
    ensures
        final(enemies)@.len() == 0,
{
    enemies.clear();
}

/// Advances the stars' countdown by the time that the frame took.
pub fn tick_star_spawn_timer(timer: &mut SpawnTimer, delta_us: u32)
    ensures
        *final(timer) == old(timer).ticked(delta_us),
{
    timer.tick(delta_us);
}

/// Adds one star at a position drawn in the window if the countdown expired
/// on its last tick. Without a window nothing is added.
pub fn spawn_stars_over_time(stars: &mut Vec<Vec2>, bounds: Option<Bounds>, timer: &SpawnTimer)
    ensures
        match bounds {
            Some(window) => stars_added(
                old(stars)@,
                final(stars)@,
                if timer.finished {
                    1int
                } else {
                    0int
                },
                window,
            ),
            None => final(stars)@ == old(stars)@,
        },
{
    assert(stars@.take(stars@.len() as int) =~= stars@);
    if timer.finished() {
        match bounds {
            Some(window) => {
                let position = random_position(window);
                stars.push(position);
                assert(stars@.take(old(stars)@.len() as int) =~= old(stars)@);
            },
            None => {},
        }
    }
}

/// Advances a countdown by the time that the frame took and, if it expired,
/// asks for one new entity of the countdown's kind: at a position drawn in
/// the window and, for an enemy, with a heading drawn. Without a window the
/// countdown still advances, and nothing is asked for.
pub fn tick_and_maybe_spawn(timer: &mut SpawnTimer, delta_us: u32, bounds: Option<Bounds>) -> (request:
    Option<NewEntitySpec>)
    ensures
        *final(timer) == old(timer).ticked(delta_us),
        request.is_some() <==> final(timer).finished && bounds.is_some(),
        request.is_some() ==> entity_fits(request.unwrap(), old(timer).kind, bounds.unwrap()),
{
    timer.tick(delta_us);
    if timer.finished() {
        match bounds {
            Some(window) => {
                let sample_x = random_u32();
                let sample_y = random_u32();
                match timer.kind {
                    SpawnKind::Enemy => {
                        let sample_dx = random_u32();
                        let sample_dy = random_u32();
                        Some(
                            new_entity(
                                SpawnKind::Enemy,
                                window,
                                sample_x,
                                sample_y,
                                sample_dx,
                                sample_dy,
                            ),
                        )
                    },
                    SpawnKind::Collectible => Some(
                        new_entity(SpawnKind::Collectible, window, sample_x, sample_y, 0, 0),
                    ),
                }
            },
            None => None,
        }
    } else {
        None
    }
}

} // verus!
