//! Keeping entities inside the window: clamping positions and turning
//! enemies round at the edges.

use vstd::prelude::*;
use crate::direction::{lemma_unit_components, Direction};
use crate::geometry::{Bounds, Vec2};

verus! {

/// `x` brought into `lo ..= hi`: first raised to `lo`, then lowered to `hi`.
/// Where the range is empty the result is `hi`.
pub open spec fn clamp_axis(x: int, lo: int, hi: int) -> int {
    let raised = if x < lo {
        lo
    } else {
        x
    };
    if raised > hi {
        hi
    } else {
        raised
    }
}

/// The point `(x, y)` brought to where a disc of the given radius around it
/// lies inside the window.
pub open spec fn clamp_point(x: int, y: int, radius: u32, bounds: Bounds) -> Vec2 {
    Vec2 {
        x: clamp_axis(x, radius as int, bounds.width - radius) as i64,
        y: clamp_axis(y, radius as int, bounds.height - radius) as i64,
    }
}

/// `position` brought to where a disc of the given radius around it lies
/// inside the window.
pub open spec fn clamped(position: Vec2, radius: u32, bounds: Bounds) -> Vec2 {
    clamp_point(position.x as int, position.y as int, radius, bounds)
}

/// Whether a disc of the given radius centred at coordinate `x` touches or
/// crosses either end of `0 ..= extent`.
pub open spec fn touches_edge(x: int, radius: u32, extent: u32) -> bool {
    x <= radius || x >= extent - radius
}

/// `component` turned round if `turn` holds.
pub open spec fn turned(component: i32, turn: bool) -> int {
    if turn {
        -component
    } else {
        component as int
    }
}

/// The heading of an enemy at `(x, y)` after the edges had their say: each
/// axis on which the enemy touches an edge is turned round.
pub open spec fn reflect_point(x: int, y: int, radius: u32, bounds: Bounds, direction: Direction)
    -> Direction {
    Direction {
        x: turned(direction.x, touches_edge(x, radius, bounds.width)) as i32,
        y: turned(direction.y, touches_edge(y, radius, bounds.height)) as i32,
    }
}

/// Whether an enemy at `(x, y)` touches an edge on either axis.
pub open spec fn bounces_point(x: int, y: int, radius: u32, bounds: Bounds) -> bool {
    touches_edge(x, radius, bounds.width) || touches_edge(y, radius, bounds.height)
}

/// The heading of an enemy at `position` after the edges had their say.
pub open spec fn reflected(position: Vec2, radius: u32, bounds: Bounds, direction: Direction)
    -> Direction {
    reflect_point(position.x as int, position.y as int, radius, bounds, direction)
}

/// Whether an enemy at `position` touches an edge on either axis.
pub open spec fn bounces(position: Vec2, radius: u32, bounds: Bounds) -> bool {
    bounces_point(position.x as int, position.y as int, radius, bounds)
}

/// `clamp_axis` for a disc of the given radius on an axis of the given extent.
fn clamp_coordinate(x: i128, radius: u32, extent: u32) -> (clamped: i64)
    ensures
        clamped == clamp_axis(x as int, radius as int, extent - radius),
{
    let lo: i64 = radius as i64;
    let hi: i64 = extent as i64 - radius as i64;
    let raised: i128 = if x < lo as i128 {
        lo as i128
    } else {
        x
    };
    if raised > hi as i128 {
        hi
    } else {
        raised as i64
    }
}

/// `touches_edge`, computed.
fn coordinate_touches_edge(x: i128, radius: u32, extent: u32) -> (touches: bool)
    ensures
        touches == touches_edge(x as int, radius, extent),
{
    x <= radius as i128 || x >= extent as i128 - radius as i128
}

/// `clamp_point`, computed for coordinates of any size.
pub(crate) fn clamp_wide(x: i128, y: i128, radius: u32, bounds: Bounds) -> (inside: Vec2)
    ensures
        inside == clamp_point(x as int, y as int, radius, bounds),
{
    Vec2 {
        x: clamp_coordinate(x, radius, bounds.width),
        y: clamp_coordinate(y, radius, bounds.height),
    }
}

/// `reflect_point` and `bounces_point`, computed for coordinates of any size.
pub(crate) fn reflect_wide(x: i128, y: i128, radius: u32, bounds: Bounds, direction: Direction) -> (outcome:
    (Direction, bool))
    requires
        direction.wf(),
    ensures
        outcome.0 == reflect_point(x as int, y as int, radius, bounds, direction),
        outcome.1 == bounces_point(x as int, y as int, radius, bounds),
        outcome.0.wf(),
{
    proof {
        lemma_reflection_keeps_length(x as int, y as int, radius, bounds, direction);
        lemma_unit_components(direction);
    }
    let turn_x = coordinate_touches_edge(x, radius, bounds.width);
    let turn_y = coordinate_touches_edge(y, radius, bounds.height);
    let turned_x: i32 = if turn_x {
        -direction.x
    } else {
        direction.x
    };
    let turned_y: i32 = if turn_y {
        -direction.y
    } else {
        direction.y
    };
    (Direction { x: turned_x, y: turned_y }, turn_x || turn_y)
}

/// Brings `position` to where a disc of the given radius around it lies
/// inside the window: `x` into `radius ..= width - radius` and `y` into
/// `radius ..= height - radius`, each on its own.
pub fn clamp(position: Vec2, radius: u32, bounds: Bounds) -> (inside: Vec2)
    ensures
        inside == clamped(position, radius, bounds),
{
    clamp_wide(position.x as i128, position.y as i128, radius, bounds)
}

/// Turns an enemy's heading round on each axis on which the enemy touches or
/// crosses an edge of the window. Returns the new heading and whether either
/// axis was turned.
pub fn reflect_enemy_direction(
    position: Vec2,
    radius: u32,
    bounds: Bounds,
    direction: Direction,
) -> (outcome: (Direction, bool))
    requires
        direction.wf(),
    ensures
        outcome.0 == reflected(position, radius, bounds, direction),
        outcome.1 == bounces(position, radius, bounds),
        outcome.0.wf(),
{
    reflect_wide(position.x as i128, position.y as i128, radius, bounds, direction)
}

/// Turning round changes no component's size: the heading stays as long as
/// it was, and so stays a heading.
pub proof fn lemma_reflection_keeps_length(
    x: int,
    y: int,
    radius: u32,
    bounds: Bounds,
    direction: Direction,
)
    requires
        direction.wf(),
    ensures
        ({
            let after = reflect_point(x, y, radius, bounds, direction);
            &&& after.x == turned(direction.x, touches_edge(x, radius, bounds.width))
            &&& after.y == turned(direction.y, touches_edge(y, radius, bounds.height))
            &&& after.x * after.x + after.y * after.y == direction.x * direction.x + direction.y
                * direction.y
            &&& after.wf()
        }),
{
    lemma_unit_components(direction);
    let after = reflect_point(x, y, radius, bounds, direction);
    assert(after.x * after.x == direction.x * direction.x && after.y * after.y == direction.y
        * direction.y) by (nonlinear_arith)
        requires
            after.x == direction.x || after.x == -direction.x,
            after.y == direction.y || after.y == -direction.y,
    ;
}

/// Clamping twice is clamping once.
pub proof fn lemma_clamp_idempotent(position: Vec2, radius: u32, bounds: Bounds)
    ensures
        clamped(clamped(position, radius, bounds), radius, bounds) == clamped(
            position,
            radius,
            bounds,
        ),
{
}

/// In a window that has room for the disc, a clamped position keeps the
/// whole disc inside, and a position that already does so is left alone.
pub proof fn lemma_clamp_within(position: Vec2, radius: u32, bounds: Bounds)
    requires
        2 * radius <= bounds.width,
        2 * radius <= bounds.height,
    ensures
        radius <= clamped(position, radius, bounds).x <= bounds.width - radius,
        radius <= clamped(position, radius, bounds).y <= bounds.height - radius,
        radius <= position.x <= bounds.width - radius && radius <= position.y <= bounds.height
            - radius ==> clamped(position, radius, bounds) == position,
{
}

/// Reflection turns exactly the axes on which the enemy touches or crosses an
/// edge, and an enemy strictly inside the window keeps its heading.
pub proof fn lemma_reflection_turns_touching_axes(
    position: Vec2,
    radius: u32,
    bounds: Bounds,
    direction: Direction,
)
    requires
        direction.wf(),
    ensures
        ({
            let after = reflected(position, radius, bounds, direction);
            let on_x = position.x <= radius || position.x >= bounds.width - radius;
            let on_y = position.y <= radius || position.y >= bounds.height - radius;
            &&& on_x ==> after.x == -direction.x
            &&& !on_x ==> after.x == direction.x
            &&& on_y ==> after.y == -direction.y
            &&& !on_y ==> after.y == direction.y
            &&& bounces(position, radius, bounds) == (on_x || on_y)
            &&& !on_x && !on_y ==> after == direction
        }),
{
    lemma_reflection_keeps_length(position.x as int, position.y as int, radius, bounds, direction);
}

} // verus!
