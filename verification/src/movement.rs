//! How far the player and the enemies travel in one frame.

use vstd::prelude::*;
use crate::direction::{
    abs,
    lemma_axis_heading,
    lemma_diagonal_heading,
    Direction,
    DIAGONAL,
    DIRECTION_ONE,
};
use crate::geometry::Vec2;

verus! {

/// Speed of the player, in sub-units per second.
pub const PLAYER_SPEED: u32 = 500_000;

/// Speed of an enemy, in sub-units per second.
pub const ENEMY_SPEED: u32 = 200_000;

/// Microseconds in one second.
pub const MICROS_PER_SECOND: u64 = 1_000_000;

/// Which of the four movement keys are held down.
#[derive(Clone, Copy, Debug, PartialEq, Eq, Structural)]
pub struct MoveKeys {
    pub up: bool,
    pub down: bool,
    pub left: bool,
    pub right: bool,
}

/// What two opposed keys add up to along their axis: `1`, `-1`, or `0` when
/// both or neither are held.
pub open spec fn axis_sum(positive: bool, negative: bool) -> int {
    (if positive {
        1int
    } else {
        0int
    }) - (if negative {
        1int
    } else {
        0int
    })
}

impl MoveKeys {
    /// The horizontal sum of the keys: right counts `1`, left `-1`.
    pub open spec fn net_x(self) -> int {
        axis_sum(self.right, self.left)
    }

    /// The vertical sum of the keys: up counts `1`, down `-1`.
    pub open spec fn net_y(self) -> int {
        axis_sum(self.up, self.down)
    }

    /// The heading that the keys ask for: their sum, brought to length one.
    pub open spec fn spec_heading(self) -> Direction {
        Direction::spec_normalized(self.net_x(), self.net_y())
    }

    /// The heading that the keys ask for: their sum, brought to length one.
    pub fn heading(&self) -> (heading: Direction)
        ensures
            heading == self.spec_heading(),
            heading.wf(),
            heading.is_unit() <==> self.net_x() != 0 || self.net_y() != 0,
    {
        let mut vx: i32 = 0;
        let mut vy: i32 = 0;
        if self.right {
            vx = vx + 1;
        }
        if self.left {
            vx = vx - 1;
        }
        if self.up {
            vy = vy + 1;
        }
        if self.down {
            vy = vy - 1;
        }
        Direction::normalized(vx, vy)
    }
}

/// The distance covered along one axis in `dt_us` microseconds at `speed`
/// sub-units per second, with `component` as that axis's share of the heading;
/// rounded down.
pub open spec fn travel_magnitude(component: int, speed: u32, dt_us: u32) -> int {
    abs(component) * speed * dt_us / (DIRECTION_ONE * MICROS_PER_SECOND)
}

/// The signed offset along one axis: `travel_magnitude` on the side of
/// `component`.
pub open spec fn travel(component: int, speed: u32, dt_us: u32) -> int {
    if component < 0 {
        -travel_magnitude(component, speed, dt_us)
    } else {
        travel_magnitude(component, speed, dt_us)
    }
}

/// The offset covered in `dt_us` microseconds at `speed` along `direction`.
pub open spec fn displacement(direction: Direction, speed: u32, dt_us: u32) -> Vec2 {
    Vec2 {
        x: travel(direction.x as int, speed, dt_us) as i64,
        y: travel(direction.y as int, speed, dt_us) as i64,
    }
}

/// `travel` for one axis.
fn travel_axis(component: i32, speed: u32, dt_us: u32) -> (offset: i64)
    ensures
        offset == travel(component as int, speed, dt_us),
{
    let size: u128 = if component < 0 {
        (-(component as i64)) as u128
    } else {
        component as u128
    };
    assert(size * speed <= 0x8000_0000 * 0xffff_ffff) by (nonlinear_arith)
        requires
            size <= 0x8000_0000,
            speed <= 0xffff_ffff,
    ;
    assert(size * speed * dt_us <= 0x8000_0000 * 0xffff_ffff * 0xffff_ffff) by (nonlinear_arith)
        requires
            size * speed <= 0x8000_0000 * 0xffff_ffff,
            dt_us <= 0xffff_ffff,
    ;
    let covered: u128 = size * (speed as u128) * (dt_us as u128) / 65_536_000_000;
    if component < 0 {
        -(covered as i64)
    } else {
        covered as i64
    }
}

/// The offset of an enemy over one frame: it moves at constant `speed` along
/// its stored `direction`.
pub fn move_enemy(direction: Direction, speed: u32, dt_us: u32) -> (delta: Vec2)
    ensures
        delta == displacement(direction, speed, dt_us),
        delta.x == travel(direction.x as int, speed, dt_us),
        delta.y == travel(direction.y as int, speed, dt_us),
{
    Vec2 { x: travel_axis(direction.x, speed, dt_us), y: travel_axis(direction.y, speed, dt_us) }
}

/// The offset of the player over one frame: along the heading of the keys
/// held, at `speed`. Keys that cancel out, or none, give no movement.
pub fn move_player(keys: MoveKeys, speed: u32, dt_us: u32) -> (delta: Vec2)
    ensures
        delta == displacement(keys.spec_heading(), speed, dt_us),
{
    move_enemy(keys.heading(), speed, dt_us)
}

/// The squared length of an offset.
pub open spec fn squared_length(v: Vec2) -> int {
    v.x * v.x + v.y * v.y
}

/// Nothing moves faster than its speed: along a heading no longer than one,
/// the length of a frame's offset, counted in millionths of a sub-unit, is
/// at most `speed * dt_us`.
pub proof fn lemma_displacement_within_speed(direction: Direction, speed: u32, dt_us: u32)
    requires
        direction.wf(),
    ensures
        squared_length(displacement(direction, speed, dt_us)) * (MICROS_PER_SECOND
            * MICROS_PER_SECOND) <= (speed * dt_us) * (speed * dt_us),
{
    let a = abs(direction.x as int);
    let b = abs(direction.y as int);
    let k: int = speed * dt_us;
    let s: int = DIRECTION_ONE as int;
    let m: int = MICROS_PER_SECOND as int;
    let p = travel_magnitude(direction.x as int, speed, dt_us);
    let q = travel_magnitude(direction.y as int, speed, dt_us);
    assert(a * speed * dt_us == a * k && b * speed * dt_us == b * k) by (nonlinear_arith)
        requires
            k == speed * dt_us,
    ;
    assert(0 <= k) by (nonlinear_arith)
        requires
            k == speed * dt_us,
    ;
    assert(0 <= a * k && 0 <= b * k) by (nonlinear_arith)
        requires
            0 <= a,
            0 <= b,
            0 <= k,
    ;
    assert(p == (a * k) / 65_536_000_000 && q == (b * k) / 65_536_000_000);
    assert(0 <= p && p * 65_536_000_000 <= a * k);
    assert(0 <= q && q * 65_536_000_000 <= b * k);
    assert(a <= 65_536 && b <= 65_536) by (nonlinear_arith)
        requires
            direction.x * direction.x + direction.y * direction.y <= 4_294_967_296,
            a == direction.x || a == -direction.x,
            b == direction.y || b == -direction.y,
    ;
    assert(p * 1_000_000 <= k && q * 1_000_000 <= k) by (nonlinear_arith)
        requires
            p * 65_536_000_000 <= a * k,
            q * 65_536_000_000 <= b * k,
            a <= 65_536,
            b <= 65_536,
            0 <= k,
    ;
    assert(k <= 0xffff_ffff * 0xffff_ffff) by (nonlinear_arith)
        requires
            k == speed * dt_us,
            speed <= 0xffff_ffff,
            dt_us <= 0xffff_ffff,
    ;
    let d = displacement(direction, speed, dt_us);
    assert(d.x == p || d.x == -p);
    assert(d.y == q || d.y == -q);
    let pp = p * p;
    let qq = q * q;
    let aa = a * a;
    let bb = b * b;
    let kk = k * k;
    assert(d.x * d.x == pp && d.y * d.y == qq) by (nonlinear_arith)
        requires
            d.x == p || d.x == -p,
            d.y == q || d.y == -q,
            pp == p * p,
            qq == q * q,
    ;
    assert(pp * 4_294_967_296_000_000_000_000 <= aa * kk) by (nonlinear_arith)
        requires
            0 <= p,
            p * 65_536_000_000 <= a * k,
            pp == p * p,
            aa == a * a,
            kk == k * k,
    ;
    assert(qq * 4_294_967_296_000_000_000_000 <= bb * kk) by (nonlinear_arith)
        requires
            0 <= q,
            q * 65_536_000_000 <= b * k,
            qq == q * q,
            bb == b * b,
            kk == k * k,
    ;
    assert(aa + bb <= 4_294_967_296) by (nonlinear_arith)
        requires
            direction.x * direction.x + direction.y * direction.y <= 4_294_967_296,
            a == direction.x || a == -direction.x,
            b == direction.y || b == -direction.y,
            aa == a * a,
            bb == b * b,
    ;
    assert(aa * kk + bb * kk <= 4_294_967_296 * kk) by (nonlinear_arith)
        requires
            aa + bb <= 4_294_967_296,
            0 <= kk,
            kk == k * k,
    ;
    assert((pp + qq) * 1_000_000_000_000 <= kk);
    assert(MICROS_PER_SECOND * MICROS_PER_SECOND == 1_000_000_000_000);
}

/// What the player covers in one frame, key by key. The offset is never
/// longer than `speed * dt_us`; keys that add up to nothing give no movement;
/// along one axis the player covers the whole of `speed * dt_us`, rounded down
/// to a sub-unit; along a diagonal both axes get the same share. Where
/// `speed * dt_us` comes to two sub-units or more, keys that add up to
/// something do move the player.
pub proof fn lemma_player_step(keys: MoveKeys, speed: u32, dt_us: u32)
    ensures
        ({
            let delta = displacement(keys.spec_heading(), speed, dt_us);
            let whole = speed * dt_us / (MICROS_PER_SECOND as int);
            let share = travel_magnitude(DIAGONAL as int, speed, dt_us);
            &&& squared_length(delta) * (MICROS_PER_SECOND * MICROS_PER_SECOND) <= (speed * dt_us)
                * (speed * dt_us)
            &&& keys.net_y() == 0 ==> delta.x == keys.net_x() * whole && delta.y == 0
            &&& keys.net_x() == 0 ==> delta.x == 0 && delta.y == keys.net_y() * whole
            &&& keys.net_x() != 0 && keys.net_y() != 0 ==> delta.x == keys.net_x() * share
                && delta.y == keys.net_y() * share
            &&& (keys.net_x() != 0 || keys.net_y() != 0) && whole >= 2 ==> delta.x != 0 || delta.y
                != 0
        }),
{
    let vx = keys.net_x();
    let vy = keys.net_y();
    let heading = keys.spec_heading();
    let k: int = speed * dt_us;
    assert(0 <= k <= 0xffff_ffff * 0xffff_ffff) by (nonlinear_arith)
        requires
            k == speed * dt_us,
            speed <= 0xffff_ffff,
            dt_us <= 0xffff_ffff,
    ;
    assert(65_536 * speed * dt_us == 65_536 * k && 0 * speed * dt_us == 0 && 46_340 * speed
        * dt_us == 46_340 * k) by (nonlinear_arith)
        requires
            k == speed * dt_us,
    ;
    if vx == 0 && vy == 0 {
        crate::direction::lemma_normalized_zero(0, 0);
        assert(heading.x == 0 && heading.y == 0);
    } else if vy == 0 {
        lemma_axis_heading(vx);
    } else if vx == 0 {
        lemma_axis_heading(vy);
    } else {
        lemma_diagonal_heading(vx, vy);
    }
    crate::direction::lemma_normalized_is_unit(vx, vy);
    lemma_displacement_within_speed(heading, speed, dt_us);
}

} // verus!
