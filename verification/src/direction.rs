//! Headings as fixed-point vectors no longer than one.

use vstd::prelude::*;
use crate::math::{
    ceil_sqrt,
    ceil_sqrt_u128,
    is_ceil_sqrt,
    lemma_ceil_sqrt_is,
    lemma_ceil_sqrt_unique,
};

verus! {

/// The fixed-point value that stands for 1 in a `Direction`.
pub const DIRECTION_ONE: i32 = 65_536;

/// `DIRECTION_ONE` squared.
pub const DIRECTION_ONE_SQUARED: u64 = 4_294_967_296;

/// Each component of a diagonal heading: the largest `d` with
/// `2 * d * d <= DIRECTION_ONE_SQUARED`.
pub const DIAGONAL: i32 = 46_340;

/// A heading: a vector whose components are fractions of `DIRECTION_ONE`.
#[derive(Clone, Copy, Debug, PartialEq, Eq, Structural)]
pub struct Direction {
    pub x: i32,
    pub y: i32,
}

/// The absolute value of `v`.
pub open spec fn abs(v: int) -> int {
    if v < 0 {
        -v
    } else {
        v
    }
}

/// The length of the vector `(vx, vy)` in fractions of `DIRECTION_ONE`,
/// rounded up.
pub open spec fn scaled_length(vx: int, vy: int) -> nat {
    ceil_sqrt(((vx * vx + vy * vy) * DIRECTION_ONE_SQUARED) as nat)
}

/// The size of one component of a vector of scaled length `length` once the
/// vector is brought to length one, rounded down.
pub open spec fn normalized_magnitude(v: int, length: nat) -> int {
    if length == 0 {
        0
    } else {
        abs(v) * DIRECTION_ONE_SQUARED / (length as int)
    }
}

/// One component of a vector of scaled length `length` once the vector is
/// brought to length one, rounded toward zero.
pub open spec fn normalized_axis(v: int, length: nat) -> int {
    if v < 0 {
        -normalized_magnitude(v, length)
    } else {
        normalized_magnitude(v, length)
    }
}

impl Direction {
    /// The heading of the vector `(vx, vy)`: the vector scaled to length one,
    /// each component rounded toward zero.
    pub open spec fn spec_normalized(vx: int, vy: int) -> Direction {
        Direction {
            x: normalized_axis(vx, scaled_length(vx, vy)) as i32,
            y: normalized_axis(vy, scaled_length(vx, vy)) as i32,
        }
    }

    /// The heading is no longer than one.
    pub open spec fn wf(self) -> bool {
        self.x * self.x + self.y * self.y <= DIRECTION_ONE_SQUARED
    }

    /// The heading of no movement.
    pub open spec fn is_zero(self) -> bool {
        self.x == 0 && self.y == 0
    }

    /// The heading has length one, but for the rounding of its components:
    /// it is no longer than one, and at most three steps shorter.
    pub open spec fn is_unit(self) -> bool {
        &&& self.wf()
        &&& self.x * self.x + self.y * self.y >= DIRECTION_ONE_SQUARED - 6 * DIRECTION_ONE
    }

    /// Tests whether the heading is no longer than one.
    pub fn is_wf(&self) -> (ok: bool)
        ensures
            ok == self.wf(),
    {
        let x: i128 = self.x as i128;
        let y: i128 = self.y as i128;
        assert(0 <= x * x <= 0x8000_0000 * 0x8000_0000 && 0 <= y * y <= 0x8000_0000
            * 0x8000_0000) by (nonlinear_arith)
            requires
                -0x8000_0000 <= x <= 0x8000_0000,
                -0x8000_0000 <= y <= 0x8000_0000,
        ;
        x * x + y * y <= 4_294_967_296
    }

    /// The heading of the vector `(vx, vy)`: the vector scaled to length one,
    /// each component rounded toward zero. The zero vector has the zero heading.
    pub fn normalized(vx: i32, vy: i32) -> (heading: Direction)
        ensures
            heading == Direction::spec_normalized(vx as int, vy as int),
            heading.x == normalized_axis(vx as int, scaled_length(vx as int, vy as int)),
            heading.y == normalized_axis(vy as int, scaled_length(vx as int, vy as int)),
            heading.wf(),
            heading.is_zero() <==> vx == 0 && vy == 0,
            heading.is_unit() <==> vx != 0 || vy != 0,
    {
        let ax: u128 = if vx < 0 {
            (-(vx as i64)) as u128
        } else {
            vx as u128
        };
        let ay: u128 = if vy < 0 {
            (-(vy as i64)) as u128
        } else {
            vy as u128
        };
        assert(ax == abs(vx as int) && ay == abs(vy as int));
        assert(ax * ax + ay * ay <= 0x8000_0000_0000_0000 && ax * ax == vx * vx && ay * ay == vy
            * vy) by (nonlinear_arith)
            requires
                ax <= 0x8000_0000,
                ay <= 0x8000_0000,
                ax == vx || ax == -vx,
                ay == vy || ay == -vy,
        ;
        let squared: u128 = ax * ax + ay * ay;
        assert(squared * 4_294_967_296 <= 0x8000_0000_0000_0000 * 4_294_967_296)
            by (nonlinear_arith)
            requires
                squared <= 0x8000_0000_0000_0000,
        ;
        let length: u128 = ceil_sqrt_u128(squared * 4_294_967_296);
        assert(length == scaled_length(vx as int, vy as int));
        proof {
            lemma_normalized_is_unit(vx as int, vy as int);
            lemma_normalized_zero(vx as int, vy as int);
            if vx != 0 || vy != 0 {
                lemma_normalized_near_one(vx as int, vy as int);
            }
        }
        if length == 0 {
            Direction { x: 0, y: 0 }
        } else {
            assert(ax * 4_294_967_296 <= 0x8000_0000 * 4_294_967_296 && ay * 4_294_967_296
                <= 0x8000_0000 * 4_294_967_296) by (nonlinear_arith)
                requires
                    ax <= 0x8000_0000,
                    ay <= 0x8000_0000,
            ;
            let qx: u128 = ax * 4_294_967_296 / length;
            let qy: u128 = ay * 4_294_967_296 / length;
            assert(qx == normalized_magnitude(vx as int, length as nat));
            assert(qy == normalized_magnitude(vy as int, length as nat));
            let x: i32 = if vx < 0 {
                -(qx as i32)
            } else {
                qx as i32
            };
            let y: i32 = if vy < 0 {
                -(qy as i32)
            } else {
                qy as i32
            };
            Direction { x, y }
        }
    }
}

/// A heading no longer than one has components no larger than one.
pub proof fn lemma_unit_components(direction: Direction)
    requires
        direction.wf(),
    ensures
        -DIRECTION_ONE <= direction.x <= DIRECTION_ONE,
        -DIRECTION_ONE <= direction.y <= DIRECTION_ONE,
{
    assert(-65_536 <= direction.x <= 65_536 && -65_536 <= direction.y <= 65_536)
        by (nonlinear_arith)
        requires
            direction.x * direction.x + direction.y * direction.y <= 4_294_967_296,
    ;
}

/// A vector brought to length one is no longer than one: the squares of its
/// two components sum to at most `DIRECTION_ONE_SQUARED`.
pub proof fn lemma_normalized_is_unit(vx: int, vy: int)
    ensures
        ({
            let length = scaled_length(vx, vy);
            let a = normalized_magnitude(vx, length);
            let b = normalized_magnitude(vy, length);
            &&& a * a + b * b <= DIRECTION_ONE_SQUARED
            &&& 0 <= a <= DIRECTION_ONE
            &&& 0 <= b <= DIRECTION_ONE
            &&& Direction::spec_normalized(vx, vy).x == normalized_axis(vx, length)
            &&& Direction::spec_normalized(vx, vy).y == normalized_axis(vy, length)
            &&& Direction::spec_normalized(vx, vy).wf()
        }),
{
    let s: int = DIRECTION_ONE_SQUARED as int;
    let m: int = vx * vx + vy * vy;
    assert(m >= 0 && m * s >= 0) by (nonlinear_arith)
        requires
            m == vx * vx + vy * vy,
            s == 4_294_967_296,
    ;
    let length = scaled_length(vx, vy);
    lemma_ceil_sqrt_is((m * s) as nat);
    let a = normalized_magnitude(vx, length);
    let b = normalized_magnitude(vy, length);
    if length > 0 {
        let p = abs(vx) * s;
        let q = abs(vy) * s;
        assert(a * length <= p && b * length <= q && a >= 0 && b >= 0) by (nonlinear_arith)
            requires
                length > 0,
                p >= 0,
                q >= 0,
                a == p / (length as int),
                b == q / (length as int),
        ;
        assert((a * a + b * b) * (length * length) <= p * p + q * q) by (nonlinear_arith)
            requires
                0 <= a * length <= p,
                0 <= b * length <= q,
        ;
        assert(p * p + q * q == (m * s) * s) by (nonlinear_arith)
            requires
                p == abs(vx) * s,
                q == abs(vy) * s,
                m == vx * vx + vy * vy,
                abs(vx) == vx || abs(vx) == -vx,
                abs(vy) == vy || abs(vy) == -vy,
        ;
        assert((m * s) * s <= (length * length) * s) by (nonlinear_arith)
            requires
                m * s <= length * length,
                s > 0,
        ;
        assert(a * a + b * b <= s) by (nonlinear_arith)
            requires
                (a * a + b * b) * (length * length) <= (length * length) * s,
                length > 0,
        ;
    }
    assert(a <= 65_536 && b <= 65_536) by (nonlinear_arith)
        requires
            a * a + b * b <= 4_294_967_296,
    ;
    let heading = Direction::spec_normalized(vx, vy);
    assert(heading.x * heading.x == a * a && heading.y * heading.y == b * b) by (nonlinear_arith)
        requires
            heading.x == a || heading.x == -a,
            heading.y == b || heading.y == -b,
    ;
}

/// Only the zero vector has the zero heading.
pub proof fn lemma_normalized_zero(vx: int, vy: int)
    ensures
        ({
            let length = scaled_length(vx, vy);
            let a = normalized_magnitude(vx, length);
            let b = normalized_magnitude(vy, length);
            (a == 0 && b == 0) <==> (vx == 0 && vy == 0)
        }),
{
    let s: int = DIRECTION_ONE_SQUARED as int;
    let m: int = vx * vx + vy * vy;
    assert(m >= 0 && m * s >= 0 && (m == 0 <==> vx == 0 && vy == 0)) by (nonlinear_arith)
        requires
            m == vx * vx + vy * vy,
            s == 4_294_967_296,
    ;
    let length = scaled_length(vx, vy);
    lemma_ceil_sqrt_is((m * s) as nat);
    if vx == 0 && vy == 0 {
        assert(m * s == 0);
        assert(abs(vx) * s == 0 && abs(vy) * s == 0);
    } else {
        // The longer component spans at least one whole step of the quotient.
        let big = if abs(vx) >= abs(vy) {
            abs(vx)
        } else {
            abs(vy)
        };
        assert(big >= 1);
        assert(m * s <= (2 * big * 65_536) * (2 * big * 65_536)) by (nonlinear_arith)
            requires
                m == vx * vx + vy * vy,
                s == 4_294_967_296,
                big >= abs(vx),
                big >= abs(vy),
                abs(vx) == vx || abs(vx) == -vx,
                abs(vy) == vy || abs(vy) == -vy,
        ;
        crate::math::lemma_ceil_sqrt_least((m * s) as nat, (2 * big * 65_536) as nat);
        assert(length <= 2 * big * 65_536);
        assert(length > 0) by (nonlinear_arith)
            requires
                m * s <= length * length,
                m > 0,
                s > 0,
                length >= 0,
        ;
        assert(big * s / (length as int) >= 1) by (nonlinear_arith)
            requires
                0 < length <= 2 * big * 65_536,
                s == 4_294_967_296,
                big >= 1,
        ;
    }
}

/// The heading of a vector other than zero is at most three steps shorter
/// than one.
pub proof fn lemma_normalized_near_one(vx: int, vy: int)
    requires
        vx != 0 || vy != 0,
    ensures
        Direction::spec_normalized(vx, vy).is_unit(),
{
    let s: int = DIRECTION_ONE_SQUARED as int;
    let m: int = vx * vx + vy * vy;
    assert(m >= 1 && m * s >= s) by (nonlinear_arith)
        requires
            m == vx * vx + vy * vy,
            vx != 0 || vy != 0,
            s == 4_294_967_296,
    ;
    let n = m * s;
    let length = scaled_length(vx, vy) as int;
    lemma_ceil_sqrt_is(n as nat);
    lemma_normalized_is_unit(vx, vy);
    let a = normalized_magnitude(vx, length as nat);
    let b = normalized_magnitude(vy, length as nat);
    let p = abs(vx) * s;
    let q = abs(vy) * s;
    // The root is at least one whole.
    assert(length >= 65_536) by (nonlinear_arith)
        requires
            length * length >= n,
            n >= 4_294_967_296,
            length >= 0,
    ;
    // One step more on each component overshoots the vector.
    assert((a + 1) * length > p && (b + 1) * length > q && p >= 0 && q >= 0) by (nonlinear_arith)
        requires
            length > 0,
            p == abs(vx) * s,
            q == abs(vy) * s,
            abs(vx) >= 0,
            abs(vy) >= 0,
            s > 0,
            a == p / length,
            b == q / length,
    ;
    let u = (a + 1) * (a + 1) + (b + 1) * (b + 1);
    assert(u * (length * length) > p * p + q * q) by (nonlinear_arith)
        requires
            (a + 1) * length > p,
            (b + 1) * length > q,
            p >= 0,
            q >= 0,
            u == (a + 1) * (a + 1) + (b + 1) * (b + 1),
    ;
    assert(p * p + q * q == n * s) by (nonlinear_arith)
        requires
            p == abs(vx) * s,
            q == abs(vy) * s,
            n == (vx * vx + vy * vy) * s,
            abs(vx) == vx || abs(vx) == -vx,
            abs(vy) == vy || abs(vy) == -vy,
    ;
    assert(n * s > (length - 1) * (length - 1) * s) by (nonlinear_arith)
        requires
            n > (length - 1) * (length - 1),
            s > 0,
    ;
    assert(u > 65_535 * 65_535) by (nonlinear_arith)
        requires
            u * (length * length) > (length - 1) * (length - 1) * 4_294_967_296,
            length >= 65_536,
            u >= 0,
    ;
    assert(u == a * a + b * b + 2 * a + 2 * b + 2) by (nonlinear_arith)
        requires
            u == (a + 1) * (a + 1) + (b + 1) * (b + 1),
    ;
    let heading = Direction::spec_normalized(vx, vy);
    assert(heading.x * heading.x == a * a && heading.y * heading.y == b * b) by (nonlinear_arith)
        requires
            heading.x == a || heading.x == -a,
            heading.y == b || heading.y == -b,
    ;
}

/// A vector along one axis has a heading of length exactly one along that
/// axis, on the vector's side.
pub proof fn lemma_axis_heading(v: int)
    requires
        v != 0,
    ensures
        Direction::spec_normalized(v, 0) == (Direction {
            x: if v > 0 {
                DIRECTION_ONE
            } else {
                (-DIRECTION_ONE) as i32
            },
            y: 0,
        }),
        Direction::spec_normalized(0, v) == (Direction {
            x: 0,
            y: if v > 0 {
                DIRECTION_ONE
            } else {
                (-DIRECTION_ONE) as i32
            },
        }),
{
    let s: int = DIRECTION_ONE_SQUARED as int;
    let a = abs(v);
    let n = (v * v + 0 * 0) * s;
    let root = a * 65_536;
    assert(n == root * root && n == (0 * 0 + v * v) * s && (root - 1) * (root - 1) < n && n >= 0
        && root >= 1) by (nonlinear_arith)
        requires
            n == (v * v + 0 * 0) * s,
            s == 4_294_967_296,
            root == a * 65_536,
            a >= 1,
            a == v || a == -v,
    ;
    lemma_ceil_sqrt_is(n as nat);
    lemma_ceil_sqrt_unique(n as nat, root as nat, ceil_sqrt(n as nat));
    assert(scaled_length(v, 0) == root);
    assert(scaled_length(0, v) == root);
    assert(a * s / root == 65_536) by (nonlinear_arith)
        requires
            root == a * 65_536,
            s == 4_294_967_296,
            a >= 1,
    ;
    assert(abs(0) * s == 0);
}

/// A vector with both components of size one has a heading with both
/// components of size `DIAGONAL`, each on its component's side.
pub proof fn lemma_diagonal_heading(vx: int, vy: int)
    requires
        abs(vx) == 1,
        abs(vy) == 1,
    ensures
        Direction::spec_normalized(vx, vy) == (Direction {
            x: (vx * DIAGONAL) as i32,
            y: (vy * DIAGONAL) as i32,
        }),
        2 * DIAGONAL * DIAGONAL <= DIRECTION_ONE_SQUARED < 2 * (DIAGONAL + 1) * (DIAGONAL + 1),
{
    let n: nat = 8_589_934_592;
    assert(vx * vx + vy * vy == 2) by (nonlinear_arith)
        requires
            vx == 1 || vx == -1,
            vy == 1 || vy == -1,
    ;
    assert(is_ceil_sqrt(n, 92_682)) by (nonlinear_arith)
        requires
            n == 8_589_934_592,
    ;
    lemma_ceil_sqrt_is(n);
    lemma_ceil_sqrt_unique(n, 92_682, ceil_sqrt(n));
    assert(scaled_length(vx, vy) == 92_682);
}

} // verus!
