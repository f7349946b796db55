//! Fixed-point positions and window extents.
//!
//! One world unit is `UNIT` sub-units; every coordinate and extent is a whole
//! number of sub-units.

use vstd::prelude::*;

verus! {

/// Sub-units in one world unit.
pub const UNIT: u32 = 1_000;

/// A point or an offset in the plane, in sub-units.
#[derive(Clone, Copy, Debug, PartialEq, Eq, Structural)]
pub struct Vec2 {
    pub x: i64,
    pub y: i64,
}

impl Vec2 {
    /// The point with the given coordinates in sub-units.
    pub fn new(x: i64, y: i64) -> (point: Vec2)
        ensures
            point == (Vec2 { x, y }),
    {
        Vec2 { x, y }
    }

    /// The point with the given coordinates in whole world units.
    pub fn from_units(x: i32, y: i32) -> (point: Vec2)
        ensures
            point.x == x * UNIT,
            point.y == y * UNIT,
    {
        let unit: i64 = 1_000;
        Vec2 { x: x as i64 * unit, y: y as i64 * unit }
    }
}

/// The extent of the window, in sub-units. The window spans `0 ..= width`
/// by `0 ..= height`.
#[derive(Clone, Copy, Debug, PartialEq, Eq, Structural)]
pub struct Bounds {
    pub width: u32,
    pub height: u32,
}

impl Bounds {
    /// The window of the given size in whole world units.
    pub fn from_units(width: u16, height: u16) -> (bounds: Bounds)
        ensures
            bounds.width == width * UNIT,
            bounds.height == height * UNIT,
    {
        let unit: u32 = 1_000;
        Bounds { width: width as u32 * unit, height: height as u32 * unit }
    }

    /// The middle of the window, each coordinate rounded down.
    pub open spec fn spec_center(&self) -> Vec2 {
        Vec2 { x: (self.width / 2) as i64, y: (self.height / 2) as i64 }
    }

    /// The middle of the window, each coordinate rounded down.
    #[verifier::when_used_as_spec(spec_center)]
    pub fn center(&self) -> (middle: Vec2)
        ensures
            middle == self.spec_center(),
    {
        Vec2 { x: (self.width / 2) as i64, y: (self.height / 2) as i64 }
    }

    /// Whether `point` lies in the window, its far edges left out.
    pub open spec fn holds(self, point: Vec2) -> bool {
        &&& 0 <= point.x <= self.width
        &&& 0 <= point.y <= self.height
        &&& self.width > 0 ==> point.x < self.width
        &&& self.height > 0 ==> point.y < self.height
    }
}

} // verus!
