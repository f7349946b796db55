//! What populates the window, and how large and how many.

use vstd::prelude::*;
use crate::direction::Direction;
use crate::geometry::Vec2;

verus! {

/// Radius of the player, in sub-units.
pub const PLAYER_RADIUS: u32 = 32_000;

/// Radius of an enemy, in sub-units.
pub const ENEMY_RADIUS: u32 = 32_000;

/// Radius of a star, in sub-units.
pub const STAR_RADIUS: u32 = 15_000;

/// Enemies at the start of a game.
pub const ENEMIES_NUMBER: usize = 4;

/// Stars at the start of a game.
pub const STARS_NUMBER: usize = 10;

/// An enemy: where it is and where it is heading.
#[derive(Clone, Copy, Debug, PartialEq, Eq, Structural)]
pub struct Enemy {
    pub position: Vec2,
    pub direction: Direction,
}

impl Enemy {
    /// The enemy's heading is no longer than one.
    pub open spec fn wf(self) -> bool {
        self.direction.wf()
    }
}

} // verus!
