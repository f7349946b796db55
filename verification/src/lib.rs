//! Simulation core of a small arcade game.
//!
//! A player avatar moves inside a window, avoids bouncing enemies and picks up
//! stars that appear over time. Positions are fixed-point integers, headings
//! are fixed-point vectors and times are whole microseconds, so a frame is a
//! function of the frame before, the keys, the time elapsed and the numbers
//! drawn.
//!
//! - `geometry`, `direction`, `math`: positions, window extents, headings.
//! - `movement`: how far the player and the enemies travel in a frame.
//! - `confine`: holding positions inside the window, turning enemies round.
//! - `collision`: overlap tests between the player, enemies and stars.
//! - `timer`, `spawner`: countdowns and the entities that they bring.
//! - `score`, `events`: the score, game-over events and sounds.
//! - `state`: the session's modes and the keys that change them.
//! - `world`, `game`: the entities together, and one frame from end to end.

pub mod collision;
pub mod confine;
pub mod direction;
pub mod entity;
pub mod events;
pub mod game;
pub mod geometry;
pub mod math;
pub mod movement;
pub mod score;
pub mod spawner;
pub mod state;
pub mod timer;
pub mod world;
