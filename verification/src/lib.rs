//! Simulation core of a small real-time arcade game.
//!
//! A player-controlled circle dodges homing enemies and sweeps through
//! rotating gate triangles; passing through a gate's edge detonates an
//! explosion that converts nearby enemies into score and multiplier pickups.
//!
//! All coordinates are fixed-point integers in milli-pixels (1 pixel =
//! 1000 units) and all angles are in milli-degrees (1 degree = 1000 units),
//! so every motion and collision rule is exact integer arithmetic.

pub mod collision;
pub mod constants;
pub mod game;
pub mod game_objects;
pub mod math;
pub mod sprites;

pub use collision::{check_corner_collision, check_edge_collision};
pub use constants::GameConstants;
pub use game::{Game, GameState, Keys, Snapshot};
pub use game_objects::{GameObject, GameObjectData};
pub use sprites::Sprite;
