//! Fixed configuration of the playfield and the entities.
//!
//! Distances are in milli-pixels (1 pixel = 1000 units), angles in
//! milli-degrees (1 degree = 1000 units), times in milliseconds.

use vstd::prelude::*;

verus! {

/// One pixel, in coordinate units.
pub const SCALE: i64 = 1000;

/// Playfield width.
pub const WINDOW_WIDTH: i64 = 1_200_000;
/// Playfield height.
pub const WINDOW_HEIGHT: i64 = 800_000;

/// Player step per tick.
pub const PLAYER_SPEED: i64 = 3_000;
/// Player step per tick on a diagonal: `PLAYER_SPEED` scaled by `sqrt(2)/2`.
pub const PLAYER_SPEED_DIAGONAL: i64 = 2_121;
/// Enemy step toward the player per tick.
pub const ENEMY_SPEED: i64 = 2_000;
/// Pickup step toward the player per tick while attracted.
pub const MULTIPLIER_SPEED: i64 = 2_900;

/// Radius of the player circle.
pub const CIRCLE_RADIUS: i64 = 15_000;
/// Circumscribing radius of the enemy diamond.
pub const DIAMOND_RADIUS: i64 = 25_000;
/// Circumscribing radius of a gate triangle.
pub const TRIANGLE_RADIUS: i64 = 75_000;
/// Circumscribing radius of the pickup square.
pub const SQUARE_RADIUS: i64 = 5_000;
/// Half the side of the pickup square: `SQUARE_RADIUS / sqrt(2)`, rounded.
pub const SQUARE_HALF_SIDE: i64 = 3_536;

/// Radius of an explosion: enemies closer than this to the blast are consumed.
pub const EXPLOSION_RADIUS: i64 = 150_000;
/// Inset from the walls inside which gates spawn.
pub const GATE_BUFFER: i64 = 25_000;
/// Depth of the edge-adjacent corner regions in which enemies spawn.
pub const ENEMY_BUFFER: i64 = 150_000;
/// Distance to the player below which a pickup is pulled toward it.
pub const MULTIPLIER_ATTRACT_MIN: i64 = 75_000;

/// The player's spawn point: the center of the playfield.
pub const PLAYER_START_X: i64 = 600_000;
pub const PLAYER_START_Y: i64 = 400_000;

/// A gate spins by this much per tick when no spin was recorded for it.
pub const DEFAULT_ROTATION_SPEED: i64 = 1_000;

/// Scales the initial outward speed of a pickup born from an explosion.
pub const BOOM_STRENGTH: i64 = 500_000;

/// Numerator of the per-tick pickup velocity decay factor (0.925).
pub const DECAY_NUM: i64 = 925;
/// Denominator of the per-tick pickup velocity decay factor.
pub const DECAY_DEN: i64 = 1000;

/// A gate's corner is lethal only once it is older than this.
pub const GATE_GRACE_MS: u64 = 5_000;
/// A pickup is culled once it is older than this.
pub const MULTIPLIER_LIFETIME_MS: u64 = 10_000;

/// Suggested host cadence for ticks.
pub const TICK_CYCLE_MS: u64 = 8;
/// Suggested host cadence for enemy waves.
pub const ENEMY_SPAWN_INTERVAL: u64 = 5_000;
/// Suggested host cadence for gate spawns.
pub const GATE_SPAWN_INTERVAL: u64 = 10_000;

/// Every coordinate the simulation produces stays within this magnitude;
/// it leaves ample headroom for the intermediate collision arithmetic.
pub const POS_LIMIT: i64 = 1_000_000_000;
/// Every pickup velocity component stays within this magnitude.
pub const VEL_LIMIT: i64 = 500_000;

/// Every vertex of a shape lies within this distance of its center on
/// each axis.
pub const VERTEX_SPAN: i64 = 100_000;
/// Magnitude bound on any vertex coordinate: `POS_LIMIT + VERTEX_SPAN`.
pub const VERTEX_LIMIT: i64 = 1_000_100_000;

/// A full turn, in milli-degrees.
pub const ROT_FULL: i64 = 360_000;
/// The fixed-point scale of the sine and cosine approximations.
pub const SIN_SCALE: i64 = 1_000_000;

/// The static configuration surface handed to the presentation layer once,
/// for layout and rendering scale. All lengths in milli-pixels.
pub struct GameConstants {
    pub window_width: i64,
    pub window_height: i64,
    pub circle_radius: i64,
    pub diamond_radius: i64,
    pub triangle_radius: i64,
    pub square_radius: i64,
    pub explosion_radius: i64,
}

impl GameConstants {
    pub fn new() -> (c: GameConstants)
        ensures
            c.window_width == WINDOW_WIDTH,
            c.window_height == WINDOW_HEIGHT,
            c.circle_radius == CIRCLE_RADIUS,
            c.diamond_radius == DIAMOND_RADIUS,
            c.triangle_radius == TRIANGLE_RADIUS,
            c.square_radius == SQUARE_RADIUS,
            c.explosion_radius == EXPLOSION_RADIUS,
    {
        GameConstants {
            window_width: WINDOW_WIDTH,
            window_height: WINDOW_HEIGHT,
            circle_radius: CIRCLE_RADIUS,
            diamond_radius: DIAMOND_RADIUS,
            triangle_radius: TRIANGLE_RADIUS,
            square_radius: SQUARE_RADIUS,
            explosion_radius: EXPLOSION_RADIUS,
        }
    }
}

} // verus!
