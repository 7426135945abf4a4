//! The fixed constants of the game, in the units of the simulation.
//!
//! One world unit is `UNIT` lengths. A heading is a direction vector of length
//! `HEADING_ONE`; a speed that multiplies a heading is given per heading unit.

use vstd::prelude::*;

verus! {

/// The number of lengths in one world unit.
pub const UNIT: i64 = 1_000_000_000;

/// The length of a heading vector.
pub const HEADING_ONE: i64 = 1_000_000;

/// Radius of the player craft: 5 world units.
pub const SPACESHIP_RADIUS: i64 = 5_000_000_000;

/// Radius of an obstacle: 2.5 world units.
pub const ASTEROID_RADIUS: i64 = 2_500_000_000;

/// Radius of a projectile: 1 world unit.
pub const MISSILE_RADIUS: i64 = 1_000_000_000;

/// Where the player craft starts, along the third axis: 20 world units back.
pub const STARTING_Z: i64 = -20_000_000_000;

/// Thrust of the player craft: 25 world units per second along its heading.
pub const SPACESHIP_SPEED: i64 = 25;

/// Turn rate of the player craft, in microradians per millisecond.
pub const SPACESHIP_ROTATION_SPEED: i64 = 2_500;

/// Roll rate of the player craft, in microradians per millisecond.
pub const SPACESHIP_ROLL_SPEED: i64 = 2_500;

/// Speed of a projectile: 50 world units per second along the heading.
pub const MISSILE_SPEED: i64 = 50;

/// How far ahead of the craft a projectile appears: 7.5 world units.
pub const MISSILE_FORWARD_SPAWN_SCALAR: i64 = 7_500;

/// Speed of a fresh obstacle: 5 world units per second.
pub const VELOCITY_SCALAR: i64 = 5_000_000;

/// Acceleration of an obstacle: 1 world unit per second squared.
pub const ACCELERATION_SCALAR: i64 = 1_000;

/// Where the obstacle spawn region starts along the first axis.
pub const SPAWN_MIN_X: i64 = -25_000_000_000;

/// Where the obstacle spawn region ends along the first axis, excluded.
pub const SPAWN_MAX_X: i64 = 25_000_000_000;

/// Where the obstacle spawn region starts along the third axis.
pub const SPAWN_MIN_Z: i64 = 0;

/// Where the obstacle spawn region ends along the third axis, excluded.
pub const SPAWN_MAX_Z: i64 = 25_000_000_000;

/// Period of the obstacle spawn timer, in milliseconds.
pub const SPAWN_TIME_MS: u32 = 1_000;

/// Spin rate of an obstacle, in microradians per millisecond.
pub const ROTATE_SPEED: i64 = 2_500;

/// An obstacle must appear farther than this from the player craft: twice the
/// sum of the two radii.
pub const SPAWN_CLEARANCE: u64 = 15_000_000_000;

/// How many positions are drawn in search of clearance before one is taken
/// unchecked.
pub const MAX_SPAWN_ATTEMPTS: u32 = 32;

/// Half the width of the square from which a random direction is drawn.
pub const DIRECTION_SPAN: i64 = 1_000_000;

/// Obstacles and projectiles farther than this from the origin are removed:
/// 100 world units.
pub const DESPAWN_DISTANCE: u64 = 100_000_000_000;

} // verus!
