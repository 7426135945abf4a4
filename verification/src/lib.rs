//! Simulation core of an arcade space shooter.
//!
//! A player craft, timed obstacles and fired projectiles move, collide and are
//! culled frame by frame. A frame runs its stages in a fixed order: the
//! despawn stage reads the overlaps of the previous frame, the flush applies
//! the buffered spawns and despawns, the user-input stage steers and fires,
//! the entity-update stage spawns, spins and integrates, and collision
//! detection computes the overlaps for the next frame.
//!
//! Lengths are `i64` counts of a billionth of a world unit, times are whole
//! milliseconds, velocities are lengths per millisecond and accelerations are
//! lengths per millisecond squared. Every step is exact integer arithmetic
//! that saturates at the ends of the `i64` range.
//!
//! - `vector`: fixed-point vectors, saturating steps, distance comparisons
//! - `world`: the entity store, the mutation log and the flush
//! - `movement`: transforms, the spawn bundle, the integrator
//! - `collision_detection`: colliders, the overlap detector, the collision cull
//! - `despawn`: the distance cull and the despawn stage
//! - `spawn_timer`: the repeating countdown for obstacle spawns
//! - `astroids`: obstacle spawning and spinning
//! - `spaceship`: the player craft, its controls and its weapon
//! - `schedule`: the stages and the frame
//! - `tuning`: the constants of the game

pub mod astroids;
pub mod collision_detection;
pub mod despawn;
pub mod movement;
pub mod schedule;
pub mod spaceship;
pub mod spawn_timer;
pub mod tuning;
pub mod vector;
pub mod world;
