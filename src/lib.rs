//! Per-frame simulation core of a top-down arcade combat game.
//!
//! Positions are integer milli-units on a plane, times are integer
//! microseconds, and every entity is advanced by one call per frame.

pub mod geometry;
pub mod timer;
pub mod animation;
pub mod damage;
pub mod movable;
pub mod bounds;
pub mod actor;
mod random;
pub mod ai;
pub mod projectile;
pub mod particle;
pub mod player;
pub mod world;
pub mod stage;
