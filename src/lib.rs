//! Combat and enemy simulation core of a 2D parry arcade game.
//!
//! Time is counted in nanoseconds and world coordinates in thousandths of a
//! unit, so that every rule of the simulation is integer arithmetic that the
//! contracts state exactly.
pub mod stats;
pub mod timer;
pub mod geometry;
pub mod health;
pub mod projectile;
pub mod parry;
pub mod enemy;
pub mod damage;
mod random;
