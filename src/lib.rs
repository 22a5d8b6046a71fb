//! A brute-force gravitational N-body core.
//!
//! The library owns the structure of a simulation step: which pairs of bodies
//! interact, in which order the pulls are accumulated, that every pull of a step
//! reads the same snapshot, that positions advance only after all velocities are
//! final, and that a paused simulation stands still. The arithmetic on a single
//! pair (the inverse-square law on `f64` values) is handed in by the caller as a
//! closure, so the same verified driver runs any numeric representation.

pub mod config;
pub mod controls;
pub mod grid;
pub mod simulation;

pub use config::ConfigError;
pub use simulation::Simulation;
