//! A flocking ("boid") simulation engine.
//!
//! Hundreds of thousands of agents move through a toroidal plane; every tick
//! the engine reorders the agent store so that array neighbours are
//! approximately spatial neighbours (a two-axis shell sort), picks a small
//! direction-biased set of candidate neighbours per agent, computes a
//! steering force from separation, alignment, cohesion and a mouse term, and
//! integrates velocity and position under a hard speed bound.
//!
//! All coordinates, velocities and tuning parameters are fixed-point numbers:
//! an `i64` counts units of `1/1024` of a simulation-space unit (see
//! [`fixed::FP_SCALE`]).

pub mod config;
pub mod event;
pub mod fixed;
pub mod fps;
pub mod forces;
pub mod grid;
pub mod neighbours;
pub mod rng;
pub mod sort;
pub mod system;
pub mod timer;
pub mod vec2;
