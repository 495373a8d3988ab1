//! A verified core for a population of steering agents evolved by a genetic
//! algorithm: a feed-forward neural controller, an angular perception model,
//! toroidal motion, collision scoring, and a generational evolution pipeline.
//!
//! All real-valued quantities (weights, positions, angles, speeds) are held in
//! signed fixed-point arithmetic: an `i64` counts millionths, so `1_000_000`
//! stands for `1.0`. See the `fx` module for the conventions.

pub mod components;
pub mod fx;
pub mod neural;
pub mod resources;
pub mod rng;
pub mod sim;
pub mod systems;
pub mod trig;
