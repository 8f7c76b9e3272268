//! A flocking simulation in integer fixed point: every length is counted in
//! thousandths of a world unit, every modifier in thousandths.
pub mod boid;
pub mod geometry;
pub mod laws;
pub mod orchestrator;
pub mod rules;
