//! A flocking ("boids") simulation kernel over fixed-point arithmetic.
//!
//! A flock is a fixed-size collection of agents, each with a position and a
//! velocity in up to three dimensions.  Every tick, four steering rules
//! (cohesion, separation, alignment and boundary containment) are evaluated
//! for every agent against a snapshot of the whole flock, the resulting
//! forces are blended into the velocities, every speed is clamped into a
//! configured range, and positions advance by one Euler step.
//!
//! All coordinates, speeds and rule gains are integers scaled by
//! [`fp::SCALE`]: the kernel is exact integer arithmetic throughout, so a
//! flock evolves deterministically from its initial state.

pub mod fp;
pub mod vec3;
pub mod config;
pub mod flock;
pub mod rng;
pub mod laws;
