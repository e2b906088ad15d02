//! Simulation parameters.
//!
//! Every gain, radius and speed is a fixed-point value scaled by
//! [`SCALE`](crate::fp::SCALE).  Angular thresholds are stored as the cosine
//! of the threshold angle (also scaled): the angle between two vectors is
//! below a threshold `t <= pi` exactly when the cosine of that angle is
//! above `cos t`, so the kernel never needs an arc cosine.  A threshold
//! wider than `pi` admits every angle; the `*_wide` flags say so.

use vstd::prelude::*;
use crate::fp::SCALE;

verus! {

/// Largest number of agents a flock may hold.
pub const MAX_FLOCK: usize = 1024;

/// Componentwise magnitude bound on every position, far outside the unit
/// world: positions saturate here instead of overflowing.
pub const WORLD_LIMIT: i64 = 0x400_0000;

/// Componentwise magnitude bound on every velocity (one world unit per
/// tick); the speed clamp keeps velocities well inside it.
pub const SPEED_LIMIT: i64 = 0x1_0000;

/// The immutable parameter set of a simulation.
#[derive(Clone, Copy, Debug, PartialEq, Eq, Structural)]
pub struct Config {
    /// 2 or 3; a two-dimensional flock keeps every `z` component at zero.
    pub dimension: u8,
    /// Number of agents simulated.
    pub flock_size: usize,
    /// Gain applied to the cohesion rule's contribution.
    pub cohesion_force: i64,
    /// Gain applied to the separation rule's contribution.
    pub separation_force: i64,
    /// Gain applied to the alignment rule's contribution.
    pub alignment_force: i64,
    /// Gain applied to the boundary containment rule's contribution.
    pub boundary_force: i64,
    /// Neighbor-inclusion radius of the cohesion rule.
    pub cohesion_distance: i64,
    /// Neighbor-inclusion radius of the separation rule.
    pub separation_distance: i64,
    /// Neighbor-inclusion radius of the alignment rule.
    pub alignment_distance: i64,
    /// Scaled cosine of the cohesion rule's angular threshold.
    pub cohesion_cos: i64,
    /// Scaled cosine of the separation rule's angular threshold.
    pub separation_cos: i64,
    /// Scaled cosine of the alignment rule's angular threshold.
    pub alignment_cos: i64,
    /// The cohesion threshold angle exceeds `pi`: every angle qualifies.
    pub cohesion_wide: bool,
    /// The separation threshold angle exceeds `pi`.
    pub separation_wide: bool,
    /// The alignment threshold angle exceeds `pi`.
    pub alignment_wide: bool,
    /// Speeds below this are raised to exactly this magnitude.
    pub min_speed: i64,
    /// Speeds above this are lowered to exactly this magnitude.
    pub max_speed: i64,
    /// Weight of the summed rule forces blended into the velocity each tick.
    pub blend: i64,
}

impl Config {
    /// The parameter ranges the kernel's arithmetic relies on: gains and the
    /// blend weight at most one world unit, radii at most four, speeds
    /// positive and at most one, cosines in `[-1, 1]` — all scaled.
    pub open spec fn wf(self) -> bool {
        &&& 2 <= self.dimension <= 3
        &&& self.flock_size <= MAX_FLOCK
        &&& 0 <= self.cohesion_force <= SCALE
        &&& 0 <= self.separation_force <= SCALE
        &&& 0 <= self.alignment_force <= SCALE
        &&& 0 <= self.boundary_force <= SCALE
        &&& 1 <= self.cohesion_distance <= 4 * SCALE
        &&& 1 <= self.separation_distance <= 4 * SCALE
        &&& 1 <= self.alignment_distance <= 4 * SCALE
        &&& -SCALE <= self.cohesion_cos <= SCALE
        &&& -SCALE <= self.separation_cos <= SCALE
        &&& -SCALE <= self.alignment_cos <= SCALE
        &&& 1 <= self.min_speed
        &&& self.min_speed <= self.max_speed
        &&& self.max_speed <= SCALE
        &&& 0 <= self.blend <= SCALE
    }
}

impl Default for Config {
    /// The classic demo parameters: a flock of 100 agents in three
    /// dimensions; gains 0.005, 0.002, 0.04 and 0.01; radii 0.5, 0.1 and
    /// 0.1; angular thresholds of a half, two thirds and (wide) 1.2 turns
    /// of `pi`; speeds clamped into [0.005, 0.03]; blend weight 0.4 — each
    /// rounded to the nearest multiple of 1/65536.
    fn default() -> (c: Config)
        ensures
            c.wf(),
            c.dimension == 3,
            c.flock_size == 100,
            c.cohesion_force == 328,
            c.separation_force == 131,
            c.alignment_force == 2621,
            c.boundary_force == 655,
            c.cohesion_distance == 32768,
            c.separation_distance == 6554,
            c.alignment_distance == 6554,
            c.cohesion_cos == 0,
            c.separation_cos == -32768,
            c.alignment_cos == -65536,
            !c.cohesion_wide,
            !c.separation_wide,
            c.alignment_wide,
            c.min_speed == 328,
            c.max_speed == 1966,
            c.blend == 26214,
    {
        Config {
            dimension: 3,
            flock_size: 100,
            cohesion_force: 328,
            separation_force: 131,
            alignment_force: 2621,
            boundary_force: 655,
            cohesion_distance: 32768,
            separation_distance: 6554,
            alignment_distance: 6554,
            cohesion_cos: 0,
            separation_cos: -32768,
            alignment_cos: -65536,
            cohesion_wide: false,
            separation_wide: false,
            alignment_wide: true,
            min_speed: 328,
            max_speed: 1966,
            blend: 26214,
        }
    }
}

} // verus!
