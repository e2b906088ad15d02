//! The flock: agents, the four steering rules, and the per-tick update.
//!
//! Each tick evaluates every rule for every agent against a snapshot of the
//! whole flock, blends the summed forces into the velocities, clamps every
//! speed into the configured range, and advances positions by one Euler
//! step.  Numeric edge cases are fixed as follows: an agent with zero
//! velocity (or a coincident neighbor) passes every angular test, as if at
//! angle zero; two coincident agents exert no separation on each other; a
//! zero velocity that must be raised to the minimum speed points along the
//! positive `x` axis; and positions saturate at the (far away) world limit
//! instead of overflowing.

use vstd::prelude::*;
use vstd::arithmetic::div_mod::lemma_div_multiples_vanish;
use crate::fp::SCALE;
use crate::fp::absi;
use crate::fp::tdiv;
use crate::fp::tdiv64;
use crate::fp::isq;
use crate::fp::is_isq;
use crate::fp::isqrt;
use crate::fp::lemma_tdiv_ordered;
use crate::vec3::Vec3;
use crate::vec3::V3;
use crate::vec3::v3;
use crate::vec3::vzero;
use crate::vec3::vadd;
use crate::vec3::vsub;
use crate::vec3::vdot;
use crate::vec3::vnsq;
use crate::vec3::vscale;
use crate::vec3::vdivn;
use crate::vec3::vrescale;
use crate::vec3::vbound;
use crate::vec3::vsat;
use crate::vec3::plus;
use crate::vec3::minus;
use crate::vec3::multiply;
use crate::vec3::divide;
use crate::vec3::dot;
use crate::vec3::normsq;
use crate::vec3::norm;
use crate::vec3::clamp;
use crate::vec3::lemma_vnsq_bounds;
use crate::vec3::lemma_vscale_bound;
use crate::vec3::lemma_vdivn_bound;
use crate::vec3::lemma_vrescale_bound;
use crate::config::Config;
use crate::config::MAX_FLOCK;
use crate::config::WORLD_LIMIT;
use crate::config::SPEED_LIMIT;
use crate::rng::rng_from_seed;
use crate::rng::rng_next_byte;

verus! {

/// One agent: a position and a velocity.
#[derive(Clone, Copy, Debug, PartialEq, Eq, Structural)]
pub struct Boid {
    pub position: Vec3,
    pub velocity: Vec3,
}

impl Boid {
    /// Both vectors within the world's componentwise bounds.
    pub open spec fn wf(self) -> bool {
        &&& vbound(v3(self.position), WORLD_LIMIT as int)
        &&& vbound(v3(self.velocity), SPEED_LIMIT as int)
    }

    /// A motionless agent at the origin.
    pub fn new() -> (b: Boid)
        ensures
            b.wf(),
            v3(b.position) == vzero(),
            v3(b.velocity) == vzero(),
    {
        Boid {
            position: Vec3 { x: 0, y: 0, z: 0 },
            velocity: Vec3 { x: 0, y: 0, z: 0 },
        }
    }
}

impl Default for Boid {
    fn default() -> (b: Boid)
        ensures
            b.wf(),
            v3(b.position) == vzero(),
            v3(b.velocity) == vzero(),
    {
        Boid::new()
    }
}

/// `tgt` lies strictly within distance `dth` of `src` (distances taken as
/// integer square roots of the squared norm).
pub open spec fn spec_close(src: Boid, tgt: Boid, dth: int) -> bool {
    isq(vnsq(vsub(v3(tgt.position), v3(src.position)))) < dth
}

/// The angle from `src`'s heading to the offset toward `tgt` lies within
/// the threshold whose scaled cosine is `cth`.  The comparison multiplies
/// the cosine inequality out, so no arc cosine is needed; a zero velocity
/// or a zero offset counts as angle zero and passes.
pub open spec fn spec_angle_ok(src: Boid, tgt: Boid, cth: int, wide: bool) -> bool {
    let d = vsub(v3(tgt.position), v3(src.position));
    let nv = vnsq(v3(src.velocity));
    let nd = vnsq(d);
    ||| wide
    ||| nv == 0
    ||| nd == 0
    ||| vdot(v3(src.velocity), d) * SCALE > cth * isq(nv) * isq(nd)
}

/// `tgt` qualifies as a neighbor of `src` under a rule's thresholds.
pub open spec fn spec_neighbor(src: Boid, tgt: Boid, dth: int, cth: int, wide: bool) -> bool {
    spec_close(src, tgt, dth) && spec_angle_ok(src, tgt, cth, wide)
}

/// How many agents with index below `j` (other than `i` itself) qualify as
/// neighbors of agent `i`.
pub open spec fn spec_count(f: Seq<Boid>, i: int, j: int, dth: int, cth: int, wide: bool) -> int
    decreases j,
{
    if j <= 0 {
        0
    } else {
        spec_count(f, i, j - 1, dth, cth, wide) + if j - 1 != i && spec_neighbor(
            f[i],
            f[j - 1],
            dth,
            cth,
            wide,
        ) {
            1int
        } else {
            0int
        }
    }
}

/// Sum of the positions of the qualifying neighbors with index below `j`.
pub open spec fn spec_pos_sum(f: Seq<Boid>, i: int, j: int, dth: int, cth: int, wide: bool) -> V3
    decreases j,
{
    if j <= 0 {
        vzero()
    } else {
        let rest = spec_pos_sum(f, i, j - 1, dth, cth, wide);
        if j - 1 != i && spec_neighbor(f[i], f[j - 1], dth, cth, wide) {
            vadd(rest, v3(f[j - 1].position))
        } else {
            rest
        }
    }
}

/// Sum of the velocities of the qualifying neighbors with index below `j`.
pub open spec fn spec_vel_sum(f: Seq<Boid>, i: int, j: int, dth: int, cth: int, wide: bool) -> V3
    decreases j,
{
    if j <= 0 {
        vzero()
    } else {
        let rest = spec_vel_sum(f, i, j - 1, dth, cth, wide);
        if j - 1 != i && spec_neighbor(f[i], f[j - 1], dth, cth, wide) {
            vadd(rest, v3(f[j - 1].velocity))
        } else {
            rest
        }
    }
}

/// What one close neighbor contributes to the separation rule: the offset
/// away from it, divided by the squared distance.  Coincident agents
/// contribute nothing (the offset has no direction).
pub open spec fn spec_sep_term(src: Boid, tgt: Boid) -> V3 {
    let st = vsub(v3(src.position), v3(tgt.position));
    let dd = vnsq(st);
    if dd == 0 {
        vzero()
    } else {
        V3 {
            x: tdiv(st.x * SCALE * SCALE, dd),
            y: tdiv(st.y * SCALE * SCALE, dd),
            z: tdiv(st.z * SCALE * SCALE, dd),
        }
    }
}

/// Sum of the separation terms of the qualifying neighbors below `j`.
pub open spec fn spec_sep_sum(f: Seq<Boid>, i: int, j: int, dth: int, cth: int, wide: bool) -> V3
    decreases j,
{
    if j <= 0 {
        vzero()
    } else {
        let rest = spec_sep_sum(f, i, j - 1, dth, cth, wide);
        if j - 1 != i && spec_neighbor(f[i], f[j - 1], dth, cth, wide) {
            vadd(rest, spec_sep_term(f[i], f[j - 1]))
        } else {
            rest
        }
    }
}

/// The cohesion rule: steer toward the centroid of the qualifying
/// neighbors' positions, relative to the agent's own position; zero without
/// neighbors.
pub open spec fn spec_cohesion(f: Seq<Boid>, c: Config, i: int) -> V3 {
    let n = spec_count(f, i, f.len() as int, c.cohesion_distance as int, c.cohesion_cos as int, c.cohesion_wide);
    if n > 0 {
        vscale(
            vsub(
                vdivn(
                    spec_pos_sum(f, i, f.len() as int, c.cohesion_distance as int, c.cohesion_cos as int, c.cohesion_wide),
                    n,
                ),
                v3(f[i].position),
            ),
            c.cohesion_force as int,
        )
    } else {
        vzero()
    }
}

/// The separation rule: steer away from close neighbors, each weighted by
/// its inverse squared distance; zero without neighbors.
pub open spec fn spec_separation(f: Seq<Boid>, c: Config, i: int) -> V3 {
    let n = spec_count(f, i, f.len() as int, c.separation_distance as int, c.separation_cos as int, c.separation_wide);
    if n > 0 {
        vscale(
            spec_sep_sum(f, i, f.len() as int, c.separation_distance as int, c.separation_cos as int, c.separation_wide),
            c.separation_force as int,
        )
    } else {
        vzero()
    }
}

/// The alignment rule: steer toward the mean velocity of the qualifying
/// neighbors, relative to the agent's own velocity; zero without neighbors.
pub open spec fn spec_alignment(f: Seq<Boid>, c: Config, i: int) -> V3 {
    let n = spec_count(f, i, f.len() as int, c.alignment_distance as int, c.alignment_cos as int, c.alignment_wide);
    if n > 0 {
        vscale(
            vsub(
                vdivn(
                    spec_vel_sum(f, i, f.len() as int, c.alignment_distance as int, c.alignment_cos as int, c.alignment_wide),
                    n,
                ),
                v3(f[i].velocity),
            ),
            c.alignment_force as int,
        )
    } else {
        vzero()
    }
}

/// The boundary containment rule: an agent beyond unit distance from the
/// origin is pulled back along its position vector, with a magnitude of
/// `boundary_force * (d - 1) / d` at distance `d`; zero inside the unit
/// ball.
pub open spec fn spec_boundary(b: Boid, c: Config) -> V3 {
    let d = isq(vnsq(v3(b.position)));
    if d > SCALE {
        vscale(v3(b.position), tdiv((SCALE - d) * c.boundary_force, d))
    } else {
        vzero()
    }
}

/// Decide whether `target` qualifies as a neighbor of `source` under the
/// given thresholds.
fn is_neighbor(source: &Boid, target: &Boid, dth: i64, cth: i64, wide: bool) -> (r: bool)
    requires
        source.wf(),
        target.wf(),
        1 <= dth <= 4 * SCALE,
        absi(cth as int) <= SCALE,
    ensures
        r == spec_neighbor(*source, *target, dth as int, cth as int, wide),
{
    let d = minus(&target.position, &source.position);
    let dist = norm(&d);
    if dist >= dth {
        return false;
    }
    if wide {
        return true;
    }
    let nv = normsq(&source.velocity);
    if nv == 0 {
        return true;
    }
    let nd = normsq(&d);
    if nd == 0 {
        return true;
    }
    proof {
        lemma_vnsq_bounds(v3(source.velocity), SPEED_LIMIT as int);
        lemma_vnsq_bounds(v3(d), 2 * WORLD_LIMIT as int);
        crate::fp::lemma_isq(nv as int);
        crate::fp::lemma_isq(nd as int);
        assert(isq(nv as int) < 0x2_0000 && isq(nd as int) < 0x1000_0000) by (nonlinear_arith)
            requires
                is_isq(nv as int, isq(nv as int)),
                is_isq(nd as int, isq(nd as int)),
                0 <= nv as int <= 3 * 0x1_0000 * 0x1_0000,
                0 <= nd as int <= 3 * 0x800_0000 * 0x800_0000,
        ;
        assert(absi(vdot(v3(source.velocity), v3(d))) <= 3 * 0x1_0000 * 0x800_0000)
            by (nonlinear_arith)
            requires
                vbound(v3(source.velocity), 0x1_0000),
                vbound(v3(d), 0x800_0000),
        ;
        assert(absi(cth as int * isq(nv as int)) <= 0x1_0000 * 0x2_0000) by (nonlinear_arith)
            requires
                absi(cth as int) <= 0x1_0000,
                0 <= isq(nv as int) < 0x2_0000,
        ;
        assert(absi(cth as int * isq(nv as int) * isq(nd as int)) <= 0x1_0000 * 0x2_0000
            * 0x1000_0000) by (nonlinear_arith)
            requires
                absi(cth as int * isq(nv as int)) <= 0x1_0000 * 0x2_0000,
                0 <= isq(nd as int) < 0x1000_0000,
        ;
    }
    let dvd = dot(&source.velocity, &d);
    let nrm_v = isqrt(nv as u128) as i128;
    let nrm_d = isqrt(nd as u128) as i128;
    dvd * (SCALE as i128) > (cth as i128) * nrm_v * nrm_d
}

/// The cohesion contribution for agent `i`.
#[verifier::loop_isolation(false)]
fn calc_coherence(i: usize, boids: &Vec<Boid>, c: &Config) -> (r: Vec3)
    requires
        c.wf(),
        i < boids@.len(),
        boids@.len() <= MAX_FLOCK,
        forall|k: int| 0 <= k < boids@.len() ==> (#[trigger] boids@[k]).wf(),
    ensures
        v3(r) == spec_cohesion(boids@, *c, i as int),
        vbound(v3(r), 0x800_0000),
{
    let src = boids[i];
    let mut sum = Vec3 { x: 0, y: 0, z: 0 };
    let mut cnt: usize = 0;
    let n = boids.len();
    for j in 0..n
        invariant
            cnt == spec_count(boids@, i as int, j as int, c.cohesion_distance as int, c.cohesion_cos as int, c.cohesion_wide),
            v3(sum) == spec_pos_sum(boids@, i as int, j as int, c.cohesion_distance as int, c.cohesion_cos as int, c.cohesion_wide),
            cnt <= j,
            vbound(v3(sum), cnt * WORLD_LIMIT as int),
    {
        let t = boids[j];
        if j != i && is_neighbor(&src, &t, c.cohesion_distance, c.cohesion_cos, c.cohesion_wide) {
            cnt = cnt + 1;
            sum = plus(&sum, &t.position);
        }
    }
    if cnt > 0 {
        proof {
            lemma_vdivn_bound(v3(sum), cnt as int, WORLD_LIMIT as int);
        }
        let avg = divide(&sum, cnt as i64);
        let diff = minus(&avg, &src.position);
        proof {
            lemma_vscale_bound(v3(diff), c.cohesion_force as int, 0x800_0000, SCALE as int);
            lemma_div_multiples_vanish(0x800_0000, SCALE as int);
        }
        multiply(&diff, c.cohesion_force)
    } else {
        sum
    }
}

/// A separation term never exceeds one scaled unit per component: the
/// offset's magnitude is at most the squared distance it is divided by.
proof fn lemma_sep_term_bound(src: Boid, tgt: Boid)
    ensures
        vbound(spec_sep_term(src, tgt), SCALE as int * SCALE as int),
{
    let st = vsub(v3(src.position), v3(tgt.position));
    let dd = vnsq(st);
    if dd != 0 {
        lemma_vnsq_bounds(st, absi(st.x) + absi(st.y) + absi(st.z));
        assert(absi(st.x * SCALE * SCALE) <= dd * (SCALE as int * SCALE as int) && absi(
            st.y * SCALE * SCALE,
        ) <= dd * (SCALE as int * SCALE as int) && absi(st.z * SCALE * SCALE) <= dd * (
        SCALE as int * SCALE as int)) by (nonlinear_arith)
            requires
                st.x * st.x <= dd,
                st.y * st.y <= dd,
                st.z * st.z <= dd,
        ;
        lemma_tdiv_ordered(st.x * SCALE * SCALE, dd * (SCALE as int * SCALE as int), dd);
        lemma_tdiv_ordered(st.y * SCALE * SCALE, dd * (SCALE as int * SCALE as int), dd);
        lemma_tdiv_ordered(st.z * SCALE * SCALE, dd * (SCALE as int * SCALE as int), dd);
        lemma_div_multiples_vanish(SCALE as int * SCALE as int, dd);
    }
}

/// One close neighbor's separation contribution.
fn sep_term(src: &Boid, tgt: &Boid) -> (r: Vec3)
    requires
        src.wf(),
        tgt.wf(),
    ensures
        v3(r) == spec_sep_term(*src, *tgt),
        vbound(v3(r), SCALE as int * SCALE as int),
{
    proof {
        lemma_sep_term_bound(*src, *tgt);
    }
    let st = minus(&src.position, &tgt.position);
    let dd = normsq(&st);
    if dd == 0 {
        Vec3 { x: 0, y: 0, z: 0 }
    } else {
        proof {
            lemma_vnsq_bounds(v3(st), 2 * WORLD_LIMIT as int);
        }
        let ddi: i64 = dd as i64;
        Vec3 {
            x: tdiv64(st.x * SCALE * SCALE, ddi),
            y: tdiv64(st.y * SCALE * SCALE, ddi),
            z: tdiv64(st.z * SCALE * SCALE, ddi),
        }
    }
}

/// The separation contribution for agent `i`.
#[verifier::loop_isolation(false)]
fn calc_separation(i: usize, boids: &Vec<Boid>, c: &Config) -> (r: Vec3)
    requires
        c.wf(),
        i < boids@.len(),
        boids@.len() <= MAX_FLOCK,
        forall|k: int| 0 <= k < boids@.len() ==> (#[trigger] boids@[k]).wf(),
    ensures
        v3(r) == spec_separation(boids@, *c, i as int),
        vbound(v3(r), 0x400_0000_0000),
{
    let src = boids[i];
    let mut sum = Vec3 { x: 0, y: 0, z: 0 };
    let mut cnt: usize = 0;
    let n = boids.len();
    for j in 0..n
        invariant
            cnt == spec_count(boids@, i as int, j as int, c.separation_distance as int, c.separation_cos as int, c.separation_wide),
            v3(sum) == spec_sep_sum(boids@, i as int, j as int, c.separation_distance as int, c.separation_cos as int, c.separation_wide),
            cnt <= j,
            vbound(v3(sum), cnt * (SCALE as int * SCALE as int)),
    {
        let t = boids[j];
        if j != i && is_neighbor(&src, &t, c.separation_distance, c.separation_cos, c.separation_wide) {
            let term = sep_term(&src, &t);
            proof {
                assert(cnt <= 1024);
                assert(cnt * (SCALE as int * SCALE as int) <= 1024 * (SCALE as int * SCALE as int))
                    by (nonlinear_arith)
                    requires
                        0 <= cnt <= 1024,
                ;
                assert(vbound(v3(sum), 0x400_0000_0000));
            }
            cnt = cnt + 1;
            sum = plus(&sum, &term);
        }
    }
    if cnt > 0 {
        proof {
            lemma_vscale_bound(v3(sum), c.separation_force as int, 0x400_0000_0000, SCALE as int);
            lemma_div_multiples_vanish(0x400_0000_0000, SCALE as int);
        }
        multiply(&sum, c.separation_force)
    } else {
        sum
    }
}

/// The alignment contribution for agent `i`.
#[verifier::loop_isolation(false)]
fn calc_alignment(i: usize, boids: &Vec<Boid>, c: &Config) -> (r: Vec3)
    requires
        c.wf(),
        i < boids@.len(),
        boids@.len() <= MAX_FLOCK,
        forall|k: int| 0 <= k < boids@.len() ==> (#[trigger] boids@[k]).wf(),
    ensures
        v3(r) == spec_alignment(boids@, *c, i as int),
        vbound(v3(r), 0x2_0000),
{
    let src = boids[i];
    let mut sum = Vec3 { x: 0, y: 0, z: 0 };
    let mut cnt: usize = 0;
    let n = boids.len();
    for j in 0..n
        invariant
            cnt == spec_count(boids@, i as int, j as int, c.alignment_distance as int, c.alignment_cos as int, c.alignment_wide),
            v3(sum) == spec_vel_sum(boids@, i as int, j as int, c.alignment_distance as int, c.alignment_cos as int, c.alignment_wide),
            cnt <= j,
            vbound(v3(sum), cnt * SPEED_LIMIT as int),
    {
        let t = boids[j];
        if j != i && is_neighbor(&src, &t, c.alignment_distance, c.alignment_cos, c.alignment_wide) {
            cnt = cnt + 1;
            sum = plus(&sum, &t.velocity);
        }
    }
    if cnt > 0 {
        proof {
            lemma_vdivn_bound(v3(sum), cnt as int, SPEED_LIMIT as int);
        }
        let avg = divide(&sum, cnt as i64);
        let diff = minus(&avg, &src.velocity);
        proof {
            lemma_vscale_bound(v3(diff), c.alignment_force as int, 0x2_0000, SCALE as int);
            lemma_div_multiples_vanish(0x2_0000, SCALE as int);
        }
        multiply(&diff, c.alignment_force)
    } else {
        sum
    }
}

/// The boundary containment contribution for one agent.
fn calc_boundary(src: &Boid, c: &Config) -> (r: Vec3)
    requires
        src.wf(),
        c.wf(),
    ensures
        v3(r) == spec_boundary(*src, *c),
        vbound(v3(r), WORLD_LIMIT as int),
{
    let d = norm(&src.position);
    proof {
        lemma_vnsq_bounds(v3(src.position), WORLD_LIMIT as int);
        assert(d < 0x800_0000) by (nonlinear_arith)
            requires
                is_isq(vnsq(v3(src.position)), d as int),
                vnsq(v3(src.position)) <= 3 * 0x400_0000 * 0x400_0000,
        ;
    }
    if d > SCALE {
        proof {
            assert(absi((SCALE - d as int) * c.boundary_force) <= d as int * c.boundary_force)
                by (nonlinear_arith)
                requires
                    SCALE < d as int,
                    0 <= c.boundary_force,
            ;
            assert(d as int * c.boundary_force <= 0x800_0000 * 0x1_0000) by (nonlinear_arith)
                requires
                    0 <= d as int <= 0x800_0000,
                    0 <= c.boundary_force <= 0x1_0000,
            ;
            lemma_tdiv_ordered(
                (SCALE - d as int) * c.boundary_force,
                d as int * c.boundary_force,
                d as int,
            );
            lemma_div_multiples_vanish(c.boundary_force as int, d as int);
            lemma_vscale_bound(
                v3(src.position),
                tdiv((SCALE - d as int) * c.boundary_force, d as int),
                WORLD_LIMIT as int,
                SCALE as int,
            );
            lemma_div_multiples_vanish(WORLD_LIMIT as int, SCALE as int);
        }
        let s = tdiv64((SCALE - d) * c.boundary_force, d);
        multiply(&src.position, s)
    } else {
        Vec3 { x: 0, y: 0, z: 0 }
    }
}

/// The four rule contributions for agent `i`, summed.
pub open spec fn spec_force(f: Seq<Boid>, c: Config, i: int) -> V3 {
    vadd(
        vadd(spec_cohesion(f, c, i), spec_separation(f, c, i)),
        vadd(spec_alignment(f, c, i), spec_boundary(f[i], c)),
    )
}

/// The speed clamp: a velocity whose norm falls outside
/// `[min_speed, max_speed]` is rescaled to the nearer bound, keeping its
/// direction; a zero velocity is raised to the minimum speed along the
/// positive `x` axis.
pub open spec fn spec_clamp_speed(c: Config, v: V3) -> V3 {
    let n = isq(vnsq(v));
    if n < c.min_speed {
        if n == 0 {
            V3 { x: c.min_speed as int, y: 0, z: 0 }
        } else {
            vrescale(v, c.min_speed as int, n)
        }
    } else if n > c.max_speed {
        vrescale(v, c.max_speed as int, n)
    } else {
        v
    }
}

/// The velocity agent `i` carries after a tick: the blended force added to
/// the old velocity, then speed-clamped.
pub open spec fn spec_new_velocity(f: Seq<Boid>, c: Config, i: int) -> V3 {
    spec_clamp_speed(c, vadd(v3(f[i].velocity), vscale(spec_force(f, c, i), c.blend as int)))
}

/// The position agent `i` occupies after a tick: one Euler step by the new
/// velocity, saturated at the world limit.
pub open spec fn spec_new_position(f: Seq<Boid>, c: Config, i: int) -> V3 {
    vsat(vadd(v3(f[i].position), spec_new_velocity(f, c, i)), WORLD_LIMIT as int)
}

/// Clamp a velocity's magnitude into the configured range.
fn clamp_speed(c: &Config, v: &Vec3) -> (r: Vec3)
    requires
        c.wf(),
        vbound(v3(*v), 0x4000_0000_0000),
    ensures
        v3(r) == spec_clamp_speed(*c, v3(*v)),
        vbound(v3(r), c.max_speed as int),
{
    let n = norm(v);
    proof {
        assert(absi(v.x as int * c.min_speed) <= 0x4000_0000_0000 * 0x1_0000 && absi(
            v.y as int * c.min_speed,
        ) <= 0x4000_0000_0000 * 0x1_0000 && absi(v.z as int * c.min_speed) <= 0x4000_0000_0000
            * 0x1_0000 && absi(v.x as int * c.max_speed) <= 0x4000_0000_0000 * 0x1_0000 && absi(
            v.y as int * c.max_speed,
        ) <= 0x4000_0000_0000 * 0x1_0000 && absi(v.z as int * c.max_speed) <= 0x4000_0000_0000
            * 0x1_0000) by (nonlinear_arith)
            requires
                absi(v.x as int) <= 0x4000_0000_0000,
                absi(v.y as int) <= 0x4000_0000_0000,
                absi(v.z as int) <= 0x4000_0000_0000,
                0 <= c.min_speed <= 0x1_0000,
                0 <= c.max_speed <= 0x1_0000,
        ;
    }
    if n < c.min_speed {
        if n == 0 {
            Vec3 { x: c.min_speed, y: 0, z: 0 }
        } else {
            proof {
                lemma_vrescale_bound(v3(*v), c.min_speed as int, n as int);
            }
            Vec3 {
                x: tdiv64(v.x * c.min_speed, n),
                y: tdiv64(v.y * c.min_speed, n),
                z: tdiv64(v.z * c.min_speed, n),
            }
        }
    } else if n > c.max_speed {
        proof {
            lemma_vrescale_bound(v3(*v), c.max_speed as int, n as int);
        }
        Vec3 {
            x: tdiv64(v.x * c.max_speed, n),
            y: tdiv64(v.y * c.max_speed, n),
            z: tdiv64(v.z * c.max_speed, n),
        }
    } else {
        *v
    }
}

/// Advance a position by one velocity step, saturating at the world limit.
fn sat_add(p: &Vec3, v: &Vec3) -> (r: Vec3)
    requires
        vbound(v3(*p), WORLD_LIMIT as int),
        vbound(v3(*v), 0x4000_0000_0000),
    ensures
        v3(r) == vsat(vadd(v3(*p), v3(*v)), WORLD_LIMIT as int),
        vbound(v3(r), WORLD_LIMIT as int),
{
    Vec3 {
        x: clamp(p.x + v.x, -WORLD_LIMIT, WORLD_LIMIT),
        y: clamp(p.y + v.y, -WORLD_LIMIT, WORLD_LIMIT),
        z: clamp(p.z + v.z, -WORLD_LIMIT, WORLD_LIMIT),
    }
}

/// Position coordinate drawn from one byte: bytes map affinely onto one
/// scaled unit each side of the origin.
pub open spec fn spec_pos_coord(b: u8) -> int {
    (b - 128) * 512
}

/// Velocity coordinate drawn from one byte: a tenth of the position range,
/// rounded toward zero.
pub open spec fn spec_vel_coord(b: u8) -> int {
    tdiv((b - 128) * SCALE, 1280)
}

/// A velocity coordinate never exceeds a tenth of a scaled unit.
pub proof fn lemma_vel_coord_bound(b: u8)
    ensures
        absi(spec_vel_coord(b)) <= 6553,
{
    lemma_tdiv_ordered((b - 128) * SCALE, 0x80_0000, 1280);
}

/// The position agent `a` draws from the byte stream: bytes interleave as
/// one position byte then one velocity byte per coordinate.
pub open spec fn spec_init_pos(bytes: Seq<u8>, dim: int, a: int) -> V3 {
    V3 {
        x: spec_pos_coord(bytes[2 * (a * dim)]),
        y: spec_pos_coord(bytes[2 * (a * dim) + 2]),
        z: if dim == 3 {
            spec_pos_coord(bytes[2 * (a * dim) + 4])
        } else {
            0
        },
    }
}

/// The velocity agent `a` draws from the byte stream.
pub open spec fn spec_init_vel(bytes: Seq<u8>, dim: int, a: int) -> V3 {
    V3 {
        x: spec_vel_coord(bytes[2 * (a * dim) + 1]),
        y: spec_vel_coord(bytes[2 * (a * dim) + 3]),
        z: if dim == 3 {
            spec_vel_coord(bytes[2 * (a * dim) + 5])
        } else {
            0
        },
    }
}

/// One position coordinate.
fn pos_coord(b: u8) -> (r: i64)
    ensures
        r == spec_pos_coord(b),
        -65536 <= r <= 65024,
{
    (b as i64 - 128) * 512
}

/// One velocity coordinate.
fn vel_coord(b: u8) -> (r: i64)
    ensures
        r == spec_vel_coord(b),
        absi(r as int) <= 6553,
{
    proof {
        lemma_vel_coord_bound(b);
    }
    tdiv64((b as i64 - 128) * SCALE, 1280)
}

/// A complete simulation: its parameters and its agents.
#[derive(Debug)]
pub struct Boids {
    pub boids: Vec<Boid>,
    pub config: Config,
}

impl Boids {
    /// Parameters in range, the configured number of agents, every agent
    /// within the world bounds.
    pub open spec fn wf(self) -> bool {
        &&& self.config.wf()
        &&& self.boids@.len() == self.config.flock_size
        &&& forall|i: int| 0 <= i < self.boids@.len() ==> (#[trigger] self.boids@[i]).wf()
    }

    /// A flock of motionless agents at the origin.
    #[verifier::loop_isolation(false)]
    pub fn new(config: Config) -> (s: Boids)
        requires
            config.wf(),
        ensures
            s.wf(),
            s.config == config,
            forall|i: int| 0 <= i < s.boids@.len() ==> v3((#[trigger] s.boids@[i]).position)
                == vzero() && v3(s.boids@[i].velocity) == vzero(),
    {
        let mut boids: Vec<Boid> = Vec::new();
        let n = config.flock_size;
        for j in 0..n
            invariant
                boids@.len() == j,
                forall|i: int| 0 <= i < j ==> v3((#[trigger] boids@[i]).position) == vzero() && v3(
                    boids@[i].velocity,
                ) == vzero() && boids@[i].wf(),
        {
            boids.push(Boid::new());
        }
        Boids { boids, config }
    }

    /// Fill the flock from a byte stream, two bytes per coordinate, in the
    /// interleaved order [`spec_init_pos`] and [`spec_init_vel`] describe.
    /// The resulting state is a function of the bytes alone.
    #[verifier::loop_isolation(false)]
    pub fn init_from_bytes(&mut self, bytes: &Vec<u8>)
        requires
            old(self).wf(),
            bytes@.len() == 2 * old(self).config.dimension * old(self).config.flock_size,
        ensures
            final(self).wf(),
            final(self).config == old(self).config,
            final(self).boids@.len() == old(self).boids@.len(),
            forall|a: int| 0 <= a < final(self).boids@.len() ==> v3(
                (#[trigger] final(self).boids@[a]).position,
            ) == spec_init_pos(bytes@, old(self).config.dimension as int, a) && v3(
                final(self).boids@[a].velocity,
            ) == spec_init_vel(bytes@, old(self).config.dimension as int, a),
    {
        let ghost f0 = self.boids@;
        let ghost c0 = self.config;
        let dim = self.config.dimension as usize;
        let n = self.boids.len();
        for a in 0..n
            invariant
                self.config == c0,
                self.boids@.len() == n,
                forall|k: int| 0 <= k < a ==> v3((#[trigger] self.boids@[k]).position)
                    == spec_init_pos(bytes@, dim as int, k) && v3(self.boids@[k].velocity)
                    == spec_init_vel(bytes@, dim as int, k) && self.boids@[k].wf(),
                forall|k: int| a <= k < n ==> #[trigger] self.boids@[k] == f0[k],
        {
            proof {
                assert(2 * (a * dim) + 2 * dim <= 2 * dim * n && a * dim <= 3072)
                    by (nonlinear_arith)
                    requires
                        0 <= a < n <= 1024,
                        0 <= dim <= 3,
                ;
            }
            let base = 2 * (a * dim);
            let px = pos_coord(bytes[base]);
            let vx = vel_coord(bytes[base + 1]);
            let py = pos_coord(bytes[base + 2]);
            let vy = vel_coord(bytes[base + 3]);
            let pz: i64;
            let vz: i64;
            if dim == 3 {
                pz = pos_coord(bytes[base + 4]);
                vz = vel_coord(bytes[base + 5]);
            } else {
                pz = 0;
                vz = 0;
            }
            self.boids[a] = Boid {
                position: Vec3 { x: px, y: py, z: pz },
                velocity: Vec3 { x: vx, y: vy, z: vz },
            };
        }
    }

    /// Scatter the flock from a generator seeded with `seed`: every
    /// position lands within one scaled unit of the origin on each axis,
    /// every velocity within a tenth of one.  These bounds hold whatever
    /// bytes the generator yields.
    #[verifier::loop_isolation(false)]
    pub fn init(&mut self, seed: u64)
        requires
            old(self).wf(),
        ensures
            final(self).wf(),
            final(self).config == old(self).config,
            final(self).boids@.len() == old(self).boids@.len(),
            forall|i: int| 0 <= i < final(self).boids@.len() ==> vbound(
                v3((#[trigger] final(self).boids@[i]).position),
                SCALE as int,
            ) && vbound(v3(final(self).boids@[i].velocity), 6553),
    {
        let ghost c0 = self.config;
        let dim = self.config.dimension as usize;
        let n = self.boids.len();
        proof {
            assert(dim * n <= 3072 && 2 * (dim * n) == 2 * dim * n) by (nonlinear_arith)
                requires
                    0 <= dim <= 3,
                    0 <= n <= 1024,
            ;
        }
        let count = 2 * (dim * n);
        let mut rng = rng_from_seed(seed);
        let mut bytes: Vec<u8> = Vec::new();
        for j in 0..count
            invariant
                bytes@.len() == j,
        {
            let b = rng_next_byte(&mut rng);
            bytes.push(b);
        }
        self.init_from_bytes(&bytes);
        proof {
            let dimi = c0.dimension as int;
            assert forall|i: int| 0 <= i < self.boids@.len() implies vbound(
                v3((#[trigger] self.boids@[i]).position),
                SCALE as int,
            ) && vbound(v3(self.boids@[i].velocity), 6553) by {
                lemma_vel_coord_bound(bytes@[2 * (i * dimi) + 1]);
                lemma_vel_coord_bound(bytes@[2 * (i * dimi) + 3]);
                if dimi == 3 {
                    lemma_vel_coord_bound(bytes@[2 * (i * dimi) + 5]);
                }
            }
        }
    }

    /// Advance the flock by one tick: every rule is evaluated against the
    /// snapshot the tick started from, then every agent's velocity and
    /// position move to the specified new values.
    #[verifier::loop_isolation(false)]
    pub fn update(&mut self)
        requires
            old(self).wf(),
        ensures
            final(self).wf(),
            final(self).config == old(self).config,
            final(self).boids@.len() == old(self).boids@.len(),
            forall|i: int| 0 <= i < final(self).boids@.len() ==> v3(
                (#[trigger] final(self).boids@[i]).velocity,
            ) == spec_new_velocity(old(self).boids@, old(self).config, i) && v3(
                final(self).boids@[i].position,
            ) == spec_new_position(old(self).boids@, old(self).config, i),
    {
        let ghost f0 = self.boids@;
        let ghost c0 = self.config;
        let n = self.boids.len();
        let mut dvs: Vec<Vec3> = Vec::new();
        for i in 0..n
            invariant
                dvs@.len() == i,
                forall|k: int| 0 <= k < i ==> v3(#[trigger] dvs@[k]) == vscale(
                    spec_force(f0, c0, k),
                    c0.blend as int,
                ) && vbound(v3(dvs@[k]), 0x800_0000_0000),
        {
            let coh = calc_coherence(i, &self.boids, &self.config);
            let sep = calc_separation(i, &self.boids, &self.config);
            let ali = calc_alignment(i, &self.boids, &self.config);
            let b = self.boids[i];
            let bnd = calc_boundary(&b, &self.config);
            let force = plus(&plus(&coh, &sep), &plus(&ali, &bnd));
            proof {
                lemma_vscale_bound(v3(force), c0.blend as int, 0x800_0000_0000, SCALE as int);
                lemma_div_multiples_vanish(0x800_0000_0000, SCALE as int);
            }
            let dv = multiply(&force, self.config.blend);
            dvs.push(dv);
        }
        for i in 0..n
            invariant
                self.config == c0,
                self.boids@.len() == n,
                dvs@.len() == n,
                forall|k: int| 0 <= k < n ==> v3(#[trigger] dvs@[k]) == vscale(
                    spec_force(f0, c0, k),
                    c0.blend as int,
                ) && vbound(v3(dvs@[k]), 0x800_0000_0000),
                forall|k: int| i <= k < n ==> #[trigger] self.boids@[k] == f0[k],
                forall|k: int| 0 <= k < i ==> v3((#[trigger] self.boids@[k]).velocity)
                    == spec_new_velocity(f0, c0, k) && v3(self.boids@[k].position)
                    == spec_new_position(f0, c0, k) && self.boids@[k].wf(),
        {
            let b = self.boids[i];
            let dv = dvs[i];
            let vprime = plus(&b.velocity, &dv);
            let vnew = clamp_speed(&self.config, &vprime);
            let pnew = sat_add(&b.position, &vnew);
            self.boids[i] = Boid { position: pnew, velocity: vnew };
        }
    }
}

} // verus!
