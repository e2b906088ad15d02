//! Flock-wide guarantees, stated and proved over the update's
//! specification functions.

use vstd::prelude::*;
use crate::fp::absi;
use crate::fp::tdiv;
use crate::fp::isq;
use crate::fp::is_isq;
use crate::fp::lemma_isq;
use crate::fp::lemma_isq_unique;
use crate::fp::lemma_tdiv;
use crate::vec3::V3;
use crate::vec3::v3;
use crate::vec3::vzero;
use crate::vec3::vadd;
use crate::vec3::vnsq;
use crate::vec3::vrescale;
use crate::vec3::lemma_vcomp_le_norm;
use crate::config::Config;
use crate::flock::Boid;
use crate::flock::spec_neighbor;
use crate::flock::spec_count;
use crate::flock::spec_cohesion;
use crate::flock::spec_separation;
use crate::flock::spec_alignment;
use crate::flock::spec_boundary;
use crate::flock::spec_force;
use crate::flock::spec_clamp_speed;
use crate::flock::spec_new_velocity;
use crate::flock::spec_new_position;

verus! {

/// Determinism: the state after a tick is a function of the state before
/// it and of the parameters alone, so equal flocks step to equal flocks —
/// and equal seeds of the byte stream scatter equal flocks, since the
/// initialized state is likewise a function of the bytes alone.
pub proof fn lemma_update_deterministic(f1: Seq<Boid>, f2: Seq<Boid>, c: Config, i: int)
    requires
        f1 == f2,
    ensures
        spec_new_velocity(f1, c, i) == spec_new_velocity(f2, c, i),
        spec_new_position(f1, c, i) == spec_new_position(f2, c, i),
{
}

/// If no other agent qualifies as a neighbor of agent `i` under the given
/// thresholds, the neighbor count over any prefix is zero.
pub proof fn lemma_no_neighbors_count(
    f: Seq<Boid>,
    i: int,
    j: int,
    dth: int,
    cth: int,
    wide: bool,
)
    requires
        j <= f.len(),
        forall|k: int| 0 <= k < f.len() && k != i ==> !spec_neighbor(
            f[i],
            #[trigger] f[k],
            dth,
            cth,
            wide,
        ),
    ensures
        spec_count(f, i, j, dth, cth, wide) == 0,
    decreases j,
{
    if j > 0 {
        lemma_no_neighbors_count(f, i, j - 1, dth, cth, wide);
    }
}

/// No neighbors, no force: an agent without a qualifying neighbor under
/// any of the three social rules receives zero cohesion, separation and
/// alignment; only boundary containment (and the speed clamp) can then
/// affect its course.
pub proof fn lemma_isolated_agent(f: Seq<Boid>, c: Config, i: int)
    requires
        0 <= i < f.len(),
        forall|k: int| 0 <= k < f.len() && k != i ==> !spec_neighbor(
            f[i],
            #[trigger] f[k],
            c.cohesion_distance as int,
            c.cohesion_cos as int,
            c.cohesion_wide,
        ),
        forall|k: int| 0 <= k < f.len() && k != i ==> !spec_neighbor(
            f[i],
            #[trigger] f[k],
            c.separation_distance as int,
            c.separation_cos as int,
            c.separation_wide,
        ),
        forall|k: int| 0 <= k < f.len() && k != i ==> !spec_neighbor(
            f[i],
            #[trigger] f[k],
            c.alignment_distance as int,
            c.alignment_cos as int,
            c.alignment_wide,
        ),
    ensures
        spec_cohesion(f, c, i) == vzero(),
        spec_separation(f, c, i) == vzero(),
        spec_alignment(f, c, i) == vzero(),
        spec_force(f, c, i) == spec_boundary(f[i], c),
{
    lemma_no_neighbors_count(
        f,
        i,
        f.len() as int,
        c.cohesion_distance as int,
        c.cohesion_cos as int,
        c.cohesion_wide,
    );
    lemma_no_neighbors_count(
        f,
        i,
        f.len() as int,
        c.separation_distance as int,
        c.separation_cos as int,
        c.separation_wide,
    );
    lemma_no_neighbors_count(
        f,
        i,
        f.len() as int,
        c.alignment_distance as int,
        c.alignment_cos as int,
        c.alignment_wide,
    );
}

/// Self-exclusion: an agent never enters its own rule sums, so in a flock
/// of one the three social rules contribute nothing, and at the origin the
/// boundary rule contributes nothing either — every contribution is zero.
pub proof fn lemma_single_agent(f: Seq<Boid>, c: Config)
    requires
        f.len() == 1,
    ensures
        spec_cohesion(f, c, 0) == vzero(),
        spec_separation(f, c, 0) == vzero(),
        spec_alignment(f, c, 0) == vzero(),
        vnsq(v3(f[0].position)) == 0 ==> spec_boundary(f[0], c) == vzero(),
{
    lemma_isolated_agent(f, c, 0);
    if vnsq(v3(f[0].position)) == 0 {
        lemma_isq(0);
        assert(isq(0) == 0) by (nonlinear_arith)
            requires
                is_isq(0, isq(0)),
        ;
    }
}

/// One rescaled component: `n * n` times its square sits within a
/// truncation slack of `a * a * m * m`.
proof fn lemma_rescale_comp(a: int, m: int, n: int)
    requires
        m >= 0,
        n >= 1,
    ensures
        n * n * (tdiv(a * m, n) * tdiv(a * m, n)) <= (a * a) * (m * m),
        n * n * (tdiv(a * m, n) * tdiv(a * m, n)) >= (a * a) * (m * m) - 2 * (n * m) * absi(a),
{
    lemma_tdiv(a * m, n);
    let am = absi(a * m);
    let q = am / n;
    vstd::arithmetic::div_mod::lemma_fundamental_div_mod(am, n);
    let rem = am % n;
    vstd::arithmetic::div_mod::lemma_mod_division_less_than_divisor(am, n);
    assert(am == absi(a) * m && absi(a) * absi(a) == a * a) by (nonlinear_arith)
        requires
            m >= 0,
            am == absi(a * m),
    ;
    let t = tdiv(a * m, n);
    assert(n * n * (t * t) <= (a * a) * (m * m) && n * n * (t * t) >= (a * a) * (m * m) - 2 * (n
        * m) * absi(a)) by (nonlinear_arith)
        requires
            am == n * q + rem,
            0 <= rem < n,
            q >= 0,
            absi(t) == q,
            t == q || t == -q,
            am == absi(a) * m,
            absi(a) * absi(a) == a * a,
            absi(a) >= 0,
            m >= 0,
            n >= 1,
    ;
}

/// Pure arithmetic behind [`lemma_vrescale_nsq`]: summing three
/// componentwise bounds (over the squares `X, Y, Z` of the rescaled
/// components and `A, B, C` of the original ones) and dividing out the
/// positive factor `P == n * n`; `Q == m * m` and `R == n * m`.
proof fn lemma_rescale_sum(
    x1: int,
    y1: int,
    z1: int,
    a1: int,
    b1: int,
    c1: int,
    e1: int,
    e2: int,
    e3: int,
    p: int,
    q: int,
    r: int,
    m: int,
    n: int,
)
    by (nonlinear_arith)
    requires
        n >= 1,
        m >= 1,
        p == n * n,
        q == m * m,
        r * n == m * p,
        r >= 0,
        x1 >= 0,
        y1 >= 0,
        z1 >= 0,
        p * x1 <= a1 * q,
        p * y1 <= b1 * q,
        p * z1 <= c1 * q,
        p * x1 >= a1 * q - 2 * r * e1,
        p * y1 >= b1 * q - 2 * r * e2,
        p * z1 >= c1 * q - 2 * r * e3,
        e1 <= n,
        e2 <= n,
        e3 <= n,
        a1 + b1 + c1 >= p,
    ensures
        p * (x1 + y1 + z1) <= q * (a1 + b1 + c1),
        x1 + y1 + z1 >= q - 6 * m,
{
}

/// Rescaling a vector of integer norm `n` toward target norm `m`: the
/// squared norm lands between `m * m - 6 * m` and `m * m * nn / (n * n)`,
/// where `nn` is the original squared norm.
proof fn lemma_vrescale_nsq(v: V3, m: int, n: int)
    requires
        m >= 1,
        n >= 1,
        is_isq(vnsq(v), n),
    ensures
        vnsq(vrescale(v, m, n)) >= m * m - 6 * m,
        vnsq(vrescale(v, m, n)) >= 0,
        n * n * vnsq(vrescale(v, m, n)) <= m * m * vnsq(v),
{
    let nn = vnsq(v);
    lemma_isq(nn);
    lemma_isq_unique(nn, n, isq(nn));
    lemma_vcomp_le_norm(v);
    lemma_rescale_comp(v.x, m, n);
    lemma_rescale_comp(v.y, m, n);
    lemma_rescale_comp(v.z, m, n);
    let r = vrescale(v, m, n);
    assert((n * m) * n == m * (n * n)) by (nonlinear_arith);
    assert(r.x * r.x >= 0 && r.y * r.y >= 0 && r.z * r.z >= 0) by (nonlinear_arith);
    assert(n * m >= 0) by (nonlinear_arith)
        requires
            n >= 1,
            m >= 1,
    ;
    lemma_rescale_sum(
        r.x * r.x,
        r.y * r.y,
        r.z * r.z,
        v.x * v.x,
        v.y * v.y,
        v.z * v.z,
        absi(v.x),
        absi(v.y),
        absi(v.z),
        n * n,
        m * m,
        n * m,
        m,
        n,
    );
    crate::vec3::lemma_vnsq_bounds(r, absi(r.x) + absi(r.y) + absi(r.z));
}

/// The speed clamp does its job: after every tick the squared speed of
/// every agent lies between `min_speed^2 - 6 min_speed` and
/// `4 max_speed^2`; a speed that was already within the configured range
/// is left exactly as it was.  The slack is the truncation granularity of
/// the integer norm: speeds raised from far below the minimum may land
/// short of it by up to 3 units, or overshoot it by up to a factor of two,
/// while speeds lowered to the maximum stay strictly below `max_speed + 1`.
pub proof fn lemma_clamp_speed_bounds(c: Config, v: V3)
    requires
        c.wf(),
    ensures
        vnsq(spec_clamp_speed(c, v)) >= 0,
        vnsq(spec_clamp_speed(c, v)) >= c.min_speed * c.min_speed - 6 * c.min_speed,
        vnsq(spec_clamp_speed(c, v)) <= 4 * (c.max_speed * c.max_speed),
        isq(vnsq(v)) > c.max_speed ==> vnsq(spec_clamp_speed(c, v)) < (c.max_speed + 1) * (
        c.max_speed + 1),
        c.min_speed <= isq(vnsq(v)) <= c.max_speed ==> spec_clamp_speed(c, v) == v,
{
    let nn = vnsq(v);
    let mins = c.min_speed as int;
    let maxs = c.max_speed as int;
    crate::vec3::lemma_vnsq_bounds(v, absi(v.x) + absi(v.y) + absi(v.z));
    lemma_isq(nn);
    let n = isq(nn);
    let r = spec_clamp_speed(c, v);
    if n < mins {
        if n == 0 {
            assert(vnsq(r) == mins * mins) by (nonlinear_arith)
                requires
                    r == (V3 { x: mins, y: 0, z: 0 }),
            ;
            assert(mins * mins <= 4 * (maxs * maxs)) by (nonlinear_arith)
                requires
                    1 <= mins <= maxs,
            ;
        } else {
            lemma_vrescale_nsq(v, mins, n);
            assert(vnsq(r) <= 4 * (mins * mins)) by (nonlinear_arith)
                requires
                    n * n * vnsq(r) <= mins * mins * nn,
                    nn < (n + 1) * (n + 1),
                    n >= 1,
                    mins >= 1,
                    vnsq(r) >= 0,
            ;
            assert(4 * (mins * mins) <= 4 * (maxs * maxs)) by (nonlinear_arith)
                requires
                    1 <= mins <= maxs,
            ;
        }
    } else if n > maxs {
        lemma_vrescale_nsq(v, maxs, n);
        assert(vnsq(r) < (maxs + 1) * (maxs + 1)) by (nonlinear_arith)
            requires
                n * n * vnsq(r) <= maxs * maxs * nn,
                nn < (n + 1) * (n + 1),
                n > maxs >= 1,
                vnsq(r) >= 0,
        ;
        assert((maxs + 1) * (maxs + 1) <= 4 * (maxs * maxs)) by (nonlinear_arith)
            requires
                maxs >= 1,
        ;
        assert(maxs * maxs - 6 * maxs >= mins * mins - 6 * mins || vnsq(r) >= mins * mins - 6
            * mins) by (nonlinear_arith)
            requires
                1 <= mins <= maxs,
                vnsq(r) >= 0,
        ;
    } else {
        assert(vnsq(r) >= mins * mins && vnsq(r) <= 4 * (maxs * maxs) && vnsq(r) < (maxs + 1) * (
        maxs + 1)) by (nonlinear_arith)
            requires
                r == v,
                nn == vnsq(v),
                vnsq(r) == nn,
                n * n <= nn < (n + 1) * (n + 1),
                mins <= n <= maxs,
                1 <= mins,
        ;
        assert(mins * mins >= mins * mins - 6 * mins);
    }
}

/// Speed clamp, flock-wide: after a tick every agent's squared speed obeys
/// the bounds of [`lemma_clamp_speed_bounds`].
pub proof fn lemma_update_speed(f: Seq<Boid>, c: Config, i: int)
    requires
        c.wf(),
        0 <= i < f.len(),
    ensures
        vnsq(spec_new_velocity(f, c, i)) >= c.min_speed * c.min_speed - 6 * c.min_speed,
        vnsq(spec_new_velocity(f, c, i)) <= 4 * (c.max_speed * c.max_speed),
{
    let w = vadd(
        v3(f[i].velocity),
        crate::vec3::vscale(spec_force(f, c, i), c.blend as int),
    );
    lemma_clamp_speed_bounds(c, w);
}

} // verus!
