//! Vectors with up to three fixed-point components.
//!
//! A two-dimensional flock simply keeps every `z` component at zero; the
//! componentwise operations below then never disturb it.  The ghost type
//! [`V3`] carries the unbounded integer image of a vector, so that
//! specifications are free of overflow concerns.

use vstd::prelude::*;
use vstd::arithmetic::mul::lemma_mul_nonnegative;
use crate::fp::SCALE;
use crate::fp::absi;
use crate::fp::tdiv;
use crate::fp::tdiv64;
use crate::fp::lemma_tdiv_ordered;
use crate::fp::is_isq;
use crate::fp::isq;
use crate::fp::isqrt;
use crate::fp::lemma_isq_component;

verus! {

/// An executable vector of three fixed-point coordinates.
#[derive(Clone, Copy, Debug, PartialEq, Eq, Structural)]
pub struct Vec3 {
    pub x: i64,
    pub y: i64,
    pub z: i64,
}

/// The mathematical image of a vector: the same three components as
/// unbounded integers.
pub struct V3 {
    pub x: int,
    pub y: int,
    pub z: int,
}

/// The image of an executable vector.
pub open spec fn v3(v: Vec3) -> V3 {
    V3 { x: v.x as int, y: v.y as int, z: v.z as int }
}

pub open spec fn vzero() -> V3 {
    V3 { x: 0, y: 0, z: 0 }
}

pub open spec fn vadd(a: V3, b: V3) -> V3 {
    V3 { x: a.x + b.x, y: a.y + b.y, z: a.z + b.z }
}

pub open spec fn vsub(a: V3, b: V3) -> V3 {
    V3 { x: a.x - b.x, y: a.y - b.y, z: a.z - b.z }
}

pub open spec fn vdot(a: V3, b: V3) -> int {
    a.x * b.x + a.y * b.y + a.z * b.z
}

/// The squared Euclidean norm.
pub open spec fn vnsq(a: V3) -> int {
    vdot(a, a)
}

/// Multiplication by a fixed-point scalar `g`: each component becomes
/// `c * g / SCALE`, rounded toward zero.
pub open spec fn vscale(a: V3, g: int) -> V3 {
    V3 {
        x: tdiv(a.x * g, SCALE as int),
        y: tdiv(a.y * g, SCALE as int),
        z: tdiv(a.z * g, SCALE as int),
    }
}

/// Componentwise division by a plain integer (a neighbor count).
pub open spec fn vdivn(a: V3, n: int) -> V3 {
    V3 { x: tdiv(a.x, n), y: tdiv(a.y, n), z: tdiv(a.z, n) }
}

/// Rescaling to a target norm: each component becomes `c * m / n`, rounded
/// toward zero, where `n` is the current norm and `m` the target.
pub open spec fn vrescale(a: V3, m: int, n: int) -> V3 {
    V3 { x: tdiv(a.x * m, n), y: tdiv(a.y * m, n), z: tdiv(a.z * m, n) }
}

/// Every component has magnitude at most `b`.
pub open spec fn vbound(a: V3, b: int) -> bool {
    absi(a.x) <= b && absi(a.y) <= b && absi(a.z) <= b
}

/// The squared norm is nonnegative, and is bounded by the squared component
/// bound.
pub proof fn lemma_vnsq_bounds(a: V3, b: int)
    requires
        vbound(a, b),
    ensures
        vnsq(a) >= 0,
        vnsq(a) <= 3 * b * b,
        a.x * a.x <= vnsq(a),
        a.y * a.y <= vnsq(a),
        a.z * a.z <= vnsq(a),
{
    assert(vnsq(a) >= 0 && vnsq(a) <= 3 * b * b && a.x * a.x <= vnsq(a) && a.y * a.y <= vnsq(a)
        && a.z * a.z <= vnsq(a)) by (nonlinear_arith)
        requires
            absi(a.x) <= b,
            absi(a.y) <= b,
            absi(a.z) <= b,
    ;
}

/// Each component of a vector is bounded by the integer square root of its
/// squared norm.
pub proof fn lemma_vcomp_le_norm(a: V3)
    ensures
        vbound(a, isq(vnsq(a))),
{
    lemma_vnsq_bounds(a, absi(a.x) + absi(a.y) + absi(a.z));
    lemma_isq_component(a.x, vnsq(a));
    lemma_isq_component(a.y, vnsq(a));
    lemma_isq_component(a.z, vnsq(a));
}

/// Scaling by `g` with `|g|` at most `bg` keeps a `bv`-bounded vector within
/// `bv * bg / SCALE`.
pub proof fn lemma_vscale_bound(a: V3, g: int, bv: int, bg: int)
    requires
        vbound(a, bv),
        absi(g) <= bg,
        bv >= 0,
        bg >= 0,
    ensures
        vbound(vscale(a, g), (bv * bg) / (SCALE as int)),
        vbound(vscale(a, g), bv * bg),
{
    assert(absi(a.x * g) <= bv * bg && absi(a.y * g) <= bv * bg && absi(a.z * g) <= bv * bg)
        by (nonlinear_arith)
        requires
            absi(a.x) <= bv,
            absi(a.y) <= bv,
            absi(a.z) <= bv,
            absi(g) <= bg,
            bv >= 0,
            bg >= 0,
    ;
    lemma_mul_nonnegative(bv, bg);
    lemma_tdiv_ordered(a.x * g, bv * bg, SCALE as int);
    lemma_tdiv_ordered(a.y * g, bv * bg, SCALE as int);
    lemma_tdiv_ordered(a.z * g, bv * bg, SCALE as int);
}

/// Componentwise sum; the bound keeps the sums inside `i64`.
pub fn plus(a: &Vec3, b: &Vec3) -> (r: Vec3)
    requires
        vbound(v3(*a), 0x2000_0000_0000_0000),
        vbound(v3(*b), 0x2000_0000_0000_0000),
    ensures
        v3(r) == vadd(v3(*a), v3(*b)),
{
    Vec3 { x: a.x + b.x, y: a.y + b.y, z: a.z + b.z }
}

/// Componentwise difference.
pub fn minus(a: &Vec3, b: &Vec3) -> (r: Vec3)
    requires
        vbound(v3(*a), 0x2000_0000_0000_0000),
        vbound(v3(*b), 0x2000_0000_0000_0000),
    ensures
        v3(r) == vsub(v3(*a), v3(*b)),
{
    Vec3 { x: a.x - b.x, y: a.y - b.y, z: a.z - b.z }
}

/// Multiplication by a fixed-point scalar (a rule gain or blend factor).
pub fn multiply(a: &Vec3, g: i64) -> (r: Vec3)
    requires
        vbound(v3(*a), 0x4000_0000_0000),
        absi(g as int) <= 0x1_0000,
    ensures
        v3(r) == vscale(v3(*a), g as int),
{
    proof {
        assert(absi(a.x as int * g) <= 0x4000_0000_0000 * 0x1_0000 && absi(
            a.y as int * g,
        ) <= 0x4000_0000_0000 * 0x1_0000 && absi(a.z as int * g) <= 0x4000_0000_0000 * 0x1_0000)
            by (nonlinear_arith)
            requires
                absi(a.x as int) <= 0x4000_0000_0000,
                absi(a.y as int) <= 0x4000_0000_0000,
                absi(a.z as int) <= 0x4000_0000_0000,
                absi(g as int) <= 0x1_0000,
        ;
    }
    Vec3 {
        x: tdiv64(a.x * g, SCALE),
        y: tdiv64(a.y * g, SCALE),
        z: tdiv64(a.z * g, SCALE),
    }
}

/// Componentwise division by a positive integer (a neighbor count).
pub fn divide(a: &Vec3, n: i64) -> (r: Vec3)
    requires
        n >= 1,
    ensures
        v3(r) == vdivn(v3(*a), n as int),
{
    Vec3 { x: tdiv64(a.x, n), y: tdiv64(a.y, n), z: tdiv64(a.z, n) }
}

/// The dot product, wide enough that no practical bound overflows it.
pub fn dot(a: &Vec3, b: &Vec3) -> (r: i128)
    requires
        vbound(v3(*a), 0x4000_0000_0000_0000),
        vbound(v3(*b), 0x4000_0000_0000_0000),
    ensures
        r == vdot(v3(*a), v3(*b)),
{
    proof {
        assert(absi(a.x as int * b.x as int) <= 0x4000_0000_0000_0000 * 0x4000_0000_0000_0000
            && absi(a.y as int * b.y as int) <= 0x4000_0000_0000_0000 * 0x4000_0000_0000_0000
            && absi(a.z as int * b.z as int) <= 0x4000_0000_0000_0000 * 0x4000_0000_0000_0000)
            by (nonlinear_arith)
            requires
                absi(a.x as int) <= 0x4000_0000_0000_0000,
                absi(a.y as int) <= 0x4000_0000_0000_0000,
                absi(a.z as int) <= 0x4000_0000_0000_0000,
                absi(b.x as int) <= 0x4000_0000_0000_0000,
                absi(b.y as int) <= 0x4000_0000_0000_0000,
                absi(b.z as int) <= 0x4000_0000_0000_0000,
        ;
    }
    (a.x as i128) * (b.x as i128) + (a.y as i128) * (b.y as i128) + (a.z as i128) * (b.z as i128)
}

/// The squared norm of a vector.
pub fn normsq(a: &Vec3) -> (r: i128)
    requires
        vbound(v3(*a), 0x4000_0000_0000_0000),
    ensures
        r == vnsq(v3(*a)),
        r >= 0,
{
    proof {
        lemma_vnsq_bounds(v3(*a), 0x4000_0000_0000_0000);
    }
    dot(a, a)
}

/// The norm of a vector: the integer square root of its squared norm.
pub fn norm(a: &Vec3) -> (r: i64)
    requires
        vbound(v3(*a), 0x4000_0000_0000),
    ensures
        r == isq(vnsq(v3(*a))),
        is_isq(vnsq(v3(*a)), r as int),
        r >= 0,
        vbound(v3(*a), r as int),
{
    proof {
        lemma_vnsq_bounds(v3(*a), 0x4000_0000_0000);
        lemma_vcomp_le_norm(v3(*a));
        assert(3 * 0x4000_0000_0000 * 0x4000_0000_0000 < 0x1000000000000000000000000);
        assert(isq(vnsq(v3(*a))) <= 0x8000_0000_0000) by {
            crate::fp::lemma_isq_mono(vnsq(v3(*a)), 0x8000_0000_0000int * 0x8000_0000_0000int);
            crate::fp::lemma_isq_square(0x8000_0000_0000int);
        }
    }
    let n = normsq(a);
    isqrt(n as u128) as i64
}

/// Clamp a scalar into `[-b, b]`.
pub open spec fn sat(x: int, b: int) -> int {
    if x < -b {
        -b
    } else if x > b {
        b
    } else {
        x
    }
}

/// Componentwise clamp into `[-b, b]`.
pub open spec fn vsat(a: V3, b: int) -> V3 {
    V3 { x: sat(a.x, b), y: sat(a.y, b), z: sat(a.z, b) }
}

/// Dividing a sum of at most `n` vectors of magnitude `b` by `n` lands
/// within `b` again.
pub proof fn lemma_vdivn_bound(a: V3, n: int, b: int)
    requires
        n >= 1,
        b >= 0,
        vbound(a, n * b),
    ensures
        vbound(vdivn(a, n), b),
{
    lemma_mul_nonnegative(n, b);
    lemma_tdiv_ordered(a.x, n * b, n);
    lemma_tdiv_ordered(a.y, n * b, n);
    lemma_tdiv_ordered(a.z, n * b, n);
    vstd::arithmetic::div_mod::lemma_div_multiples_vanish(b, n);
}

/// Rescaling a vector whose components are bounded by its norm `n` to the
/// target norm `m` bounds every component by `m`.
pub proof fn lemma_vrescale_bound(a: V3, m: int, n: int)
    requires
        n >= 1,
        m >= 0,
        vbound(a, n),
    ensures
        vbound(vrescale(a, m, n), m),
{
    assert(absi(a.x * m) <= n * m && absi(a.y * m) <= n * m && absi(a.z * m) <= n * m)
        by (nonlinear_arith)
        requires
            absi(a.x) <= n,
            absi(a.y) <= n,
            absi(a.z) <= n,
            m >= 0,
    ;
    lemma_mul_nonnegative(n, m);
    lemma_tdiv_ordered(a.x * m, n * m, n);
    lemma_tdiv_ordered(a.y * m, n * m, n);
    lemma_tdiv_ordered(a.z * m, n * m, n);
    vstd::arithmetic::div_mod::lemma_div_multiples_vanish(m, n);
}

/// Clamp a scalar into `[lo, hi]`, as the simulation does with speeds.
pub fn clamp(v: i64, lo: i64, hi: i64) -> (r: i64)
    requires
        lo <= hi,
    ensures
        r == if v < lo { lo } else if v > hi { hi } else { v },
{
    if v < lo {
        lo
    } else if v > hi {
        hi
    } else {
        v
    }
}

} // verus!
