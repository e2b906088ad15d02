//! Fixed-point scalars: truncating division and integer square roots.
//!
//! A fixed-point value represents the real number `v / SCALE`.  Products of
//! two fixed-point values are divided by `SCALE` again; the division rounds
//! toward zero, as the corresponding floating-point operations would round
//! to nearest.  All divisors in the kernel are strictly positive.

use vstd::prelude::*;
use vstd::arithmetic::div_mod::lemma_div_nonincreasing;
use vstd::arithmetic::div_mod::lemma_div_is_ordered;
use vstd::arithmetic::div_mod::lemma_div_pos_is_pos;

verus! {

/// Steps per unit length: a coordinate `c` stands for the real number
/// `c / SCALE`.
pub const SCALE: i64 = 65536;

/// Magnitude of an integer.
pub open spec fn absi(a: int) -> int {
    if a >= 0 {
        a
    } else {
        -a
    }
}

/// Division rounding toward zero, as Rust's `/` does; meaningful for
/// divisors `b >= 1`.  (The `/` of specifications is Euclidean division,
/// which rounds down instead.)
pub open spec fn tdiv(a: int, b: int) -> int {
    if a >= 0 {
        a / b
    } else {
        -((-a) / b)
    }
}

/// Truncating division shrinks magnitudes: `|a / b| == |a| euclid-div b <= |a|`,
/// and the result keeps the sign of `a`.
pub proof fn lemma_tdiv(a: int, b: int)
    requires
        b >= 1,
    ensures
        absi(tdiv(a, b)) == absi(a) / b,
        absi(tdiv(a, b)) <= absi(a),
        a >= 0 ==> tdiv(a, b) >= 0,
        a <= 0 ==> tdiv(a, b) <= 0,
{
    if a >= 0 {
        lemma_div_pos_is_pos(a, b);
        lemma_div_nonincreasing(a, b);
    } else {
        lemma_div_pos_is_pos(-a, b);
        lemma_div_nonincreasing(-a, b);
    }
}

/// A divisor that is at least as large divides at least as finely.
pub proof fn lemma_tdiv_ordered(a: int, bound: int, b: int)
    requires
        b >= 1,
        absi(a) <= bound,
    ensures
        absi(tdiv(a, b)) <= bound / b,
        absi(tdiv(a, b)) <= bound,
{
    lemma_tdiv(a, b);
    lemma_div_is_ordered(absi(a), bound, b);
    lemma_div_nonincreasing(bound, b);
}

/// Truncating division of `i64` values, for a positive divisor.
pub fn tdiv64(a: i64, b: i64) -> (r: i64)
    requires
        b >= 1,
    ensures
        r == tdiv(a as int, b as int),
{
    proof {
        lemma_tdiv(a as int, b as int);
    }
    a.checked_div(b).unwrap()
}

/// `r` is the integer square root of `n`.
pub open spec fn is_isq(n: int, r: int) -> bool {
    &&& r >= 0
    &&& r * r <= n
    &&& (r + 1) * (r + 1) > n
}

/// The integer square root: the largest `r` with `r * r <= n`.
/// Meaningful for `n >= 0`.
pub open spec fn isq(n: int) -> int {
    choose|r: int| is_isq(n, r)
}

/// Every nonnegative integer has an integer square root.
pub proof fn lemma_isq_exists(n: int)
    requires
        n >= 0,
    ensures
        exists|r: int| is_isq(n, r),
    decreases n,
{
    if n == 0 {
        assert(is_isq(0, 0));
    } else {
        lemma_isq_exists(n - 1);
        let r = choose|r: int| #[trigger] is_isq(n - 1, r);
        if (r + 1) * (r + 1) <= n {
            assert((r + 2) * (r + 2) > n) by (nonlinear_arith)
                requires
                    r >= 0,
                    (r + 1) * (r + 1) > n - 1,
            ;
            assert(is_isq(n, r + 1));
        } else {
            assert(is_isq(n, r));
        }
    }
}

/// The integer square root is unique.
pub proof fn lemma_isq_unique(n: int, a: int, b: int)
    by (nonlinear_arith)
    requires
        is_isq(n, a),
        is_isq(n, b),
    ensures
        a == b,
{
}

/// `isq(n)` deserves its name: for `n >= 0` it satisfies `is_isq`.
pub proof fn lemma_isq(n: int)
    requires
        n >= 0,
    ensures
        is_isq(n, isq(n)),
        isq(n) >= 0,
        isq(n) * isq(n) <= n,
        (isq(n) + 1) * (isq(n) + 1) > n,
{
    lemma_isq_exists(n);
}

/// The integer square root is monotone.
pub proof fn lemma_isq_mono(m: int, n: int)
    requires
        0 <= m <= n,
    ensures
        isq(m) <= isq(n),
{
    lemma_isq(m);
    lemma_isq(n);
    assert(isq(m) <= isq(n)) by (nonlinear_arith)
        requires
            is_isq(m, isq(m)),
            is_isq(n, isq(n)),
            m <= n,
    ;
}

/// The integer square root of a perfect square.
pub proof fn lemma_isq_square(x: int)
    requires
        x >= 0,
    ensures
        isq(x * x) == x,
{
    assert(is_isq(x * x, x)) by (nonlinear_arith)
        requires
            x >= 0,
    ;
    lemma_isq(x * x);
    lemma_isq_unique(x * x, x, isq(x * x));
}

/// Each component of a vector is at most the vector's norm: from
/// `a * a <= n`, conclude `|a| <= isq(n)`.
pub proof fn lemma_isq_component(a: int, n: int)
    requires
        a * a <= n,
    ensures
        absi(a) <= isq(n),
{
    assert(absi(a) * absi(a) == a * a) by (nonlinear_arith);
    assert(absi(a) * absi(a) >= 0) by (nonlinear_arith);
    lemma_isq_square(absi(a));
    lemma_isq_mono(absi(a) * absi(a), n);
}

/// Integer square root of a `u128`, by bisection.  The bound on `n` keeps
/// the root within `u64`.
pub fn isqrt(n: u128) -> (r: u64)
    requires
        n < 0x1000000000000000000000000,
    ensures
        is_isq(n as int, r as int),
        r == isq(n as int),
{
    let mut lo: u64 = 0;
    let mut hi: u64 = 0x1000000000000;
    proof {
        assert((hi as int) * (hi as int) > n);
    }
    while lo + 1 < hi
        invariant
            0 <= lo < hi <= 0x1000000000000,
            (lo as int) * (lo as int) <= n as int,
            (hi as int) * (hi as int) > n as int,
        decreases hi - lo,
    {
        let mid: u64 = lo + (hi - lo) / 2;
        proof {
            assert((mid as int) * (mid as int) <= 0x1000000000000 * 0x1000000000000)
                by (nonlinear_arith)
                requires
                    0 <= mid <= 0x1000000000000,
            ;
        }
        if (mid as u128) * (mid as u128) <= n {
            lo = mid;
        } else {
            hi = mid;
        }
    }
    proof {
        lemma_isq(n as int);
        lemma_isq_unique(n as int, lo as int, isq(n as int));
    }
    lo
}

} // verus!
