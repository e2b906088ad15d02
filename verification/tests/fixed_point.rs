//! Scalar fixed-point arithmetic: truncating division and integer roots.

use boid::fp::{isqrt, tdiv64, SCALE};
use boid::vec3::{clamp, divide, dot, minus, multiply, norm, normsq, plus, Vec3};

#[test]
fn scale_is_two_to_the_sixteen() {
    assert_eq!(SCALE, 65536);
}

#[test]
fn tdiv64_truncates_toward_zero() {
    assert_eq!(tdiv64(7, 2), 3);
    assert_eq!(tdiv64(-7, 2), -3);
    assert_eq!(tdiv64(6, 3), 2);
    assert_eq!(tdiv64(-6, 3), -2);
    assert_eq!(tdiv64(0, 5), 0);
    assert_eq!(tdiv64(-1, 1280), 0);
}

#[test]
fn isqrt_small_values() {
    assert_eq!(isqrt(0), 0);
    assert_eq!(isqrt(1), 1);
    assert_eq!(isqrt(3), 1);
    assert_eq!(isqrt(4), 2);
    assert_eq!(isqrt(15), 3);
    assert_eq!(isqrt(16), 4);
    assert_eq!(isqrt(65535), 255);
    assert_eq!(isqrt(65536), 256);
}

#[test]
fn isqrt_large_values() {
    // One scaled world unit squared.
    assert_eq!(isqrt((SCALE as u128) * (SCALE as u128)), SCALE as u64);
    assert_eq!(isqrt(u64::MAX as u128), 4294967295);
    let just_below = (1u128 << 90) - 1;
    let root = isqrt(just_below);
    assert!((root as u128) * (root as u128) <= just_below);
    assert!(((root + 1) as u128) * ((root + 1) as u128) > just_below);
}

#[test]
fn clamp_orders_its_result() {
    assert_eq!(clamp(5, 0, 10), 5);
    assert_eq!(clamp(-5, 0, 10), 0);
    assert_eq!(clamp(15, 0, 10), 10);
    assert_eq!(clamp(10, 0, 10), 10);
}

#[test]
fn vector_componentwise_operations() {
    let a = Vec3 { x: 3, y: -4, z: 12 };
    let b = Vec3 { x: 1, y: 2, z: -3 };
    assert_eq!(plus(&a, &b), Vec3 { x: 4, y: -2, z: 9 });
    assert_eq!(minus(&a, &b), Vec3 { x: 2, y: -6, z: 15 });
    assert_eq!(divide(&a, 2), Vec3 { x: 1, y: -2, z: 6 });
    assert_eq!(dot(&a, &b), 3 - 8 - 36);
}

#[test]
fn multiply_scales_by_fixed_point_factor() {
    let a = Vec3 { x: 65536, y: -65536, z: 131072 };
    // A gain of one half.
    let half = SCALE / 2;
    assert_eq!(multiply(&a, half), Vec3 { x: 32768, y: -32768, z: 65536 });
    // Truncation rounds toward zero on both signs.
    let c = Vec3 { x: 3, y: -3, z: 0 };
    assert_eq!(multiply(&c, half), Vec3 { x: 1, y: -1, z: 0 });
}

#[test]
fn norm_is_integer_euclidean_length() {
    let a = Vec3 { x: 3, y: 4, z: 0 };
    assert_eq!(normsq(&a), 25);
    assert_eq!(norm(&a), 5);
    let b = Vec3 { x: 2, y: 3, z: 6 };
    assert_eq!(norm(&b), 7);
    let c = Vec3 { x: 1, y: 1, z: 1 };
    assert_eq!(norm(&c), 1);
}
