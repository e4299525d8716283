//! Fixed-point arithmetic primitives.

use tile_mesh::math::{isqrt, scale_frac, Vec3i};

fn v(x: i64, y: i64, z: i64) -> Vec3i {
    Vec3i { x, y, z }
}

#[test]
fn integer_square_root_rounds_down() {
    assert_eq!(isqrt(0), 0);
    assert_eq!(isqrt(1), 1);
    assert_eq!(isqrt(2), 1);
    assert_eq!(isqrt(3), 1);
    assert_eq!(isqrt(4), 2);
    assert_eq!(isqrt(99), 9);
    assert_eq!(isqrt(100), 10);
    assert_eq!(isqrt(1_000_000_000_000), 1_000_000);
    assert_eq!(isqrt(u128::MAX), u64::MAX);
}

#[test]
fn cross_product_is_exact() {
    let r = v(1000, 0, 0).cross(v(0, 0, 1000));
    assert_eq!(r, v(0, -1_000_000, 0));
    let r = v(0, 0, 1000).cross(v(1000, 0, 0));
    assert_eq!(r, v(0, 1_000_000, 0));
}

#[test]
fn normalize_scales_to_unit_length() {
    // A 3-4-5 triangle: length 5000, so components scale by 1000/5000.
    assert_eq!(v(3000, 4000, 0).normalize(), v(600, 800, 0));
    assert_eq!(v(0, -2500, 0).normalize(), v(0, -1000, 0));
    assert_eq!(v(7, 0, 0).normalize(), v(1000, 0, 0));
    // A diagonal direction rounds towards zero.
    assert_eq!(v(1000, 0, 1000).normalize(), v(707, 0, 707));
}

#[test]
fn scale_frac_rounds_towards_zero() {
    assert_eq!(scale_frac(1000, 80, 1000), 80);
    assert_eq!(scale_frac(-1000, 80, 1000), -80);
    assert_eq!(scale_frac(707, 80, 1000), 56);
    assert_eq!(scale_frac(-707, 80, 1000), -56);
    assert_eq!(scale_frac(0, 80, 1000), 0);
}

#[test]
fn plus_and_minus_are_componentwise() {
    assert_eq!(v(1, 2, 3).plus(v(10, 20, 30)), v(11, 22, 33));
    assert_eq!(v(1, 2, 3).minus(v(10, 20, 30)), v(-9, -18, -27));
}
