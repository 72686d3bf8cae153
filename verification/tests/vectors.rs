use freelook_camera::fixed::{Fixed, SCALE};
use freelook_camera::root::isqrt;
use freelook_camera::vector::{unit_of, Vec3};

fn vec3(x: i64, y: i64, z: i64) -> Vec3 {
    Vec3::new(Fixed::from_raw(x), Fixed::from_raw(y), Fixed::from_raw(z))
}

fn dot(a: Vec3, b: Vec3) -> i128 {
    a.x.raw as i128 * b.x.raw as i128
        + a.y.raw as i128 * b.y.raw as i128
        + a.z.raw as i128 * b.z.raw as i128
}

#[test]
fn square_roots_of_small_numbers() {
    let expected = [0u64, 1, 1, 1, 2, 2, 2, 2, 2, 3, 3, 3, 3, 3, 3, 3, 4];
    for (n, r) in expected.iter().enumerate() {
        assert_eq!(isqrt(n as u128), *r);
    }
}

#[test]
fn square_roots_round_down() {
    for r in [1u128, 2, 999_999_999, 1_000_000_000, 1 << 32, (1 << 63) - 1, (1 << 64) - 1] {
        assert_eq!(isqrt(r * r) as u128, r);
        assert_eq!(isqrt(r * r - 1) as u128, r - 1);
        if r < (1 << 64) - 1 {
            assert_eq!(isqrt(r * r + 2 * r) as u128, r);
            assert_eq!(isqrt(r * r + 2 * r + 1) as u128, r + 1);
        }
    }
    assert_eq!(isqrt(u128::MAX), u64::MAX);
    assert_eq!(isqrt(1_000_000_000_000_000_000), 1_000_000_000);
}

#[test]
fn new_and_zeros_build_vectors() {
    let v = Vec3::new(Fixed::from_raw(1), Fixed::from_raw(-2), Fixed::from_raw(3));
    assert_eq!((v.x.raw, v.y.raw, v.z.raw), (1, -2, 3));
    assert_eq!(Vec3::zeros(), vec3(0, 0, 0));
}

#[test]
fn sums_and_differences_go_component_by_component() {
    let a = vec3(1, 2, 3);
    let b = vec3(10, -20, 30);
    assert_eq!(a.saturating_add(b), vec3(11, -18, 33));
    assert_eq!(a.saturating_sub(b), vec3(-9, 22, -27));
    let edge = vec3(i64::MAX, i64::MIN, 0);
    assert_eq!(edge.saturating_add(vec3(1, -1, 1)), vec3(i64::MAX, i64::MIN, 1));
    assert_eq!(edge.saturating_sub(vec3(-1, 1, 1)), vec3(i64::MAX, i64::MIN, -1));
}

#[test]
fn scale_multiplies_each_component() {
    let v = vec3(0, SCALE, -SCALE);
    assert_eq!(v.scale(Fixed::from_raw(2_500_000_000)), vec3(0, 2_500_000_000, -2_500_000_000));
    assert_eq!(vec3(3, -3, 1).scale(Fixed::from_raw(500_000_000)), vec3(1, -1, 0));
    assert_eq!(vec3(i64::MAX, i64::MIN, 1).scale(Fixed::from_int(2)), vec3(i64::MAX, i64::MIN, 2));
}

#[test]
fn normalize_of_axis_vectors() {
    assert_eq!(vec3(5, 0, 0).normalize(), vec3(SCALE, 0, 0));
    assert_eq!(vec3(0, -7 * SCALE, 0).normalize(), vec3(0, -SCALE, 0));
    assert_eq!(vec3(0, 0, i64::MAX).normalize(), vec3(0, 0, SCALE));
    assert_eq!(vec3(0, 0, i64::MIN).normalize(), vec3(0, 0, -SCALE));
}

#[test]
fn normalize_of_the_zero_vector_is_zero() {
    assert_eq!(vec3(0, 0, 0).normalize(), vec3(0, 0, 0));
    assert_eq!(unit_of(0, 0, 0), vec3(0, 0, 0));
}

#[test]
fn normalize_of_three_four_five() {
    assert_eq!(vec3(3, 4, 0).normalize(), vec3(600_000_000, 800_000_000, 0));
    assert_eq!(vec3(-3 * SCALE, 0, 4 * SCALE).normalize(), vec3(-600_000_000, 0, 800_000_000));
}

#[test]
fn normalize_rounds_towards_zero() {
    // 1 / sqrt(3) = 0.577350269189...; the length of (1, 1, 1) rounds down to 1.
    assert_eq!(vec3(1, 1, 1).normalize(), vec3(SCALE, SCALE, SCALE));
    let v = vec3(SCALE, SCALE, SCALE).normalize();
    assert_eq!(v, vec3(577_350_269, 577_350_269, 577_350_269));
    let w = vec3(-SCALE, SCALE, -SCALE).normalize();
    assert_eq!(w, vec3(-577_350_269, 577_350_269, -577_350_269));
}

#[test]
fn normalize_of_extreme_vectors_has_length_one() {
    let tolerance = 6 * SCALE as i128;
    let one = SCALE as i128 * SCALE as i128;
    for v in [
        vec3(i64::MAX, i64::MAX, i64::MAX),
        vec3(i64::MIN, i64::MIN, i64::MIN),
        vec3(i64::MIN, i64::MAX, 1),
        vec3(SCALE, 2 * SCALE, -3 * SCALE),
        vec3(123_456_789_012, -987_654_321, 55),
    ] {
        let u = v.normalize();
        assert!((dot(u, u) - one).abs() <= tolerance);
    }
}

#[test]
fn unit_of_takes_the_widest_components() {
    let edge = 1i128 << 63;
    assert_eq!(unit_of(edge, 0, 0), vec3(SCALE, 0, 0));
    assert_eq!(unit_of(-edge, 0, 0), vec3(-SCALE, 0, 0));
    let u = unit_of(edge, -edge, edge);
    assert_eq!(u, vec3(577_350_269, -577_350_269, 577_350_269));
}

#[test]
fn unit_cross_of_axes_follows_the_right_hand() {
    let x = vec3(SCALE, 0, 0);
    let y = vec3(0, SCALE, 0);
    let z = vec3(0, 0, SCALE);
    assert_eq!(x.unit_cross(y), z);
    assert_eq!(y.unit_cross(z), x);
    assert_eq!(z.unit_cross(x), y);
    assert_eq!(y.unit_cross(x), vec3(0, 0, -SCALE));
}

#[test]
fn unit_cross_of_parallel_vectors_is_zero() {
    let v = vec3(600_000_000, 0, 800_000_000);
    assert_eq!(v.unit_cross(v), vec3(0, 0, 0));
    assert_eq!(v.unit_cross(vec3(-600_000_000, 0, -800_000_000)), vec3(0, 0, 0));
    assert_eq!(v.unit_cross(vec3(0, 0, 0)), vec3(0, 0, 0));
}

#[test]
fn unit_cross_is_at_right_angles_to_both() {
    let a = vec3(600_000_000, 0, 800_000_000);
    let b = vec3(577_350_269, 577_350_269, -577_350_269);
    let c = a.unit_cross(b);
    let one = SCALE as i128 * SCALE as i128;
    assert!(dot(a, c).abs() <= 3 * SCALE as i128);
    assert!(dot(b, c).abs() <= 3 * SCALE as i128);
    assert!((dot(c, c) - one).abs() <= 6 * SCALE as i128);
}

#[test]
fn unit_cross_at_the_corners_of_the_cube() {
    let a = vec3(SCALE, SCALE, SCALE);
    let b = vec3(-SCALE, SCALE, -SCALE);
    // a x b = (-2, 0, 2) in units of SCALE squared
    assert_eq!(a.unit_cross(b), vec3(-707_106_781, 0, 707_106_781));
}
