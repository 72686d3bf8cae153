use freelook_camera::fixed::{narrow, Fixed, SCALE};

#[test]
fn from_int_scales_by_a_billion() {
    assert_eq!(Fixed::from_int(0).raw, 0);
    assert_eq!(Fixed::from_int(45).raw, 45_000_000_000);
    assert_eq!(Fixed::from_int(-90).raw, -90_000_000_000);
    assert_eq!(Fixed::from_int(i32::MAX).raw, 2_147_483_647 * SCALE);
    assert_eq!(Fixed::from_int(i32::MIN).raw, -2_147_483_648 * SCALE);
}

#[test]
fn from_raw_keeps_the_count() {
    assert_eq!(Fixed::from_raw(123).raw, 123);
    assert_eq!(Fixed::from_raw(i64::MIN).raw, i64::MIN);
}

#[test]
fn narrow_saturates_at_both_ends() {
    assert_eq!(narrow(0), 0);
    assert_eq!(narrow(i64::MAX as i128), i64::MAX);
    assert_eq!(narrow(i64::MAX as i128 + 1), i64::MAX);
    assert_eq!(narrow(i64::MIN as i128), i64::MIN);
    assert_eq!(narrow(i64::MIN as i128 - 1), i64::MIN);
    assert_eq!(narrow(i128::MAX), i64::MAX);
    assert_eq!(narrow(i128::MIN), i64::MIN);
}

#[test]
fn addition_is_exact_within_range() {
    let a = Fixed::from_raw(1_500_000_000);
    let b = Fixed::from_raw(-2_250_000_001);
    assert_eq!(a.saturating_add(b).raw, -750_000_001);
    assert_eq!(a.saturating_sub(b).raw, 3_750_000_001);
}

#[test]
fn addition_saturates() {
    let top = Fixed::from_raw(i64::MAX);
    let bottom = Fixed::from_raw(i64::MIN);
    let one = Fixed::from_raw(1);
    assert_eq!(top.saturating_add(one).raw, i64::MAX);
    assert_eq!(bottom.saturating_sub(one).raw, i64::MIN);
    assert_eq!(top.saturating_sub(bottom).raw, i64::MAX);
    assert_eq!(bottom.saturating_sub(top).raw, i64::MIN);
    assert_eq!(bottom.saturating_add(top).raw, -1);
    assert_eq!(Fixed::from_raw(0).saturating_sub(bottom).raw, i64::MAX);
}

#[test]
fn product_of_two_and_a_half_and_one_and_a_half() {
    let a = Fixed::from_raw(2_500_000_000);
    let b = Fixed::from_raw(1_500_000_000);
    assert_eq!(a.saturating_mul(b).raw, 3_750_000_000);
    assert_eq!(b.saturating_mul(a).raw, 3_750_000_000);
}

#[test]
fn product_rounds_towards_zero() {
    let half = Fixed::from_raw(500_000_000);
    assert_eq!(Fixed::from_raw(3).saturating_mul(half).raw, 1);
    assert_eq!(Fixed::from_raw(-3).saturating_mul(half).raw, -1);
    assert_eq!(Fixed::from_raw(1).saturating_mul(half).raw, 0);
    assert_eq!(Fixed::from_raw(-1).saturating_mul(half).raw, 0);
    assert_eq!(Fixed::from_raw(-3).saturating_mul(Fixed::from_raw(-500_000_000)).raw, 1);
}

#[test]
fn product_with_one_and_zero() {
    let one = Fixed::from_int(1);
    let zero = Fixed::from_int(0);
    for raw in [i64::MIN, -7, 0, 1, 123_456_789_012, i64::MAX] {
        assert_eq!(Fixed::from_raw(raw).saturating_mul(one).raw, raw);
        assert_eq!(Fixed::from_raw(raw).saturating_mul(zero).raw, 0);
    }
}

#[test]
fn product_saturates() {
    let big = Fixed::from_raw(i64::MAX);
    let two = Fixed::from_int(2);
    assert_eq!(big.saturating_mul(two).raw, i64::MAX);
    assert_eq!(big.saturating_mul(Fixed::from_int(-2)).raw, i64::MIN);
    assert_eq!(Fixed::from_raw(i64::MIN).saturating_mul(Fixed::from_raw(i64::MIN)).raw, i64::MAX);
    assert_eq!(Fixed::from_raw(i64::MIN).saturating_mul(Fixed::from_int(-1)).raw, i64::MAX);
}

#[test]
fn sensitivity_times_hundred_is_ten() {
    let offset = Fixed::from_int(100);
    let sensitivity = Fixed::from_raw(100_000_000);
    assert_eq!(offset.saturating_mul(sensitivity), Fixed::from_int(10));
}

#[test]
fn clamp_limits_to_the_interval() {
    let lo = Fixed::from_int(-89);
    let hi = Fixed::from_int(89);
    assert_eq!(Fixed::from_int(0).clamp(lo, hi), Fixed::from_int(0));
    assert_eq!(Fixed::from_int(89).clamp(lo, hi), hi);
    assert_eq!(Fixed::from_raw(89_000_000_001).clamp(lo, hi), hi);
    assert_eq!(Fixed::from_raw(-89_000_000_001).clamp(lo, hi), lo);
    assert_eq!(Fixed::from_raw(i64::MIN).clamp(lo, hi), lo);
    assert_eq!(Fixed::from_raw(i64::MAX).clamp(lo, hi), hi);
    assert_eq!(Fixed::from_int(5).clamp(Fixed::from_int(7), Fixed::from_int(7)), Fixed::from_int(7));
}
