use rust_finprim::{RoundingMode, Scalar};

fn sr(m: i64, scale: u32) -> Scalar {
    Scalar::from_parts(m, scale)
}

fn eps() -> Scalar {
    Scalar::from_parts(1, 5)
}

#[test]
fn test_floatlike_rounding() {
    let value = sr(25, 1);
    assert_eq!(value.round_with_mode(0, RoundingMode::HalfToEven, eps()), sr(2, 0));
    assert_eq!(value.round_with_mode(0, RoundingMode::HalfAwayFromZero, eps()), sr(3, 0));
    assert_eq!(value.round_with_mode(0, RoundingMode::HalfTowardZero, eps()), sr(2, 0));
    assert_eq!(value.round_with_mode(0, RoundingMode::TowardZero, eps()), sr(2, 0));
    assert_eq!(value.round_with_mode(0, RoundingMode::AwayFromZero, eps()), sr(3, 0));
    assert_eq!(value.round_with_mode(0, RoundingMode::ToNegativeInfinity, eps()), sr(2, 0));
    assert_eq!(value.round_with_mode(0, RoundingMode::ToInfinity, eps()), sr(3, 0));

    let value = sr(-25, 1);
    assert_eq!(value.round_with_mode(0, RoundingMode::HalfToEven, eps()), sr(-2, 0));
    assert_eq!(value.round_with_mode(0, RoundingMode::HalfAwayFromZero, eps()), sr(-3, 0));
    assert_eq!(value.round_with_mode(0, RoundingMode::HalfTowardZero, eps()), sr(-2, 0));
    assert_eq!(value.round_with_mode(0, RoundingMode::TowardZero, eps()), sr(-2, 0));
    assert_eq!(value.round_with_mode(0, RoundingMode::AwayFromZero, eps()), sr(-3, 0));
    assert_eq!(value.round_with_mode(0, RoundingMode::ToNegativeInfinity, eps()), sr(-3, 0));
    assert_eq!(value.round_with_mode(0, RoundingMode::ToInfinity, eps()), sr(-2, 0));

    let value = sr(3005, 3);
    assert_eq!(value.round_with_mode(2, RoundingMode::HalfToEven, eps()), sr(300, 2));
    assert_eq!(value.round_with_mode(2, RoundingMode::HalfAwayFromZero, eps()), sr(301, 2));
    assert_eq!(value.round_with_mode(2, RoundingMode::HalfTowardZero, eps()), sr(300, 2));
    assert_eq!(value.round_with_mode(2, RoundingMode::TowardZero, eps()), sr(300, 2));
    assert_eq!(value.round_with_mode(2, RoundingMode::AwayFromZero, eps()), sr(301, 2));
    assert_eq!(value.round_with_mode(2, RoundingMode::ToNegativeInfinity, eps()), sr(300, 2));
    assert_eq!(value.round_with_mode(2, RoundingMode::ToInfinity, eps()), sr(301, 2));

    let value = sr(-3005, 3);
    assert_eq!(value.round_with_mode(2, RoundingMode::HalfToEven, eps()), sr(-300, 2));
    assert_eq!(value.round_with_mode(2, RoundingMode::HalfAwayFromZero, eps()), sr(-301, 2));
    assert_eq!(value.round_with_mode(2, RoundingMode::HalfTowardZero, eps()), sr(-300, 2));
    assert_eq!(value.round_with_mode(2, RoundingMode::TowardZero, eps()), sr(-300, 2));
    assert_eq!(value.round_with_mode(2, RoundingMode::AwayFromZero, eps()), sr(-301, 2));
    assert_eq!(value.round_with_mode(2, RoundingMode::ToNegativeInfinity, eps()), sr(-301, 2));
    assert_eq!(value.round_with_mode(2, RoundingMode::ToInfinity, eps()), sr(-300, 2));

    let value = sr(333, 3);
    assert_eq!(value.round_with_mode(2, RoundingMode::HalfToEven, eps()), sr(33, 2));
    assert_eq!(value.round_with_mode(2, RoundingMode::HalfAwayFromZero, eps()), sr(33, 2));
    assert_eq!(value.round_with_mode(2, RoundingMode::HalfTowardZero, eps()), sr(33, 2));
    assert_eq!(value.round_with_mode(2, RoundingMode::TowardZero, eps()), sr(33, 2));
    assert_eq!(value.round_with_mode(2, RoundingMode::AwayFromZero, eps()), sr(34, 2));
    assert_eq!(value.round_with_mode(2, RoundingMode::ToNegativeInfinity, eps()), sr(33, 2));
    assert_eq!(value.round_with_mode(2, RoundingMode::ToInfinity, eps()), sr(34, 2));

    let value = sr(-333, 3);
    assert_eq!(value.round_with_mode(2, RoundingMode::HalfToEven, eps()), sr(-33, 2));
    assert_eq!(value.round_with_mode(2, RoundingMode::HalfAwayFromZero, eps()), sr(-33, 2));
    assert_eq!(value.round_with_mode(2, RoundingMode::HalfTowardZero, eps()), sr(-33, 2));
    assert_eq!(value.round_with_mode(2, RoundingMode::TowardZero, eps()), sr(-33, 2));
    assert_eq!(value.round_with_mode(2, RoundingMode::AwayFromZero, eps()), sr(-34, 2));
    assert_eq!(value.round_with_mode(2, RoundingMode::ToNegativeInfinity, eps()), sr(-34, 2));
    assert_eq!(value.round_with_mode(2, RoundingMode::ToInfinity, eps()), sr(-33, 2));

    let value = sr(555, 3);
    assert_eq!(value.round_with_mode(2, RoundingMode::HalfToEven, eps()), sr(56, 2));
    assert_eq!(value.round_with_mode(2, RoundingMode::HalfAwayFromZero, eps()), sr(56, 2));
    assert_eq!(value.round_with_mode(2, RoundingMode::HalfTowardZero, eps()), sr(55, 2));
    assert_eq!(value.round_with_mode(2, RoundingMode::TowardZero, eps()), sr(55, 2));
    assert_eq!(value.round_with_mode(2, RoundingMode::AwayFromZero, eps()), sr(56, 2));
    assert_eq!(value.round_with_mode(2, RoundingMode::ToNegativeInfinity, eps()), sr(55, 2));
    assert_eq!(value.round_with_mode(2, RoundingMode::ToInfinity, eps()), sr(56, 2));

    let value = sr(300, 2);
    assert_eq!(value.round_with_mode(2, RoundingMode::HalfToEven, eps()), sr(300, 2));
    assert_eq!(value.round_with_mode(2, RoundingMode::HalfAwayFromZero, eps()), sr(300, 2));
    assert_eq!(value.round_with_mode(2, RoundingMode::HalfTowardZero, eps()), sr(300, 2));
    assert_eq!(value.round_with_mode(2, RoundingMode::TowardZero, eps()), sr(300, 2));
    assert_eq!(value.round_with_mode(2, RoundingMode::AwayFromZero, eps()), sr(300, 2));
    assert_eq!(value.round_with_mode(2, RoundingMode::ToNegativeInfinity, eps()), sr(300, 2));
    assert_eq!(value.round_with_mode(2, RoundingMode::ToInfinity, eps()), sr(300, 2));
}

#[test]
fn test_rounding_idempotent() {
    let modes = [
        RoundingMode::HalfToEven,
        RoundingMode::HalfAwayFromZero,
        RoundingMode::HalfTowardZero,
        RoundingMode::TowardZero,
        RoundingMode::AwayFromZero,
        RoundingMode::ToNegativeInfinity,
        RoundingMode::ToInfinity,
    ];
    let values = [sr(25, 1), sr(-25, 1), sr(3005, 3), sr(-3005, 3), sr(333, 3), sr(555, 3)];
    for mode in modes {
        for v in values {
            let once = v.round_with_mode(2, mode, eps());
            let twice = once.round_with_mode(2, mode, eps());
            assert_eq!(once, twice);
        }
    }
}

#[test]
fn test_scalar_arithmetic_basics() {
    assert_eq!(sr(25, 1).add(sr(5, 1)), sr(3, 0));
    assert_eq!(sr(1, 0).div(sr(8, 0)), sr(125, 3));
    assert_eq!(sr(15, 1).mul(sr(2, 0)), sr(3, 0));
    assert_eq!(sr(-7, 0).abs(), sr(7, 0));
    assert_eq!(sr(3, 0).min(sr(2, 0)), sr(2, 0));
    assert_eq!(sr(3, 0).max(sr(2, 0)), sr(3, 0));
    assert_eq!(Scalar::from_u16(365), sr(365, 0));
    assert_eq!(Scalar::from_i32(-12), sr(-12, 0));
    assert_eq!(Scalar::from_usize(12), sr(12, 0));
    assert!(Scalar::zero().is_zero());
    assert_eq!(Scalar::one().add(Scalar::one()), Scalar::two());
}

#[test]
fn test_powf_computes() {
    // (1.05)^2 == 1.1025 exactly: fails if the power wrapper handed its
    // base back unchanged.
    let base = sr(105, 2);
    let result = base.powf(sr(2, 0));
    assert_eq!(result, sr(11025, 4));
    // 0.5^0.2 is about 0.87055: a real fractional power.
    let root = sr(5, 1).powf(sr(2, 1));
    assert!(root.sub(sr(87055, 5)).abs().lt(&sr(1, 4)));
    // x^0 == 1 even for a fractional base.
    assert_eq!(sr(123, 2).powf(Scalar::zero()), Scalar::one());
}
