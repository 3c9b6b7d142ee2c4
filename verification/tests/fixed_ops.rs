use raymarch::fixed::{
    fx_add, fx_cos, fx_div, fx_from_u32, fx_mul, fx_sin, fx_sqrt, fx_sub, isqrt_u64, FX_HALF_PI,
    FX_MAX, FX_ONE, FX_PI, FX_TWO, FX_TWO_PI,
};

#[test]
fn add_and_sub_are_exact_in_range() {
    assert_eq!(fx_add(FX_ONE, FX_ONE), FX_TWO);
    assert_eq!(fx_sub(FX_TWO, FX_ONE), FX_ONE);
    assert_eq!(fx_add(-FX_ONE, FX_ONE), 0);
    assert_eq!(fx_sub(0, FX_ONE), -FX_ONE);
}

#[test]
fn add_saturates_at_the_range_bound() {
    assert_eq!(fx_add(FX_MAX, FX_MAX), FX_MAX);
    assert_eq!(fx_sub(-FX_MAX, FX_MAX), -FX_MAX);
}

#[test]
fn mul_rescales_exactly_on_exact_products() {
    // 1.5 * 1.5 == 2.25, exactly representable.
    let one_and_half = FX_ONE + FX_ONE / 2;
    assert_eq!(fx_mul(one_and_half, one_and_half), 147456);
    assert_eq!(fx_mul(FX_ONE, 12345), 12345);
    assert_eq!(fx_mul(-FX_ONE, 12345), -12345);
    assert_eq!(fx_mul(FX_TWO, -FX_ONE), -FX_TWO);
}

#[test]
fn mul_truncates_toward_zero() {
    // 1 (raw) * 1 (raw) is far below one raw unit.
    assert_eq!(fx_mul(1, 1), 0);
    assert_eq!(fx_mul(-1, 1), 0);
}

#[test]
fn div_truncates_toward_zero() {
    // 1 / 3 in fixed point.
    let three = 3 * FX_ONE;
    assert_eq!(fx_div(FX_ONE, three), 21845);
    assert_eq!(fx_div(-FX_ONE, three), -21845);
    assert_eq!(fx_div(FX_ONE, FX_TWO), FX_ONE / 2);
}

#[test]
fn sqrt_is_exact_on_perfect_squares() {
    assert_eq!(fx_sqrt(0), 0);
    assert_eq!(fx_sqrt(FX_ONE), FX_ONE);
    assert_eq!(fx_sqrt(4 * FX_ONE), FX_TWO);
    // sqrt(2) rounds down.
    assert_eq!(fx_sqrt(FX_TWO), 92681);
}

#[test]
fn isqrt_rounds_down() {
    assert_eq!(isqrt_u64(0), 0);
    assert_eq!(isqrt_u64(15), 3);
    assert_eq!(isqrt_u64(16), 4);
    assert_eq!(isqrt_u64(u64::MAX), 4294967295);
}

#[test]
fn from_u32_scales_and_saturates() {
    assert_eq!(fx_from_u32(0), 0);
    assert_eq!(fx_from_u32(2), FX_TWO);
    assert_eq!(fx_from_u32(u32::MAX), FX_MAX);
}

#[test]
fn sine_and_cosine_at_zero_are_exact() {
    assert_eq!(fx_sin(0), 0);
    assert_eq!(fx_cos(0), FX_ONE);
}

#[test]
fn sine_and_cosine_at_one_radian() {
    assert_eq!(fx_sin(FX_ONE), 55147);
    assert_eq!(fx_cos(FX_ONE), 35407);
}

#[test]
fn trig_reduces_by_whole_turns() {
    assert_eq!(fx_sin(FX_TWO_PI), fx_sin(0));
    assert_eq!(fx_cos(FX_TWO_PI + FX_ONE), fx_cos(FX_ONE));
    assert_eq!(fx_sin(-FX_TWO_PI), fx_sin(0));
}

#[test]
fn sine_is_odd_around_pi() {
    // sin in the third quadrant is the negation of the first quadrant.
    assert_eq!(fx_sin(FX_PI + FX_ONE), -fx_sin(FX_ONE));
    assert!(fx_sin(FX_HALF_PI) > 65000);
    assert!(fx_cos(FX_PI) < -65000);
}
