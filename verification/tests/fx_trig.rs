use genetic::components::Position;
use genetic::fx::{fx_add, fx_clamp, fx_isqrt, fx_mul, wrap_fx, FX_HALF_PI, FX_LIM, FX_ONE, FX_PI,
    FX_TAU};
use genetic::trig::{atan2_fx, cos_fx, sin_fx, FX_QUARTER_PI};

#[test]
fn fixed_point_products() {
    assert_eq!(fx_mul(2_000_000, 3_000_000), 6_000_000);
    assert_eq!(fx_mul(500_000, 500_000), 250_000);
    assert_eq!(fx_mul(-500_000, 500_000), -250_000);
    // rounding is towards zero on both sides
    assert_eq!(fx_mul(1_000, 1_000), 1);
    assert_eq!(fx_mul(1_000, -1_000), -1);
    assert_eq!(fx_mul(999, 999), 0);
    assert_eq!(fx_mul(999, -999), 0);
    // saturation at the representation bound
    assert_eq!(fx_mul(FX_LIM, FX_LIM), FX_LIM);
    assert_eq!(fx_mul(-FX_LIM, FX_LIM), -FX_LIM);
}

#[test]
fn fixed_point_sums() {
    assert_eq!(fx_add(1_500_000, -2_750_000), -1_250_000);
    assert_eq!(fx_add(FX_LIM, FX_LIM), FX_LIM);
    assert_eq!(fx_add(-FX_LIM, -FX_LIM), -FX_LIM);
    assert_eq!(fx_clamp(7, 0, 5), 5);
    assert_eq!(fx_clamp(-7, 0, 5), 0);
    assert_eq!(fx_clamp(3, 0, 5), 3);
}

#[test]
fn wraparound_is_euclidean() {
    assert_eq!(wrap_fx(0, 1_000), 0);
    assert_eq!(wrap_fx(1_234, 1_000), 234);
    assert_eq!(wrap_fx(-1, 1_000), 999);
    assert_eq!(wrap_fx(-2_500, 1_000), 500);
    assert_eq!(wrap_fx(-3_000, 1_000), 0);
}

#[test]
fn integer_square_root() {
    assert_eq!(fx_isqrt(0), 0);
    assert_eq!(fx_isqrt(1), 1);
    assert_eq!(fx_isqrt(3), 1);
    assert_eq!(fx_isqrt(4), 2);
    assert_eq!(fx_isqrt(99), 9);
    assert_eq!(fx_isqrt(25_000_000_000_000), 5_000_000);
}

#[test]
fn distance_on_integer_triangle() {
    let a = Position { x: 0, y: 0 };
    let b = Position { x: 3_000_000, y: 4_000_000 };
    assert_eq!(a.distance(&b), 5_000_000);
    assert_eq!(b.distance(&a), 5_000_000);
    assert_eq!(a.distance(&a), 0);
}

#[test]
fn sine_cosine_landmarks() {
    assert_eq!(sin_fx(0), 0);
    assert_eq!(sin_fx(FX_HALF_PI), FX_ONE);
    assert_eq!(sin_fx(FX_PI), 0);
    assert_eq!(sin_fx(FX_PI + FX_HALF_PI), -FX_ONE);
    assert_eq!(cos_fx(0), FX_ONE);
    assert_eq!(cos_fx(FX_PI), -FX_ONE);
    assert_eq!(cos_fx(FX_TAU), FX_ONE);
    // a mid angle stays close to the real sine: sin(1) = 0.841471
    let s = sin_fx(1_000_000);
    assert!((s - 841_471).abs() < 3_000, "sin(1.0) = {s}");
}

#[test]
fn arctangent_landmarks() {
    assert_eq!(atan2_fx(0, 5), 0);
    assert_eq!(atan2_fx(7, 7), FX_QUARTER_PI);
    assert_eq!(atan2_fx(5, 0), FX_HALF_PI);
    assert_eq!(atan2_fx(0, -5), FX_PI);
    assert_eq!(atan2_fx(-5, 0), -FX_HALF_PI);
    assert_eq!(atan2_fx(-7, 7), -FX_QUARTER_PI);
    assert_eq!(atan2_fx(0, 0), 0);
    // a generic slope stays close: atan2(1, 2) = 0.463648
    let a = atan2_fx(1_000_000, 2_000_000);
    assert!((a - 463_648).abs() < 6_000, "atan2(1, 2) = {a}");
}
