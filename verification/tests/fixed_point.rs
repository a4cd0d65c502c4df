use ocean_nav::fixed::{
    fx_mul, fx_sqrt, isqrt, mul_div, narrow, sat_add, sat_neg, sat_sub, LIMIT, SCALE, TWO_PI,
};
use ocean_nav::trig::{acos_turns, sin_cos, sin_cos_turns, OCTANT, QUARTER};
use ocean_nav::unit::normalize4;

fn to_float(raw: i64) -> f64 {
    raw as f64 / 1_000_000_000.0
}

fn squared_length(v: (i64, i64, i64, i64)) -> i128 {
    let (a, b, c, d) = (v.0 as i128, v.1 as i128, v.2 as i128, v.3 as i128);
    a * a + b * b + c * c + d * d
}

fn is_unit(v: (i64, i64, i64, i64)) -> bool {
    let n = squared_length(v);
    let lo = (SCALE as i128 - 10_000) * (SCALE as i128 - 10_000);
    let hi = (SCALE as i128 + 10_000) * (SCALE as i128 + 10_000);
    lo <= n && n <= hi
}

#[test]
fn sums_saturate_at_the_limit() {
    assert_eq!(sat_add(1, 2), 3);
    assert_eq!(sat_add(LIMIT, 1), LIMIT);
    assert_eq!(sat_add(-LIMIT, -5), -LIMIT);
    assert_eq!(sat_sub(5, 7), -2);
    assert_eq!(sat_sub(-LIMIT, 1), -LIMIT);
    assert_eq!(sat_sub(i64::MIN, 0), -LIMIT);
    assert_eq!(sat_neg(3), -3);
    assert_eq!(sat_neg(i64::MIN), LIMIT);
    assert_eq!(narrow(i128::MAX), LIMIT);
    assert_eq!(narrow(-7), -7);
}

#[test]
fn products_round_toward_zero() {
    assert_eq!(fx_mul(1_500_000_000, 2_000_000_000), 3_000_000_000);
    assert_eq!(fx_mul(1, 1), 0);
    assert_eq!(fx_mul(-1, 1), 0);
    assert_eq!(fx_mul(-1_500_000_000, 1_500_000_000), -2_250_000_000);
    assert_eq!(fx_mul(333_333_333, 3_000_000_000), 999_999_999);
    assert_eq!(fx_mul(-333_333_333, 3_000_000_001), -999_999_999);
    assert_eq!(mul_div(7, 3, 2), 10);
    assert_eq!(mul_div(-7, 3, 2), -10);
    assert_eq!(mul_div(LIMIT, LIMIT, 1), LIMIT);
    assert_eq!(mul_div(LIMIT, -LIMIT, 1), -LIMIT);
    assert_eq!(mul_div(i64::MIN, i64::MIN, 1), LIMIT);
    assert_eq!(mul_div(LIMIT, 4, 8), LIMIT / 2);
}

#[test]
fn integer_roots_round_down() {
    assert_eq!(isqrt(0), 0);
    assert_eq!(isqrt(1), 1);
    assert_eq!(isqrt(3), 1);
    assert_eq!(isqrt(4), 2);
    assert_eq!(isqrt(99), 9);
    assert_eq!(isqrt(100), 10);
    assert_eq!(isqrt(1_000_000_000_000), 1_000_000);
    assert_eq!(isqrt(999_999_999_999), 999_999);
    assert_eq!(isqrt(u128::MAX), u64::MAX);
}

#[test]
fn fixed_roots() {
    assert_eq!(fx_sqrt(4_000_000_000), 2_000_000_000);
    assert_eq!(fx_sqrt(2_000_000_000), 1_414_213_562);
    assert_eq!(fx_sqrt(250_000_000), 500_000_000);
    assert_eq!(fx_sqrt(0), 0);
    assert_eq!(fx_sqrt(-9_000_000_000), 0);
    assert_eq!(fx_sqrt(1), 31_622);
    assert_eq!(fx_sqrt(LIMIT), 96_038_388_349_944);
}

#[test]
fn sine_and_cosine_at_the_quarter_turns() {
    assert_eq!(sin_cos_turns(0), (0, SCALE));
    assert_eq!(sin_cos_turns(QUARTER), (SCALE, 0));
    assert_eq!(sin_cos_turns(2 * QUARTER), (0, -SCALE));
    assert_eq!(sin_cos_turns(3 * QUARTER), (-SCALE, 0));
    assert_eq!(sin_cos_turns(SCALE), (0, SCALE));
    assert_eq!(sin_cos_turns(-SCALE), (0, SCALE));
    assert_eq!(sin_cos_turns(-QUARTER), (-SCALE, 0));
    assert_eq!(sin_cos_turns(7 * SCALE + QUARTER), (SCALE, 0));
}

#[test]
fn sine_and_cosine_at_an_eighth_turn() {
    let (s, c) = sin_cos_turns(OCTANT);
    assert!((s - 707_106_781).abs() <= 5, "sine {}", s);
    assert!((c - 707_106_781).abs() <= 5, "cosine {}", c);
    let (s, c) = sin_cos_turns(3 * OCTANT);
    assert!((s - 707_106_781).abs() <= 5);
    assert!((c + 707_106_781).abs() <= 5);
}

#[test]
fn sine_and_cosine_follow_the_real_ones() {
    let mut turns: i64 = -3_000_000_000;
    while turns <= 3_000_000_000 {
        let (s, c) = sin_cos_turns(turns);
        let angle = to_float(turns) * std::f64::consts::TAU;
        assert!((to_float(s) - angle.sin()).abs() < 1e-8, "sine at {} turns: {}", turns, s);
        assert!((to_float(c) - angle.cos()).abs() < 1e-8, "cosine at {} turns: {}", turns, c);
        assert!(is_unit((s, c, 0, 0)));
        turns += 1_237_421;
    }
}

#[test]
fn sine_and_cosine_of_radians() {
    let (s, c) = sin_cos(0);
    assert_eq!((s, c), (0, SCALE));
    let (s, c) = sin_cos(1_000_000_000);
    assert!((to_float(s) - 1f64.sin()).abs() < 2e-8);
    assert!((to_float(c) - 1f64.cos()).abs() < 2e-8);
    let (s, c) = sin_cos(-2_500_000_000);
    assert!((to_float(s) - (-2.5f64).sin()).abs() < 2e-8);
    assert!((to_float(c) - (-2.5f64).cos()).abs() < 2e-8);
    let (s, c) = sin_cos(TWO_PI / 4);
    assert!((s - SCALE).abs() <= 1);
    assert!(c.abs() <= 10);
    let (s, c) = sin_cos(160_000);
    assert!((s - 160_000).abs() <= 7, "sine of a small angle: {}", s);
    assert!((c - 999_999_987).abs() <= 2, "cosine of a small angle: {}", c);
}

#[test]
fn arc_cosine_inverts_the_cosine() {
    assert_eq!(acos_turns(SCALE), 0);
    assert_eq!(acos_turns(0), QUARTER);
    assert_eq!(acos_turns(-5), QUARTER);
    assert_eq!(acos_turns(2 * SCALE), 0);
    let mut d: i64 = 0;
    while d <= 999_500_000 {
        let turns = acos_turns(d);
        assert!(0 <= turns && turns <= QUARTER);
        let angle = to_float(turns) * std::f64::consts::TAU;
        assert!((angle - to_float(d).acos()).abs() < 1e-6, "arc cosine of {}: {}", d, turns);
        let (_, c) = sin_cos_turns(turns);
        assert!(c >= d);
        d += 9_973_331;
    }
}

#[test]
fn normalising_gives_unit_length() {
    assert_eq!(normalize4(0, 0, 0, 0), None);
    assert_eq!(normalize4(0, 5, 0, 0), Some((0, SCALE, 0, 0)));
    assert_eq!(normalize4(0, 0, -1, 0), Some((0, 0, -SCALE, 0)));
    assert_eq!(normalize4(3_000_000, 4_000_000, 0, 0), Some((600_000_000, 800_000_000, 0, 0)));
    assert_eq!(normalize4(LIMIT, 0, 0, 0), Some((SCALE, 0, 0, 0)));
    assert_eq!(normalize4(i64::MIN, 0, 0, 0), Some((-SCALE, 0, 0, 0)));
    let cases: [(i64, i64, i64, i64); 8] = [
        (1, 1, 1, 1),
        (1, -2, 3, -4),
        (123_456, -654_321, 7, 1_000_000),
        (LIMIT, LIMIT, LIMIT, LIMIT),
        (i64::MIN, i64::MIN, i64::MIN, i64::MIN),
        (0x1_0000_0000, 1, 0, 0),
        (0xffff_ffff, 0xffff_ffff, 0xffff_ffff, 0xffff_ffff),
        (-5_000_000_000_000, 3, 9_000_000_000_000_000, 12),
    ];
    for case in cases {
        let unit = normalize4(case.0, case.1, case.2, case.3).unwrap();
        assert!(is_unit(unit), "{:?} gave {:?}", case, unit);
    }
}
