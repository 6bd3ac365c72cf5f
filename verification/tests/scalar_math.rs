use third_person_controller::angle::{cos_fx, sin_fx, wrap_wide, HALF_PI_FX, PI_FX, TAU_FX};
use third_person_controller::fx::{fx_add, fx_clamp, fx_mul, fx_sub, isqrt, LIM, SCALE};
use third_person_controller::vec3::{v3_dot, v3_speed, V3};

#[test]
fn fixed_point_products_are_exact() {
    // 1.5 * 2.0 == 3.0
    assert_eq!(fx_mul(1_500_000, 2_000_000), 3_000_000);
    // 0.001 * 100.0 == 0.1
    assert_eq!(fx_mul(1_000, 100_000_000), 100_000);
    assert_eq!(fx_mul(0, 123_456), 0);
}

#[test]
fn fixed_point_product_truncates_toward_zero() {
    // -1.5 * 0.000333 = -0.0004995, truncated toward zero to -0.000499
    assert_eq!(fx_mul(-1_500_000, 333), -499);
    assert_eq!(fx_mul(1_500_000, 333), 499);
}

#[test]
fn sums_saturate_at_the_storage_bound() {
    assert_eq!(fx_add(LIM, LIM), LIM);
    assert_eq!(fx_sub(-LIM, LIM), -LIM);
    assert_eq!(fx_add(1, 2), 3);
}

#[test]
fn clamp_picks_the_nearer_bound() {
    assert_eq!(fx_clamp(5, 0, 10), 5);
    assert_eq!(fx_clamp(-5, 0, 10), 0);
    assert_eq!(fx_clamp(15, 0, 10), 10);
}

#[test]
fn integer_square_root_is_the_floor_root() {
    assert_eq!(isqrt(0), 0);
    assert_eq!(isqrt(24), 4);
    assert_eq!(isqrt(25), 5);
    assert_eq!(isqrt(26), 5);
    assert_eq!(isqrt(1_000_000_000_000), 1_000_000);
}

#[test]
fn vector_speed_of_a_pythagorean_triple_is_exact() {
    let v = V3 { x: 3_000_000, y: 4_000_000, z: 0 };
    assert_eq!(v3_speed(&v), 5_000_000);
    assert_eq!(v3_speed(&V3 { x: 0, y: 0, z: 0 }), 0);
}

#[test]
fn dot_product_projects_exactly() {
    let v = V3 { x: 0, y: 0, z: 2_500_000 };
    let unit_z = V3 { x: 0, y: 0, z: SCALE };
    assert_eq!(v3_dot(&v, &unit_z), 2_500_000);
}

#[test]
fn wrapping_handles_whole_extra_turns_and_negatives() {
    assert_eq!(wrap_wide(0), 0);
    assert_eq!(wrap_wide(TAU_FX as i128), 0);
    assert_eq!(wrap_wide(-1_000_000), TAU_FX - 1_000_000);
    // one hundred radians is fifteen whole turns and a remainder
    assert_eq!(wrap_wide(100_000_000), 100_000_000i64 - 15 * TAU_FX);
}

#[test]
fn sine_and_cosine_are_exact_at_quarter_turns() {
    assert_eq!(sin_fx(0), 0);
    assert_eq!(sin_fx(HALF_PI_FX), SCALE);
    assert_eq!(sin_fx(PI_FX), 0);
    assert_eq!(sin_fx(-HALF_PI_FX), -SCALE);
    assert_eq!(cos_fx(0), SCALE);
    assert_eq!(cos_fx(HALF_PI_FX), 0);
    assert_eq!(cos_fx(PI_FX), -SCALE);
}

#[test]
fn sine_stays_close_between_the_exact_points() {
    // Bhaskara's arc at an eighth turn: within a fifth of a percent of
    // sqrt(2)/2.
    let s = sin_fx(785_398);
    assert!(s > 700_000 && s < 714_000, "sin at eighth turn was {s}");
    for a in (-20_000_000..20_000_000).step_by(137_123) {
        let s = sin_fx(a);
        let c = cos_fx(a);
        assert!(-SCALE <= s && s <= SCALE);
        assert!(-SCALE <= c && c <= SCALE);
    }
}
