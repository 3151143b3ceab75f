use belcanto::fixed::{clip, quotient, scaled, sqrt, times, AMPLITUDE_MAX, ONE};
use belcanto::geometry::{circle_area, ease, kelly_lochbaum, min, AREA_MAX, DIAMETER_MAX};
use belcanto::power::{exp2, exp2_fraction, power_of_two};
use belcanto::velum::{port_coefficient, Velum};

#[test]
fn circle_area_of_zero_is_zero() {
    assert_eq!(circle_area(0), 0);
}

#[test]
fn circle_area_follows_the_formula() {
    assert_eq!(circle_area(1_000_000), 785_398);
    assert_eq!(circle_area(3_000_000), 7_068_584);
    assert_eq!(circle_area(40_000), 1_256);
    assert_eq!(circle_area(500_010), 196_357);
    assert_eq!(circle_area(-3_000_000), 7_068_584);
    assert_eq!(circle_area(DIAMETER_MAX), AREA_MAX);
}

#[test]
fn circle_area_grows_with_the_diameter() {
    let mut last = 0;
    let mut d = 0;
    while d <= 5_000_000 {
        let area = circle_area(d);
        assert!(area >= last);
        last = area;
        d += 12_345;
    }
    assert!(circle_area(2_000_000) > circle_area(1_000_000));
}

#[test]
fn reflection_follows_the_formula() {
    assert_eq!(kelly_lochbaum(1_000_000, 3_000_000), -500_000);
    assert_eq!(kelly_lochbaum(3_000_000, 1_000_000), 500_000);
    assert_eq!(kelly_lochbaum(5, 5), 0);
    assert_eq!(kelly_lochbaum(-1_000_000, 3_000_000), -2_000_000);
    assert_eq!(kelly_lochbaum(0, 7), -ONE);
    assert_eq!(kelly_lochbaum(7, 0), ONE);
}

#[test]
fn reflection_between_positive_areas_is_within_unit() {
    let areas = [1, 2, 1_256, 196_357, 785_398, 7_068_584, AREA_MAX];
    for a1 in areas {
        for a2 in areas {
            let k = kelly_lochbaum(a1, a2);
            assert!(-ONE < k && k < ONE);
        }
    }
}

#[test]
fn ease_follows_the_curve() {
    assert_eq!(ease(0), 0);
    assert_eq!(ease(100_000), 1_953);
    assert_eq!(ease(500_000), 31_250);
    assert_eq!(ease(900_000), 500_000);
    assert_eq!(ease(ONE), ONE);
    assert_eq!(ease(-3 * ONE), 0);
}

#[test]
fn powers_of_two() {
    assert_eq!(exp2(0), ONE);
    assert_eq!(exp2(-1_000_000), 500_000);
    assert_eq!(exp2(500_000), 1_414_213);
    assert_eq!(exp2(1_000_000), 2_000_000);
    assert_eq!(exp2(83_333), 1_059_462);
    assert_eq!(exp2(-5_750_000), 18_581);
    assert_eq!(exp2(-40_000_000), 0);
    assert_eq!(exp2_fraction(0), ONE);
    assert_eq!(exp2_fraction(500_000), 1_414_213);
    assert_eq!(power_of_two(0), 1);
    assert_eq!(power_of_two(21), 2_097_152);
}

#[test]
fn smaller_of_two() {
    assert_eq!(min(1, 2), 1);
    assert_eq!(min(2, 1), 1);
    assert_eq!(min(-3, -3), -3);
}

#[test]
fn fixed_point_products_round_toward_zero() {
    assert_eq!(times(1_500_000, 1_500_000), 2_250_000);
    assert_eq!(times(3, 333_333), 0);
    assert_eq!(times(-3, 333_334), -1);
    assert_eq!(times(-1_999_999, 1), -1);
    assert_eq!(scaled(-850_000, 995_600), -846_260);
    assert_eq!(scaled(999_900, 1_000_000), 999_900);
    assert_eq!(quotient(1_000_000, 3_000_000), 333_333);
    assert_eq!(quotient(-1_000_000, 3_000_000), -333_333);
}

#[test]
fn clipping_limits_the_amplitude() {
    assert_eq!(clip(5), 5);
    assert_eq!(clip(5_000_000_000_000), AMPLITUDE_MAX);
    assert_eq!(clip(-5_000_000_000_000), -AMPLITUDE_MAX);
}

#[test]
fn square_roots_round_down() {
    assert_eq!(sqrt(0), 0);
    assert_eq!(sqrt(1), 1_000);
    assert_eq!(sqrt(250_000), 500_000);
    assert_eq!(sqrt(500_000), 707_106);
    assert_eq!(sqrt(ONE), ONE);
    assert_eq!(sqrt(2 * ONE), 1_414_213);
    assert_eq!(sqrt(4 * ONE), 2 * ONE);
}

#[test]
fn port_coefficients_follow_the_formula() {
    assert_eq!(port_coefficient(7_068_584, 2 * 7_068_584 + 1_256), -88);
    assert_eq!(port_coefficient(1_256, 2 * 7_068_584 + 1_256), -999_822);
    assert_eq!(port_coefficient(0, 10), -ONE);
    assert_eq!(port_coefficient(10, 10), ONE);
    assert_eq!(port_coefficient(1, 3), -333_333);
}

#[test]
fn a_new_velum_reflects_nothing() {
    let velum = Velum::new(40_000, 100_000);
    assert_eq!(velum.k_left, 0);
    assert_eq!(velum.k_right, 0);
    assert_eq!(velum.k_nose, 0);
    assert_eq!(velum.target_diameter, 40_000);
    assert_eq!(velum.max_diameter, 100_000);
}
