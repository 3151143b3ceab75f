use belcanto::fixed::ONE;
use belcanto::trig::{cosine, sine, turn};

#[test]
fn cosine_at_the_quarters_of_a_turn() {
    assert_eq!(cosine(0), ONE);
    assert_eq!(cosine(500_000), -ONE);
    assert_eq!(cosine(ONE), ONE);
    // a millionth off at the zero crossings
    assert_eq!(cosine(250_000), -1);
    assert_eq!(cosine(750_000), -1);
}

#[test]
fn cosine_and_sine_follow_the_series() {
    assert_eq!(cosine(125_000), 707_107);
    assert_eq!(cosine(333_333), -500_000);
    assert_eq!(cosine(100_000), 809_018);
    assert_eq!(cosine(-100_000), 809_018);
    assert_eq!(cosine(1_600_000), -809_018);
    assert_eq!(sine(100_000), 587_786);
    assert_eq!(sine(-100_000), -587_786);
    assert_eq!(sine(125_000), 707_107);
    assert_eq!(sine(250_000), ONE);
    assert_eq!(sine(750_000), -ONE);
}

#[test]
fn cosine_and_sine_are_close_to_the_real_ones() {
    let mut t = -2 * ONE;
    while t < 2 * ONE {
        let angle = 2.0 * std::f64::consts::PI * (t as f64) / (ONE as f64);
        let c = cosine(t);
        let s = sine(t);
        assert!(-ONE <= c && c <= ONE);
        assert!(-ONE <= s && s <= ONE);
        assert!(((c as f64) - angle.cos() * (ONE as f64)).abs() < 4.0);
        assert!(((s as f64) - angle.sin() * (ONE as f64)).abs() < 4.0);
        t += 997;
    }
}

#[test]
fn an_angle_within_its_turn() {
    assert_eq!(turn(0), 0);
    assert_eq!(turn(1_250_000), 250_000);
    assert_eq!(turn(-250_000), 750_000);
    assert_eq!(turn(-3_000_000), 0);
    assert_eq!(turn(i64::MIN), 224_192);
    assert_eq!(turn(i64::MAX), 775_807);
}
