use belcanto::fixed::ONE;
use belcanto::power::{exp, ln};
use belcanto::pulse::{lf_waveform, liljencrants_fant};
use belcanto::timing::lf_timing;

#[test]
fn test_liljencrants_fant() {
    let lf = liljencrants_fant(0).unwrap();

    assert_eq!(lf.pulse(0), 0);
}

#[test]
fn exponential_and_logarithm() {
    assert_eq!(exp(0), ONE);
    assert_eq!(exp(ONE), 2_718_280);
    assert_eq!(exp(-ONE), 367_879);
    assert_eq!(exp(500_000), 1_648_719);
    assert_eq!(exp(13_000_000), 442_412_826_624);
    assert_eq!(exp(-15_000_000), 0);
    assert_eq!(exp(i64::MIN), 0);
    assert_eq!(exp(-1), 999_995);
    assert_eq!(ln(1), -13_122_365);
    assert_eq!(ln(ONE), 1);
    assert_eq!(ln(2_718_282), 1_000_001);
    assert_eq!(ln(500_000), -693_146);
    assert_eq!(ln(400_000_000_000), 12_899_221);
}

#[test]
fn constants_of_a_lax_voice() {
    let lf = liljencrants_fant(0).unwrap();
    assert_eq!(lf.timing, lf_timing(0));
    assert_eq!(lf.shift, 168_476);
    assert_eq!(lf.delta, 831_524);
    assert_eq!(lf.alpha, 793_742);
    assert_eq!(lf.e0, 540_268);
}

#[test]
fn constants_of_a_tense_voice() {
    let lf = liljencrants_fant(ONE).unwrap();
    assert_eq!(lf.shift, 0);
    assert_eq!(lf.delta, ONE);
    assert_eq!(lf.alpha, 5_320_357);
    assert_eq!(lf.e0, 107_335);
    let lf = lf_waveform(lf_timing(600_000)).unwrap();
    assert_eq!(lf.shift, 7_601);
    assert_eq!(lf.delta, 992_399);
    assert_eq!(lf.alpha, 1_783_161);
    assert_eq!(lf.e0, 292_510);
}

#[test]
fn the_pulse_rises_falls_and_returns() {
    let phases = [0, 100_000, 300_000, 500_000, 786_997, 786_998, 900_000, ONE];
    let lax = liljencrants_fant(0).unwrap();
    let expected = [0, 337_837, 659_477, 50_320, -999_999, -999_986, -264_893, 0];
    for (t, e) in phases.iter().zip(expected.iter()) {
        assert_eq!(lax.pulse(*t), *e);
    }
    let tense = liljencrants_fant(ONE).unwrap();
    let phases = [0, 100_000, 300_000, 467_033, 467_034, 500_000, 900_000, ONE];
    let expected = [0, 138_838, 277_922, -999_994, -999_926, -94_913, 0, 0];
    for (t, e) in phases.iter().zip(expected.iter()) {
        assert_eq!(tense.pulse(*t), *e);
    }
}

#[test]
fn the_two_phases_meet_at_the_excitation_instant() {
    let mut tenseness = 0;
    while tenseness <= ONE {
        let lf = liljencrants_fant(tenseness).unwrap();
        let te = lf.timing.te;
        let before = lf.pulse(te);
        let after = lf.pulse(te + 1);
        assert!((before + ONE).abs() <= 12);
        assert!((after - before).abs() <= 100);
        tenseness += 10_000;
    }
}

#[test]
fn every_tenseness_gives_a_pulse() {
    let mut tenseness = 0;
    while tenseness <= ONE {
        assert!(liljencrants_fant(tenseness).is_some());
        tenseness += 500;
    }
}

#[test]
fn the_pulse_is_close_to_the_real_one() {
    let tenseness: f64 = 0.6;
    let rd = 0.5 + 2.2 * (1.0 - tenseness);
    let ra = -0.01 + 0.048 * rd;
    let rk = 0.224 + 0.118 * rd;
    let rg = (rk / 4.0) * (0.5 + 1.2 * rk) / (0.11 * rd - ra * (0.5 + 1.2 * rk));
    let tp = 1.0 / (2.0 * rg);
    let te = tp + tp * rk;
    let epsilon = 1.0 / ra;
    let shift = (-epsilon * (1.0 - te)).exp();
    let delta = 1.0 - shift;
    let rhs_integral = ((1.0 / epsilon) * (shift - 1.0) + (1.0 - te) * shift) / delta;
    let total_upper_integral = (te - tp) / 2.0 - rhs_integral;
    let omega = std::f64::consts::PI / tp;
    let sine = (omega * te).sin();
    let y = -std::f64::consts::PI * sine * total_upper_integral / (tp * 2.0);
    let alpha = y.ln() / (tp / 2.0 - te);
    let e0 = -1.0 / (sine * (alpha * te).exp());
    let lf = liljencrants_fant(600_000).unwrap();
    let mut t = 0;
    while t < ONE {
        let x = t as f64 / ONE as f64;
        let real = if x > te {
            (-((-epsilon * (x - te)).exp()) + shift) / delta
        } else {
            e0 * (alpha * x).exp() * (omega * x).sin()
        };
        let fixed = lf.pulse(t) as f64 / ONE as f64;
        assert!((fixed - real).abs() < 0.001);
        t += 1_009;
    }
}
