use belcanto::fixed::ONE;
use belcanto::glottis::{
    create_aspiration_buffer, hanning, hanning_modulation, noise_residual, phase, Glottis,
    ASPIRATION_SLOTS,
};
use belcanto::noise::{gaussian_from, gaussian_noise, unit_noise, white_noise};
use belcanto::pulse::liljencrants_fant;
use belcanto::timing::lf_timing;

fn glottis_with(noise: i64, tenseness: i64) -> Glottis {
    let mut glottis = Glottis::new();
    glottis.aspiration_buffer = vec![noise; ASPIRATION_SLOTS];
    glottis.set_tenseness(tenseness);
    glottis
}

#[test]
fn a_new_glottis_has_its_defaults() {
    let glottis = Glottis::new();
    assert_eq!(glottis.frequency, 440_000_000);
    assert_eq!(glottis.vibrato.frequency, 7_000_000);
    assert_eq!(glottis.vibrato.amplitude, 250_000);
    assert_eq!(glottis.intensity, 500_000);
    assert_eq!(glottis.loudness, 500_000);
    assert_eq!(glottis.tenseness, 0);
    assert_eq!(glottis.aspiration_index, 0);
    assert_eq!(glottis.aspiration_buffer.len(), 128);
    assert!(glottis.aspiration_buffer.iter().all(|x| 0 <= *x && *x < ONE));
    assert_eq!(glottis.waveform, liljencrants_fant(0));
    assert_eq!(glottis.waveform.unwrap().timing, lf_timing(0));
}

#[test]
fn timing_of_a_lax_voice() {
    let timing = lf_timing(0);
    assert_eq!(timing.rd, 2_700_000);
    assert_eq!(timing.ra, 119_600);
    assert_eq!(timing.rk, 542_600);
    assert_eq!(timing.rg, 980_053);
    assert_eq!(timing.ta, 119_600);
    assert_eq!(timing.tp, 510_176);
    assert_eq!(timing.te, 786_997);
    assert_eq!(timing.epsilon, 8_361_204);
}

#[test]
fn timing_of_a_tense_voice() {
    let timing = lf_timing(ONE);
    assert_eq!(timing.rd, 500_000);
    assert_eq!(timing.ra, 14_000);
    assert_eq!(timing.rk, 283_000);
    assert_eq!(timing.rg, 1_373_560);
    assert_eq!(timing.ta, 14_000);
    assert_eq!(timing.tp, 364_017);
    assert_eq!(timing.te, 467_033);
    assert_eq!(timing.epsilon, 71_428_571);
}

#[test]
fn timing_in_between() {
    let timing = lf_timing(500_000);
    assert_eq!(timing.rd, 1_600_000);
    assert_eq!(timing.ra, 66_800);
    assert_eq!(timing.rk, 412_800);
    assert_eq!(timing.rg, 938_005);
    assert_eq!(timing.tp, 533_046);
    assert_eq!(timing.te, 753_087);
    assert_eq!(timing.epsilon, 14_970_059);
}

#[test]
fn the_excitation_instant_lies_within_the_cycle() {
    let mut tenseness = 0;
    while tenseness <= ONE {
        let timing = lf_timing(tenseness);
        assert!(0 < timing.tp && timing.tp < timing.te && timing.te < ONE);
        tenseness += 1_000;
    }
}

#[test]
fn pre_block_derives_the_pulse_anew() {
    let mut glottis = Glottis::new();
    glottis.set_tenseness(ONE);
    assert_eq!(glottis.waveform, liljencrants_fant(0));
    glottis.pre_block();
    assert_eq!(glottis.waveform, liljencrants_fant(ONE));
    assert_eq!(glottis.waveform.unwrap().timing, lf_timing(ONE));
}

#[test]
fn tenseness_is_kept_within_zero_and_one() {
    let mut glottis = Glottis::new();
    glottis.set_tenseness(-5);
    assert_eq!(glottis.tenseness, 0);
    glottis.set_tenseness(3 * ONE);
    assert_eq!(glottis.tenseness, ONE);
    glottis.set_tenseness(640_000);
    assert_eq!(glottis.tenseness, 640_000);
}

#[test]
fn hanning_window() {
    assert_eq!(hanning(0), 0);
    assert_eq!(hanning(125_000), 146_446);
    assert_eq!(hanning(250_000), 500_000);
    assert_eq!(hanning(500_000), ONE);
    assert_eq!(hanning(750_000), 500_000);
    assert_eq!(hanning(-500_000), ONE);
    assert_eq!(hanning_modulation(0, 150_000, 200_000), 150_000);
    assert_eq!(hanning_modulation(250_000, 150_000, 200_000), 250_000);
    assert_eq!(hanning_modulation(500_000, 150_000, 200_000), 350_000);
}

#[test]
fn aspiration_follows_the_formula() {
    assert_eq!(noise_residual(800_000, 0, 350_000, ONE), 280_000);
    assert_eq!(noise_residual(800_000, 400_000, 250_000, 490_000), 154_000);
    assert_eq!(noise_residual(-800_000, 0, 350_000, 250_000), -140_000);
}

#[test]
fn no_tenseness_no_aspiration() {
    for noise in [-ONE, -1, 0, 1, 123_456, ONE] {
        for t in [0, 250_000, 333_333, 500_000, 999_999] {
            let modulation = hanning_modulation(t, 150_000, 200_000);
            for jitter in [-ONE, 0, ONE] {
                assert_eq!(noise_residual(noise, jitter, modulation, 0), 0);
            }
        }
    }
    let mut glottis = glottis_with(800_000, 0);
    assert_eq!(glottis.mix(0, 1_000_000), 250_000);
    assert_eq!(glottis.mix(1_234_567, 1_000_000), 250_000);
}

#[test]
fn a_sample_is_pulse_and_aspiration_scaled() {
    let mut glottis = glottis_with(800_000, 640_000);
    assert_eq!(glottis.mix(0, 1_000_000), 274_000);
    let mut glottis = glottis_with(600_000, ONE);
    assert_eq!(glottis.mix(2_500, -300_000), -49_631);
    let mut glottis = glottis_with(900_000, 250_000);
    assert_eq!(glottis.mix(1_234_567, 500_000), 142_084);
}

#[test]
fn a_tick_takes_the_pulse_at_the_phase_of_its_time() {
    let mut glottis = Glottis::new();
    let times = [0, 500, 1_000, 1_500, 2_000, 2_272, 1_234_567];
    let samples = [0, 157_098, 80_202, -181_832, -87_447, -111, -14_849];
    for (time, sample) in times.iter().zip(samples.iter()) {
        let pulse = glottis.waveform.unwrap().pulse(glottis.phase(*time));
        assert_eq!(glottis.tick(*time), Some(*sample));
        // a quarter of the pulse: intensity and loudness are one half each
        assert_eq!(*sample, pulse / 4);
    }
    assert_eq!(glottis.aspiration_index, 7);
}

#[test]
fn a_tick_adds_aspiration_to_a_tense_voice() {
    let mut glottis = glottis_with(800_000, 640_000);
    // the pulse is still that of the tenseness at which the block began
    assert_eq!(glottis.tick(500), Some(194_100));
    glottis.pre_block();
    let times = [0, 500, 1_000, 1_500, 2_000];
    let samples = [24_000, 138_659, 126_943, -138_172, 19_468];
    for (time, sample) in times.iter().zip(samples.iter()) {
        assert_eq!(glottis.tick(*time), Some(*sample));
    }
}

#[test]
fn without_a_pulse_a_tick_gives_nothing() {
    let mut glottis = Glottis::new();
    glottis.waveform = None;
    assert_eq!(glottis.tick(1_000), None);
    assert_eq!(glottis.aspiration_index, 0);
}

#[test]
fn the_ring_wraps_around() {
    let mut glottis = Glottis::new();
    let mut ring = Vec::new();
    for slot in 0..128 {
        ring.push(slot * 1_000);
    }
    glottis.aspiration_buffer = ring;
    glottis.set_tenseness(ONE);
    glottis.intensity = ONE;
    glottis.loudness = ONE;
    // half a cycle after one second, where the window is fully open
    glottis.set_frequency(500_000);
    glottis.vibrato.amplitude = 0;
    for tick in 0..300 {
        assert_eq!(glottis.aspiration_index, tick % 128);
        let sample = glottis.mix(1_000_000, 0);
        // modulation 0.35 of the slot's noise
        assert_eq!(sample, ((tick % 128) as i64) * 350);
    }
    assert_eq!(glottis.aspiration_index, 300 % 128);
}

#[test]
fn phase_is_the_fraction_of_the_cycles() {
    assert_eq!(phase(1_000_000, 440_000_000, 0), 0);
    assert_eq!(phase(2_500, 440_000_000, 0), 100_000);
    assert_eq!(phase(1_234_567, 440_000_000, 250_000), 518_121);
    assert_eq!(phase(-2_500, 440_000_000, 0), 900_000);
}

#[test]
fn vibrato_follows_the_sine() {
    let glottis = Glottis::new();
    assert_eq!(glottis.vibrato(0), 0);
    // a quarter and three quarters of the vibrato's period of a seventh of a second
    assert_eq!(glottis.vibrato(35_714), 250_000);
    assert_eq!(glottis.vibrato(107_143), -250_000);
    assert_eq!(glottis.vibrato(10_000), 106_445);
    assert_eq!(glottis.vibrato(1_000_000), 0);
}

#[test]
fn the_vibrato_moves_the_phase() {
    let glottis = Glottis::new();
    assert_eq!(glottis.phase(0), 0);
    assert_eq!(glottis.phase(2_500), 100_068);
    assert_eq!(glottis.phase(35_714), 723_088);
    assert_eq!(glottis.phase(1_234_567), 969_251);
}

#[test]
fn frequency_can_be_set() {
    let mut glottis = Glottis::new();
    glottis.set_frequency(220_000_000);
    assert_eq!(glottis.frequency, 220_000_000);
}

#[test]
fn random_bits_become_a_fraction() {
    assert_eq!(unit_noise(0), 0);
    assert_eq!(unit_noise(u64::MAX), 999_999);
    assert_eq!(unit_noise(1 << 63), 500_000);
    assert_eq!(unit_noise(1 << 62), 250_000);
    assert_eq!(unit_noise(12_345_678_901_234_567_890), 669_260);
}

#[test]
fn white_noise_is_a_fraction() {
    let mut distinct = std::collections::HashSet::new();
    for _ in 0..1_000 {
        let x = white_noise();
        assert!(0 <= x && x < ONE);
        distinct.insert(x);
    }
    assert!(distinct.len() > 1);
    let buffer = create_aspiration_buffer();
    assert_eq!(buffer.len(), 128);
    assert!(buffer.iter().all(|x| 0 <= *x && *x < ONE));
}

#[test]
fn bell_shaped_noise() {
    assert_eq!(gaussian_from(0), -2_000_000);
    assert_eq!(gaussian_from(8_000_000), 0);
    assert_eq!(gaussian_from(16_000_000), 2_000_000);
    assert_eq!(gaussian_from(9_000_002), 250_000);
    assert_eq!(gaussian_from(6_999_999), -250_000);
    for _ in 0..200 {
        let x = gaussian_noise();
        assert!(-2 * ONE <= x && x <= 2 * ONE);
    }
}
