use belcanto::fixed::{clip, ONE};
use belcanto::glottis::Glottis;
use belcanto::tract::Tract;
use belcanto::voice::Voice;

#[test]
fn a_new_voice_is_ready_and_at_rest() {
    let voice = Voice::new();
    assert!(voice.tract.is_ready());
    assert_eq!(voice.tract.oral.right, vec![0; 44]);
    assert_eq!(voice.glottis.frequency, 440_000_000);
    assert!(voice.glottis.waveform.is_some());
}

#[test]
fn a_voice_without_intensity_is_silent() {
    let mut voice = Voice::new();
    voice.glottis.intensity = 0;
    for n in 0..200 {
        assert_eq!(voice.tick(n * 23), Some(0));
    }
    assert_eq!(voice.glottis.aspiration_index, 200 % 128);
}

#[test]
fn a_voice_without_a_pulse_gives_nothing() {
    let mut voice = Voice::new();
    voice.glottis.waveform = None;
    assert_eq!(voice.tick(0), None);
    assert_eq!(voice.glottis.aspiration_index, 0);
    assert_eq!(voice.tract.oral.right, vec![0; 44]);
}

#[test]
fn a_voice_filters_what_its_glottis_gives() {
    let mut voice = Voice::new();
    let mut glottis = Glottis::new();
    let mut tract = Tract::new();
    tract.init();
    for n in 0..60 {
        let source = glottis.tick(n * 23).unwrap();
        assert_eq!(voice.tick(n * 23), Some(tract.process(clip(source as i128), 0)));
    }
}

#[test]
fn the_first_samples_of_a_voice() {
    let mut voice = Voice::new();
    let mut samples = Vec::new();
    for n in 0..30 {
        samples.push(voice.tick(n * 23).unwrap());
    }
    assert_eq!(samples[..22], [0; 22]);
    assert_eq!(
        samples[22..],
        [21_424, 40_498, 58_534, 75_986, 92_726, 108_010, 120_488, 128_369]
    );
}

#[test]
fn the_frequency_of_a_voice_can_be_set() {
    let mut voice = Voice::new();
    voice.set_frequency(330_000_000);
    assert_eq!(voice.glottis.frequency, 330_000_000);
}

#[test]
fn pre_block_follows_the_tenseness() {
    let mut voice = Voice::new();
    voice.glottis.set_tenseness(ONE);
    voice.pre_block();
    assert_eq!(voice.glottis.waveform.unwrap().alpha, 5_320_357);
}
