use belcanto::note::{midi_pitch_to_freq, midi_to_freq, note_to_freq, A4};

#[test]
fn test_midi_pitch_to_freq() {
    for i in 0..127 {
        // expect no panics
        midi_pitch_to_freq(i);
    }
}

#[test]
fn concert_pitch_is_exact() {
    assert_eq!(midi_pitch_to_freq(69), A4);
    assert_eq!(midi_to_freq(69), 440_000_000);
    assert_eq!(note_to_freq(9, 4), 440_000_000);
}

#[test]
fn an_octave_doubles_the_frequency() {
    assert_eq!(midi_pitch_to_freq(81), 880_000_000);
    assert_eq!(midi_pitch_to_freq(57), 220_000_000);
    assert_eq!(midi_pitch_to_freq(45), 110_000_000);
}
