//! Equal-tempered pitch: the frequency of a note.
use vstd::prelude::*;
use crate::fixed::{fx_mul, lemma_fx_mul_bound, magnitude, times, trunc_div, ONE};
use crate::power::{exp2, lemma_exp2_of_negative, spec_exp2};

verus! {

/// Standard tuning for the note A4: 440 Hz.
pub const A4: i64 = 440_000_000;

/// The highest number of semitones above A4 whose frequency is computed.
pub const SEMITONES_MAX: i64 = 240;

/// The frequency of the pitch that lies `semitones` above A4: each twelve
/// semitones double it.
pub open spec fn spec_pitch(semitones: int) -> int {
    fx_mul(A4 as int, spec_exp2(trunc_div(semitones * ONE, 12)))
}

/// The frequency of the note with the given chromatic index and octave.
pub open spec fn spec_note_to_freq(chroma: int, octave: int) -> int {
    spec_pitch(octave * 12 + chroma - 9 - 48)
}

/// A musical pitch composed of chromatic index and octave.
#[derive(Clone, Copy, Debug)]
pub struct Note {
    /// The chromatic index within the octave.
    pub chroma: usize,
    /// The note's octave.
    pub octave: usize,
}

/// Returns the frequency of the pitch that lies `semitones` above A4.
pub fn pitch(semitones: i64) -> (f: i64)
    requires
        -1_000_000_000 <= semitones <= SEMITONES_MAX,
    ensures
        f == spec_pitch(semitones as int),
        semitones == 0 ==> f == A4,
        0 <= f,
{
    let exponent: i64 = (semitones * ONE) / 12;
    let power: i64 = exp2(exponent);
    proof {
        lemma_fx_mul_bound(A4 as int, power as int, A4 as int, 0x200000 * ONE);
        let q = magnitude(fx_mul(A4 as int, power as int));
        assert(q <= A4 * 0x200000) by (nonlinear_arith)
            requires
                q * ONE <= A4 * (0x200000 * ONE),
        ;
        crate::fixed::lemma_trunc_div_bounds(A4 * power, ONE as int);
        assert(A4 * power >= 0) by (nonlinear_arith)
            requires
                power >= 0,
                A4 >= 0,
        ;
        if semitones == 0 {
            lemma_exp2_of_negative(0);
            assert(A4 * ONE == 440_000_000_000_000int);
        }
    }
    let wide: i128 = times(A4, power);
    wide as i64
}

/// Calculates the frequency from the chromatic index and the octave.
pub fn note_to_freq(chroma: usize, octave: usize) -> (f: i64)
    requires
        octave * 12 + chroma <= 57 + SEMITONES_MAX,
    ensures
        f == spec_note_to_freq(chroma as int, octave as int),
        chroma == 9 && octave == 4 ==> f == A4,
{
    let semitones_from_a4: i64 = (octave as i64) * 12 + (chroma as i64) - 9 - 48;
    pitch(semitones_from_a4)
}

/// Calculates the frequency (equal-tempered) given the MIDI note value, from
/// the first octave upward.
pub fn midi_to_freq(midi_pitch: usize) -> (f: i64)
    requires
        12 <= midi_pitch <= 69 + SEMITONES_MAX,
    ensures
        f == spec_pitch(midi_pitch - 69),
        midi_pitch == 69 ==> f == A4,
{
    let chroma: usize = midi_pitch % 12;
    let octave: usize = (midi_pitch / 12) - 1;
    note_to_freq(chroma, octave)
}

/// Calculates the frequency (equal-tempered) of any MIDI note.
pub fn midi_pitch_to_freq(midi_pitch: u8) -> (f: i64)
    ensures
        f == spec_pitch(midi_pitch - 69),
        midi_pitch == 69 ==> f == A4,
{
    pitch((midi_pitch as i64) - 69)
}

impl Note {
    /// Calculates the frequency of a given note.
    pub fn to_freq(self) -> (f: i64)
        requires
            self.octave * 12 + self.chroma <= 57 + SEMITONES_MAX,
        ensures
            f == spec_note_to_freq(self.chroma as int, self.octave as int),
    {
        note_to_freq(self.chroma, self.octave)
    }
}

} // verus!
