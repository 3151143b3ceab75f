//! The glottal source: pitch with vibrato, and the voiced pulse mixed with
//! aspiration noise.
use vstd::prelude::*;
use crate::fixed::{fx_mul, is_root, lemma_fraction_of, lemma_fx_mul_bound, lemma_root_unique, lemma_trunc_div_bounds, magnitude, scaled, spec_sqrt, sqrt, trunc_div, AMPLITUDE_MAX, ONE};
use crate::noise::white_noise;
use crate::trig::{cosine, sine, spec_cosine, spec_sine};
use crate::pulse::{liljencrants_fant, spec_lf_waveform, LfWaveform};
use crate::timing::spec_lf_timing;

verus! {

/// The number of slots in the ring of aspiration noise.
pub const ASPIRATION_SLOTS: usize = 128;

/// The largest magnitude of a frequency: a million hertz.
pub const FREQUENCY_MAX: i64 = 1_000_000_000_000;

/// The largest time for which a phase is computed: a thousand million seconds.
pub const TIME_MAX: i64 = 1_000_000_000_000_000;

/// The level of aspiration where the window is closed.
pub const ASPIRATION_FLOOR: i64 = 150_000;

/// How much the window adds to the aspiration where it is fully open.
pub const ASPIRATION_AMPLITUDE: i64 = 200_000;

/// The share of the jitter that reaches the aspiration: a quarter.
pub const JITTER_SHARE: i64 = 250_000;

/// A slow periodic change of pitch.
#[derive(Clone, Copy, Debug)]
pub struct Vibrato {
    pub frequency: i64,
    pub amplitude: i64,
}

/// The glottal source.
#[derive(Clone, Debug)]
pub struct Glottis {
    /// The fundamental frequency.
    pub frequency: i64,
    pub vibrato: Vibrato,
    pub intensity: i64,
    /// How tense the vocal folds are, from zero to one.
    pub tenseness: i64,
    pub loudness: i64,
    /// The voiced pulse, as derived from the tenseness when a block began;
    /// none where the tenseness gave none.
    pub waveform: Option<LfWaveform>,
    /// Noise prepared in advance, read in a ring.
    pub aspiration_buffer: Vec<i64>,
    /// The slot that is read next.
    pub aspiration_index: usize,
}

/// The Hanning window at phase `t` of the cycle: `(1 - cos(2 pi t)) / 2`.
pub open spec fn spec_hanning(t: int) -> int {
    trunc_div(ONE - spec_cosine(t), 2)
}

/// The window raised by `floor` and scaled by `amplitude`.
pub open spec fn spec_hanning_modulation(t: int, floor: int, amplitude: int) -> int {
    floor + fx_mul(amplitude, spec_hanning(t))
}

/// The aspiration that a noise sample gives: the sample, stirred by a
/// quarter of the jitter, shaped by the window's modulation and scaled by the
/// square root of the tenseness.
pub open spec fn spec_noise_residual(aspiration: int, jitter: int, modulation: int, tenseness: int)
    -> int {
    fx_mul(
        spec_sqrt(tenseness),
        fx_mul(modulation, fx_mul(ONE + fx_mul(JITTER_SHARE as int, jitter), aspiration)),
    )
}

/// The phase within the glottal cycle at `time`, for a voice of the given
/// frequency whose vibrato stands at `vibrato`: the cycles run so far, less
/// the whole ones among them.
pub open spec fn spec_phase(time: int, frequency: int, vibrato: int) -> int {
    trunc_div(time * (frequency + vibrato), ONE as int) % (ONE as int)
}

/// Without tenseness there is no aspiration, whatever the noise.
pub proof fn lemma_no_tenseness_no_aspiration(aspiration: int, jitter: int, modulation: int)
    ensures
        spec_noise_residual(aspiration, jitter, modulation, 0) == 0,
{
    let inner = fx_mul(modulation, fx_mul(ONE + fx_mul(JITTER_SHARE as int, jitter), aspiration));
    assert(is_root(0 * ONE, 0));
    lemma_root_unique(0 * ONE, 0, spec_sqrt(0));
    lemma_fx_mul_bound(0, inner, 0, magnitude(inner));
}

/// Returns the value of the Hanning window at phase `t` of the cycle.
pub fn hanning(t: i64) -> (h: i64)
    ensures
        h == spec_hanning(t as int),
        0 <= h <= ONE,
{
    (ONE - cosine(t)) / 2
}

/// Returns a Hanning-window amplitude modulation value.
pub fn hanning_modulation(t: i64, floor: i64, amplitude: i64) -> (modulation: i64)
    requires
        -ONE <= floor <= ONE,
        -ONE <= amplitude <= ONE,
    ensures
        modulation == spec_hanning_modulation(t as int, floor as int, amplitude as int),
        floor - ONE <= modulation <= floor + ONE,
        0 <= amplitude ==> floor <= modulation <= floor + amplitude,
{
    let h: i64 = hanning(t);
    proof {
        if 0 <= amplitude {
            lemma_fraction_of(amplitude as int, h as int);
            lemma_fraction_of(h as int, amplitude as int);
            assert(amplitude * h == h * amplitude) by (nonlinear_arith);
        }
    }
    floor + scaled(amplitude, h)
}

/// Returns the aspiration that a noise sample gives.
pub fn noise_residual(aspiration: i64, jitter: i64, modulation: i64, tenseness: i64) -> (residual:
    i64)
    requires
        -ONE <= aspiration <= ONE,
        -ONE <= jitter <= ONE,
        -ONE <= modulation <= ONE,
        0 <= tenseness <= ONE,
    ensures
        residual == spec_noise_residual(
            aspiration as int,
            jitter as int,
            modulation as int,
            tenseness as int,
        ),
        -2 * ONE <= residual <= 2 * ONE,
        tenseness == 0 ==> residual == 0,
{
    proof {
        lemma_no_tenseness_no_aspiration(aspiration as int, jitter as int, modulation as int);
    }
    let stir: i64 = ONE + scaled(JITTER_SHARE, jitter);
    let stirred: i64 = scaled(stir, aspiration);
    let shaped: i64 = scaled(modulation, stirred);
    scaled(sqrt(tenseness), shaped)
}

/// Returns the phase within the glottal cycle.
pub fn phase(time: i64, frequency: i64, vibrato: i64) -> (t: i64)
    requires
        -TIME_MAX <= time <= TIME_MAX,
        -FREQUENCY_MAX <= frequency <= FREQUENCY_MAX,
        -FREQUENCY_MAX <= vibrato <= FREQUENCY_MAX,
    ensures
        t == spec_phase(time as int, frequency as int, vibrato as int),
        0 <= t < ONE,
{
    let f0: i128 = (frequency as i128) + (vibrato as i128);
    let wide: i128 = time as i128;
    assert(-2_000_000_000_000_000_000_000_000_000 <= wide * f0
        <= 2_000_000_000_000_000_000_000_000_000) by (nonlinear_arith)
        requires
            -1_000_000_000_000_000 <= wide <= 1_000_000_000_000_000,
            -2_000_000_000_000 <= f0 <= 2_000_000_000_000,
    ;
    let cycles: i128 = (wide * f0) / (ONE as i128);
    let whole: i128 = cycles / (ONE as i128);
    let rest: i128 = cycles - whole * (ONE as i128);
    proof {
        lemma_trunc_div_bounds(wide * f0, ONE as int);
        lemma_trunc_div_bounds(cycles as int, ONE as int);
        if rest < 0 {
            assert(cycles == (whole - 1) * ONE + (rest + ONE)) by (nonlinear_arith)
                requires
                    rest == cycles - whole * ONE,
            ;
            vstd::arithmetic::div_mod::lemma_fundamental_div_mod_converse(
                cycles as int,
                ONE as int,
                whole - 1,
                rest + ONE,
            );
        } else {
            vstd::arithmetic::div_mod::lemma_fundamental_div_mod_converse(
                cycles as int,
                ONE as int,
                whole as int,
                rest as int,
            );
        }
    }
    if rest < 0 {
        (rest + (ONE as i128)) as i64
    } else {
        rest as i64
    }
}

impl Glottis {
    /// The ring holds its slots of noise between minus one and one, the
    /// tenseness lies between zero and one, and the other settings are small
    /// enough to compute with.
    pub open spec fn wf(self) -> bool {
        &&& self.aspiration_buffer@.len() == ASPIRATION_SLOTS
        &&& self.aspiration_index < ASPIRATION_SLOTS
        &&& forall|i: int|
            0 <= i < ASPIRATION_SLOTS ==> -ONE <= #[trigger] self.aspiration_buffer@[i] <= ONE
        &&& 0 <= self.tenseness <= ONE
        &&& -2 * ONE <= self.intensity <= 2 * ONE
        &&& -2 * ONE <= self.loudness <= 2 * ONE
        &&& -FREQUENCY_MAX <= self.frequency <= FREQUENCY_MAX
        &&& -FREQUENCY_MAX <= self.vibrato.frequency <= FREQUENCY_MAX
        &&& -FREQUENCY_MAX <= self.vibrato.amplitude <= FREQUENCY_MAX
        &&& self.waveform.is_some() ==> self.waveform.unwrap().wf()
    }

    /// How far the vibrato has moved the pitch at `time`:
    /// `sin(2 pi f t)` times its amplitude, for a vibrato of frequency `f`.
    pub open spec fn spec_vibrato(self, time: int) -> int {
        fx_mul(
            spec_sine(spec_phase(time, self.vibrato.frequency as int, 0)),
            self.vibrato.amplitude as int,
        )
    }

    /// The phase within the glottal cycle at `time`.
    pub open spec fn spec_phase(self, time: int) -> int {
        spec_phase(time, self.frequency as int, self.spec_vibrato(time))
    }

    /// The sample that the glottis gives at `time` for the pulse `excitation`
    /// of the voiced waveform: the pulse and the aspiration of the slot that
    /// is read, scaled by intensity and loudness.
    pub open spec fn spec_sample(self, time: int, excitation: int) -> int {
        fx_mul(
            self.loudness as int,
            fx_mul(
                self.intensity as int,
                excitation + spec_noise_residual(
                    self.aspiration_buffer@[self.aspiration_index as int] as int,
                    0,
                    spec_hanning_modulation(
                        self.spec_phase(time),
                        ASPIRATION_FLOOR as int,
                        ASPIRATION_AMPLITUDE as int,
                    ),
                    self.tenseness as int,
                ),
            ),
        )
    }

    /// The excitation that the glottis gives at `time`, where it has a
    /// pulse: the sample for the pulse at the phase of that time.
    pub open spec fn spec_excitation(self, time: int) -> int {
        self.spec_sample(time, self.waveform.unwrap().spec_pulse(self.spec_phase(time)))
    }

    /// A glottis at 440 Hz with a light vibrato and no tenseness, whose ring
    /// holds fresh white noise.
    pub fn new() -> (glottis: Glottis)
        ensures
            glottis.wf(),
            glottis.frequency == 440 * ONE,
            glottis.vibrato.frequency == 7 * ONE,
            glottis.vibrato.amplitude == 250_000,
            glottis.intensity == 500_000,
            glottis.tenseness == 0,
            glottis.loudness == 500_000,
            glottis.aspiration_index == 0,
            glottis.waveform == spec_lf_waveform(spec_lf_timing(0)),
            forall|i: int|
                0 <= i < ASPIRATION_SLOTS ==> 0 <= #[trigger] glottis.aspiration_buffer@[i] < ONE,
    {
        Glottis {
            frequency: 440 * ONE,
            vibrato: Vibrato { frequency: 7 * ONE, amplitude: 250_000 },
            intensity: 500_000,
            tenseness: 0,
            loudness: 500_000,
            waveform: liljencrants_fant(0),
            aspiration_buffer: create_aspiration_buffer(),
            aspiration_index: 0,
        }
    }

    /// Called before a block of samples: derives the voiced pulse from the
    /// present tenseness.
    pub fn pre_block(&mut self)
        requires
            old(self).wf(),
        ensures
            final(self).wf(),
            *final(self) == (Glottis {
                waveform: spec_lf_waveform(spec_lf_timing(old(self).tenseness as int)),
                ..*old(self)
            }),
    {
        self.waveform = liljencrants_fant(self.tenseness);
    }

    /// Sets the fundamental frequency.
    pub fn set_frequency(&mut self, frequency: i64)
        requires
            old(self).wf(),
            -FREQUENCY_MAX <= frequency <= FREQUENCY_MAX,
        ensures
            final(self).wf(),
            *final(self) == (Glottis { frequency, ..*old(self) }),
    {
        self.frequency = frequency;
    }

    /// Sets the tenseness, kept within zero and one.
    pub fn set_tenseness(&mut self, tenseness: i64)
        requires
            old(self).wf(),
        ensures
            final(self).wf(),
            *final(self) == (Glottis {
                tenseness: if tenseness < 0 {
                    0
                } else if tenseness > ONE {
                    ONE
                } else {
                    tenseness
                },
                ..*old(self)
            }),
    {
        self.tenseness = if tenseness < 0 {
            0
        } else if tenseness > ONE {
            ONE
        } else {
            tenseness
        };
    }

    /// Returns how far the vibrato has moved the pitch at `time`.
    pub fn vibrato(&self, time: i64) -> (deviation: i64)
        requires
            self.wf(),
            -TIME_MAX <= time <= TIME_MAX,
        ensures
            deviation == self.spec_vibrato(time as int),
            -FREQUENCY_MAX <= deviation <= FREQUENCY_MAX,
    {
        let angle: i64 = phase(time, self.vibrato.frequency, 0);
        scaled(sine(angle), self.vibrato.amplitude)
    }

    /// Returns the phase within the glottal cycle at `time`, at which the
    /// pulse of the voiced waveform is to be taken.
    pub fn phase(&self, time: i64) -> (t: i64)
        requires
            self.wf(),
            -TIME_MAX <= time <= TIME_MAX,
        ensures
            t == self.spec_phase(time as int),
            0 <= t < ONE,
    {
        phase(time, self.frequency, self.vibrato(time))
    }

    /// Generates glottal excitation at a given time: the voiced pulse at the
    /// phase of that time, mixed with aspiration. Where the tenseness gave no
    /// pulse there is no sample, and nothing changes.
    pub fn tick(&mut self, time: i64) -> (sample: Option<i64>)
        requires
            old(self).wf(),
            -TIME_MAX <= time <= TIME_MAX,
        ensures
            final(self).wf(),
            old(self).waveform.is_none() ==> sample.is_none() && *final(self) == *old(self),
            old(self).waveform.is_some() ==> sample.is_some(),
            old(self).waveform.is_some() ==> sample.unwrap() == old(self).spec_excitation(
                time as int,
            ),
            old(self).waveform.is_some() ==> *final(self) == (Glottis {
                aspiration_index: ((old(self).aspiration_index + 1) % 128) as usize,
                ..*old(self)
            }),
    {
        match self.waveform {
            None => None,
            Some(waveform) => {
                let t: i64 = self.phase(time);
                let excitation: i64 = waveform.pulse(t);
                Some(self.mix(time, excitation))
            },
        }
    }

    /// Mixes the pulse `excitation` of the voiced waveform at `time` with
    /// aspiration, and moves on to the next slot of the ring.
    pub fn mix(&mut self, time: i64, excitation: i64) -> (sample: i64)
        requires
            old(self).wf(),
            -TIME_MAX <= time <= TIME_MAX,
            -AMPLITUDE_MAX <= excitation <= AMPLITUDE_MAX,
        ensures
            sample == old(self).spec_sample(time as int, excitation as int),
            old(self).tenseness == 0 ==> sample == fx_mul(
                old(self).loudness as int,
                fx_mul(old(self).intensity as int, excitation as int),
            ),
            *final(self) == (Glottis {
                aspiration_index: ((old(self).aspiration_index + 1) % 128) as usize,
                ..*old(self)
            }),
            final(self).wf(),
    {
        let aspiration: i64 = self.aspiration_buffer[self.aspiration_index];
        let t: i64 = self.phase(time);
        let modulation: i64 = hanning_modulation(t, ASPIRATION_FLOOR, ASPIRATION_AMPLITUDE);
        let residual: i64 = noise_residual(aspiration, 0, modulation, self.tenseness);
        self.aspiration_index = (self.aspiration_index + 1) % ASPIRATION_SLOTS;
        scaled(self.loudness, scaled(self.intensity, excitation + residual))
    }
}

/// Fills a ring with fresh white noise.
pub fn create_aspiration_buffer() -> (buffer: Vec<i64>)
    ensures
        buffer@.len() == ASPIRATION_SLOTS,
        forall|i: int| 0 <= i < ASPIRATION_SLOTS ==> 0 <= #[trigger] buffer@[i] < ONE,
{
    let mut buffer: Vec<i64> = Vec::new();
    while buffer.len() < ASPIRATION_SLOTS
        invariant
            buffer@.len() <= ASPIRATION_SLOTS,
            forall|i: int| 0 <= i < buffer@.len() ==> 0 <= #[trigger] buffer@[i] < ONE,
        decreases ASPIRATION_SLOTS - buffer@.len(),
    {
        buffer.push(white_noise());
    }
    buffer
}

} // verus!
