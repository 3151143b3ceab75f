//! A voice: a glottal source filtered by a vocal tract.
use vstd::prelude::*;
use crate::fixed::{clip, saturate, ONE};
use crate::glottis::{Glottis, FREQUENCY_MAX, TIME_MAX};
use crate::pulse::spec_lf_waveform;
use crate::timing::spec_lf_timing;
use crate::tract::Tract;

verus! {

/// A glottis and the vocal tract that filters what it gives.
#[derive(Clone, Debug)]
pub struct Voice {
    pub glottis: Glottis,
    pub tract: Tract,
}

impl Voice {
    /// Both parts are well formed, and the tract's reflections are derived.
    pub open spec fn wf(self) -> bool {
        &&& self.glottis.wf()
        &&& self.tract@.wf()
        &&& self.tract@.ready
    }

    /// A voice at rest, ready to sound.
    pub fn new() -> (voice: Voice)
        ensures
            voice.wf(),
            voice.tract@.silent(),
            voice.glottis.frequency == 440 * ONE,
            voice.glottis.tenseness == 0,
            voice.glottis.aspiration_index == 0,
    {
        let glottis = Glottis::new();
        let mut tract = Tract::new();
        proof {
            // The velum and the two oral sections beside it are open at rest.
            assert(tract@.oral.diameter[crate::tract::VELUM_INDEX as int]
                == crate::tract::ORAL_DIAMETER);
            assert(3_000_000int * 3_000_000int == 9_000_000_000_000int);
            assert(crate::geometry::PI * 9_000_000_000_000int == 28_274_337_000_000_000_000int);
            assert(crate::geometry::spec_circle_area(3_000_000) == 7_068_584);
            vstd::arithmetic::div_mod::lemma_div_pos_is_pos(
                crate::geometry::PI * (40_000int * 40_000int),
                crate::geometry::AREA_DIVISOR as int,
            );
        }
        tract.init();
        Voice { glottis, tract }
    }

    /// Sets the fundamental frequency of the voice.
    pub fn set_frequency(&mut self, frequency: i64)
        requires
            old(self).wf(),
            -FREQUENCY_MAX <= frequency <= FREQUENCY_MAX,
        ensures
            final(self).wf(),
            final(self).tract == old(self).tract,
            final(self).glottis == (Glottis { frequency, ..old(self).glottis }),
    {
        self.glottis.set_frequency(frequency);
    }

    /// Called before a block of samples: derives the voiced pulse from the
    /// present tenseness.
    pub fn pre_block(&mut self)
        requires
            old(self).wf(),
        ensures
            final(self).wf(),
            final(self).tract == old(self).tract,
            final(self).glottis.waveform == spec_lf_waveform(
                spec_lf_timing(old(self).glottis.tenseness as int),
            ),
            final(self).glottis.aspiration_index == old(self).glottis.aspiration_index,
            final(self).glottis.tenseness == old(self).glottis.tenseness,
            final(self).glottis.frequency == old(self).glottis.frequency,
    {
        self.glottis.pre_block();
        self.tract.pre_block();
    }

    /// Produces the sample at `time`: the glottis gives its excitation and
    /// the tract filters it. Where the tenseness gave no pulse there is no
    /// sample, and nothing changes.
    pub fn tick(&mut self, time: i64) -> (sample: Option<i64>)
        requires
            old(self).wf(),
            -TIME_MAX <= time <= TIME_MAX,
        ensures
            final(self).wf(),
            old(self).glottis.waveform.is_none() ==> sample.is_none(),
            old(self).glottis.waveform.is_none() ==> *final(self) == *old(self),
            old(self).glottis.waveform.is_some() ==> sample.is_some(),
            old(self).glottis.waveform.is_some() ==> sample.unwrap() == final(self).tract@.output(),
            old(self).glottis.waveform.is_some() ==> final(self).glottis == (Glottis {
                aspiration_index: ((old(self).glottis.aspiration_index + 1) % 128) as usize,
                ..old(self).glottis
            }),
            old(self).glottis.waveform.is_some() ==> final(self).tract@ == old(self).tract@.step(
                saturate(old(self).glottis.spec_excitation(time as int)),
            ).step(saturate(old(self).glottis.spec_excitation(time as int))),
    {
        let ghost before = self.tract@;
        match self.glottis.tick(time) {
            None => None,
            Some(source) => {
                let excitation: i64 = clip(source as i128);
                let output: i64 = self.tract.process(excitation, 0);
                assert(self.tract@ == before.step(excitation as int).step(excitation as int));
                Some(output)
            },
        }
    }
}

} // verus!
