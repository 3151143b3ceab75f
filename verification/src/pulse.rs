//! The voiced pulse of the Liljencrants-Fant model: the flow through the
//! glottis over one cycle, rising and falling while the folds are open and
//! returning to rest once they have closed.
use vstd::prelude::*;
use crate::fixed::{clip, fx_div, fx_mul, lemma_fx_mul_bound, lemma_fx_mul_monotonic, lemma_trunc_div_bounds, magnitude, quotient, saturate, scaled, times, trunc_div, AMPLITUDE_MAX, ONE};
use crate::geometry::PI;
use crate::power::{exp, lemma_exp_of_negative, ln, spec_exp, spec_ln, EXP_MAX, LN_ARGUMENT_MAX};
use crate::trig::{sine, spec_sine};
use crate::timing::{lf_timing, spec_lf_timing, LfTiming};

verus! {

/// The glottal pulse of one tenseness: its timing and the constants of its
/// two phases.
#[derive(Clone, Copy, Debug, PartialEq, Eq)]
pub struct LfWaveform {
    pub timing: LfTiming,
    /// What the decay of the return phase has come down to at the end of
    /// the cycle.
    pub shift: i64,
    /// One less the shift: what the return phase is scaled by.
    pub delta: i64,
    /// The growth rate of the open phase.
    pub alpha: i64,
    /// The amplitude of the open phase.
    pub e0: i64,
}

/// What the decay of the return phase has come down to at the end of the
/// cycle: `exp(-epsilon (1 - te))`.
pub open spec fn spec_shift(timing: LfTiming) -> int {
    spec_exp(-fx_mul(ONE - timing.te, timing.epsilon as int))
}

/// The integral of the return phase:
/// `((1 / epsilon) (shift - 1) + (1 - te) shift) / delta`.
pub open spec fn spec_rhs_integral(timing: LfTiming) -> int {
    let shift = spec_shift(timing);
    fx_div(
        fx_mul(shift - ONE, fx_div(ONE as int, timing.epsilon as int)) + fx_mul(
            ONE - timing.te,
            shift,
        ),
        ONE - shift,
    )
}

/// The integral that the open phase has to make up for:
/// `(te - tp) / 2 - rhs_integral`.
pub open spec fn spec_total_upper_integral(timing: LfTiming) -> int {
    trunc_div(timing.te - timing.tp, 2) - spec_rhs_integral(timing)
}

/// The angle of the open phase at phase `t`, in turns: `omega t` with
/// `omega = pi / tp`, which is `t / (2 tp)` of a turn.
pub open spec fn spec_turns(timing: LfTiming, t: int) -> int {
    fx_div(t, 2 * timing.tp)
}

/// What the growth rate is the logarithm of:
/// `-pi sin(omega te) total_upper_integral / (2 tp)`.
pub open spec fn spec_growth_argument(timing: LfTiming) -> int {
    fx_div(
        -fx_mul(
            fx_mul(spec_sine(spec_turns(timing, timing.te as int)), PI as int),
            spec_total_upper_integral(timing),
        ),
        2 * timing.tp,
    )
}

/// The growth rate of the open phase: `ln(y) / (tp / 2 - te)`.
pub open spec fn spec_alpha(timing: LfTiming) -> int {
    fx_div(-spec_ln(spec_growth_argument(timing)), timing.te - trunc_div(timing.tp as int, 2))
}

/// The open phase before it is scaled: `sin(omega t) exp(alpha t)`.
pub open spec fn spec_swing(timing: LfTiming, alpha: int, t: int) -> int {
    fx_mul(spec_sine(spec_turns(timing, t)), spec_exp(fx_mul(t, alpha)))
}

/// The amplitude that brings the open phase to minus one where its unscaled
/// value is `swing`: `-1 / swing`.
pub open spec fn spec_e0(swing: int) -> int {
    if swing > 0 {
        -fx_div(ONE as int, swing)
    } else {
        fx_div(ONE as int, -swing)
    }
}

/// The pulse that a timing gives, where its constants are defined: where
/// the growth rate has a logarithm to be taken of, the open phase stays
/// within what `exp` accepts, and its unscaled value at `te` is not zero.
pub open spec fn spec_lf_waveform(timing: LfTiming) -> Option<LfWaveform> {
    let y = spec_growth_argument(timing);
    let alpha = spec_alpha(timing);
    let swing = spec_swing(timing, alpha, timing.te as int);
    if 0 < y <= LN_ARGUMENT_MAX && fx_mul(timing.te as int, alpha) <= EXP_MAX && swing != 0 {
        Some(
            LfWaveform {
                timing,
                shift: spec_shift(timing) as i64,
                delta: (ONE - spec_shift(timing)) as i64,
                alpha: alpha as i64,
                e0: spec_e0(swing) as i64,
            },
        )
    } else {
        None
    }
}

impl LfWaveform {
    /// The timing is well formed, the return phase is scaled by more than
    /// nothing, the open phase stays within what `exp` accepts, and its
    /// amplitude is the one that brings it to minus one at `te`.
    pub open spec fn wf(self) -> bool {
        &&& self.timing.wf()
        &&& 0 <= self.shift < ONE
        &&& self.delta == ONE - self.shift
        &&& -500 * ONE <= self.alpha <= 500 * ONE
        &&& fx_mul(self.timing.te as int, self.alpha as int) <= EXP_MAX
        &&& -AMPLITUDE_MAX <= self.e0 <= AMPLITUDE_MAX
        &&& spec_swing(self.timing, self.alpha as int, self.timing.te as int) != 0
        &&& self.e0 == spec_e0(spec_swing(self.timing, self.alpha as int, self.timing.te as int))
    }

    /// The return phase at phase `t`:
    /// `(shift - exp(-epsilon (t - te))) / delta`.
    pub open spec fn spec_return_phase(self, t: int) -> int {
        fx_div(
            self.shift - spec_exp(-fx_mul(t - self.timing.te, self.timing.epsilon as int)),
            self.delta as int,
        )
    }

    /// The open phase at phase `t`: `e0 exp(alpha t) sin(omega t)`.
    pub open spec fn spec_open_phase(self, t: int) -> int {
        saturate(fx_mul(self.e0 as int, spec_swing(self.timing, self.alpha as int, t)))
    }

    /// The pulse at phase `t` of the cycle: the open phase up to `te`, the
    /// return phase after it.
    pub open spec fn spec_pulse(self, t: int) -> int {
        if t > self.timing.te {
            self.spec_return_phase(t)
        } else {
            self.spec_open_phase(t)
        }
    }
}

/// The two phases of the pulse meet at `te`: there the return phase is
/// exactly minus one, and the open phase differs from minus one by no more
/// than the rounding of its amplitude allows, which is one millionth and
/// the millionth part of the unscaled value that the amplitude was derived
/// from.
pub proof fn lemma_lf_continuous_at_te(w: LfWaveform)
    requires
        w.wf(),
    ensures
        w.spec_return_phase(w.timing.te as int) == -ONE,
        magnitude(w.spec_pulse(w.timing.te as int) - (-ONE)) <= magnitude(
            spec_swing(w.timing, w.alpha as int, w.timing.te as int),
        ) / (ONE as int) + 1,
{
    let te = w.timing.te as int;
    lemma_fx_mul_bound(0, w.timing.epsilon as int, 0, magnitude(w.timing.epsilon as int));
    lemma_exp_of_negative(0);
    let gap = ONE - w.shift;
    assert((w.shift - ONE) * ONE == -(gap * ONE)) by (nonlinear_arith)
        requires
            gap == ONE - w.shift,
    ;
    vstd::arithmetic::div_mod::lemma_div_multiples_vanish(ONE as int, gap);
    assert(gap * ONE == ONE * gap) by (nonlinear_arith);
    assert(gap * ONE > 0) by (nonlinear_arith)
        requires
            gap > 0,
    ;
    let swing = spec_swing(w.timing, w.alpha as int, te);
    let m = magnitude(swing);
    let q = fx_div(ONE as int, m);
    assert(ONE * ONE == 1_000_000_000_000) by (nonlinear_arith)
        requires
            ONE == 1_000_000,
    ;
    lemma_trunc_div_bounds(ONE * ONE, m);
    // q * m lies within one swing below the square of one
    assert(q * m <= 1_000_000_000_000 && 1_000_000_000_000 < q * m + m) by (nonlinear_arith)
        requires
            q >= 0,
            q * m <= 1_000_000_000_000,
            1_000_000_000_000 < (q + 1) * m,
    ;
    assert(q * m >= 0) by (nonlinear_arith)
        requires
            q >= 0,
            m > 0,
    ;
    let v = (q * m) / (ONE as int);
    vstd::arithmetic::div_mod::lemma_fundamental_div_mod(q * m, ONE as int);
    vstd::arithmetic::div_mod::lemma_mod_bound(q * m, ONE as int);
    vstd::arithmetic::div_mod::lemma_fundamental_div_mod(m, ONE as int);
    vstd::arithmetic::div_mod::lemma_mod_bound(m, ONE as int);
    assert(0 <= v <= ONE && ONE - v <= m / (ONE as int) + 1) by (nonlinear_arith)
        requires
            q * m == ONE * v + (q * m) % (ONE as int),
            0 <= (q * m) % (ONE as int) < ONE,
            m == ONE * (m / (ONE as int)) + m % (ONE as int),
            0 <= m % (ONE as int) < ONE,
            0 <= q * m <= 1_000_000_000_000,
            1_000_000_000_000 < q * m + m,
            ONE == 1_000_000,
    ;
    // the amplitude times the unscaled value is minus q * m, whatever the sign
    assert(w.e0 * swing == -(q * m)) by (nonlinear_arith)
        requires
            swing != 0,
            m == (if swing > 0 {
                swing
            } else {
                -swing
            }),
            w.e0 == (if swing > 0 {
                -q
            } else {
                q
            }),
    ;
    assert(fx_mul(w.e0 as int, swing) == -v);
}

/// Derives the pulse from its timing, where its constants are defined.
pub fn lf_waveform(timing: LfTiming) -> (waveform: Option<LfWaveform>)
    requires
        timing.wf(),
    ensures
        waveform == spec_lf_waveform(timing),
        waveform.is_some() ==> waveform.unwrap().wf(),
{
    let tp: i64 = timing.tp;
    let te: i64 = timing.te;
    let epsilon: i64 = timing.epsilon;
    proof {
        lemma_fx_mul_monotonic(1, ONE as int, ONE - te, epsilon as int);
        assert(fx_mul(1, ONE as int) == 1);
    }
    let decay: i64 = scaled(ONE - te, epsilon);
    let shift: i64 = exp(-decay);
    let delta: i64 = ONE - shift;
    proof {
        assert(ONE * ONE == 1_000_000_000_000) by (nonlinear_arith)
            requires
                ONE == 1_000_000,
        ;
        vstd::arithmetic::div_mod::lemma_div_is_ordered_by_denominator(
            1_000_000_000_000,
            ONE as int,
            epsilon as int,
        );
    }
    let inverse: i64 = quotient(ONE, epsilon);
    let part: i64 = scaled(shift - ONE, inverse) + scaled(ONE - te, shift);
    let rhs_integral: i64 = quotient(part, delta);
    let total_upper_integral: i64 = (te - tp) / 2 - rhs_integral;
    let peak: i64 = sine(quotient(te, 2 * tp));
    proof {
        lemma_fx_mul_bound(peak as int, PI as int, ONE as int, PI as int);
        let q = magnitude(fx_mul(peak as int, PI as int));
        assert(q <= PI) by (nonlinear_arith)
            requires
                q * ONE <= ONE * PI,
        ;
    }
    let turned: i64 = times(peak, PI) as i64;
    proof {
        lemma_fx_mul_bound(
            turned as int,
            total_upper_integral as int,
            PI as int,
            2_000_001_000_000,
        );
        let q = magnitude(fx_mul(turned as int, total_upper_integral as int));
        assert(q <= 7_000_000_000_000) by (nonlinear_arith)
            requires
                q * ONE <= PI * 2_000_001_000_000,
                PI == 3_141_593,
                ONE == 1_000_000,
        ;
    }
    let area: i64 = times(turned, total_upper_integral) as i64;
    let y: i64 = quotient(-area, 2 * tp);
    if y <= 0 || y > LN_ARGUMENT_MAX {
        return None;
    }
    let z: i64 = ln(y);
    let span: i64 = te - tp / 2;
    proof {
        lemma_trunc_div_bounds((-z) * ONE, span as int);
        let q = magnitude(fx_div(-z as int, span as int));
        assert(q <= 500 * ONE) by (nonlinear_arith)
            requires
                q * span <= magnitude((-z) * ONE),
                -15_000_000 <= z <= 15_000_000,
                span >= 35_000,
                q >= 0,
                ONE == 1_000_000,
        ;
    }
    let alpha: i64 = quotient(-z, span);
    let growth: i64 = scaled(te, alpha);
    if growth > EXP_MAX {
        return None;
    }
    let swing: i64 = scaled(peak, exp(growth));
    if swing == 0 {
        return None;
    }
    let e0: i64 = if swing > 0 {
        -quotient(ONE, swing)
    } else {
        quotient(ONE, -swing)
    };
    Some(LfWaveform { timing, shift, delta, alpha, e0 })
}

/// Builds the Liljencrants-Fant glottal pulse of a tenseness between zero
/// and one, where its constants are defined.
pub fn liljencrants_fant(tenseness: i64) -> (waveform: Option<LfWaveform>)
    requires
        0 <= tenseness <= ONE,
    ensures
        waveform == spec_lf_waveform(spec_lf_timing(tenseness as int)),
        waveform.is_some() ==> waveform.unwrap().wf(),
{
    lf_waveform(lf_timing(tenseness))
}

impl LfWaveform {
    /// Returns the pulse at phase `t` of the cycle.
    pub fn pulse(&self, t: i64) -> (e: i64)
        requires
            self.wf(),
            0 <= t <= ONE,
        ensures
            e == self.spec_pulse(t as int),
            -AMPLITUDE_MAX <= e <= AMPLITUDE_MAX,
    {
        let te: i64 = self.timing.te;
        if t > te {
            let decay: i64 = scaled(t - te, self.timing.epsilon);
            let fallen: i64 = exp(-decay);
            quotient(self.shift - fallen, self.delta)
        } else {
            proof {
                if self.alpha >= 0 {
                    lemma_fx_mul_monotonic(t as int, self.alpha as int, te as int, self.alpha as int);
                } else {
                    lemma_fx_mul_monotonic(0, 0, t as int, -self.alpha);
                    lemma_fx_mul_bound(t as int, -self.alpha, ONE as int, -self.alpha);
                }
            }
            let growth: i64 = scaled(t, self.alpha);
            let turns: i64 = quotient(t, 2 * self.timing.tp);
            let swing: i64 = scaled(sine(turns), exp(growth));
            clip(times(self.e0, swing))
        }
    }
}

} // verus!
