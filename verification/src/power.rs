//! Powers of two with a fixed-point exponent.
use vstd::prelude::*;
use vstd::arithmetic::power2::{lemma2_to64, lemma_pow2_strictly_increases, lemma_pow2_unfold, pow2};
use crate::fixed::{fx_mul, lemma_fraction_of, lemma_fx_mul_bound, lemma_fx_mul_monotonic, times, ONE};

verus! {

/// The largest exponent that `exp2` accepts: twenty, in millionths.
pub const EXPONENT_MAX: i64 = 20_000_000;

/// One step of a polynomial in Horner form: `c + f * p`.
pub open spec fn horner(c: int, f: int, p: int) -> int {
    c + fx_mul(f, p)
}

/// Two to the power `f / ONE` for a fraction `0 <= f < ONE`: the series of
/// `exp(f ln 2)` up to its eighth power, each coefficient `(ln 2)^n / n!`
/// in millionths, evaluated in Horner form.
pub open spec fn spec_exp2_fraction(f: int) -> int {
    horner(
        ONE as int,
        f,
        horner(
            693_147,
            f,
            horner(
                240_227,
                f,
                horner(55_504, f, horner(9_618, f, horner(1_333, f, horner(154, f, horner(15, f, 1))))),
            ),
        ),
    )
}

/// Two to the power `y / ONE`: the whole part of the exponent doubles or
/// halves the power of its fraction.
pub open spec fn spec_exp2(y: int) -> int {
    let whole = y / (ONE as int);
    let fraction = y % (ONE as int);
    if whole >= 0 {
        spec_exp2_fraction(fraction) * pow2(whole as nat)
    } else {
        spec_exp2_fraction(fraction) / (pow2((-whole) as nat) as int)
    }
}

/// The power of a fraction lies between one and two, and is one at zero.
pub proof fn lemma_exp2_fraction_range(f: int)
    requires
        0 <= f <= ONE,
    ensures
        ONE <= spec_exp2_fraction(f) < 2 * ONE,
        spec_exp2_fraction(0) == ONE,
{
    let term_7 = horner(15, f, 1);
    lemma_fraction_of(f, 1);
    let term_6 = horner(154, f, term_7);
    lemma_fraction_of(f, term_7);
    let term_5 = horner(1_333, f, term_6);
    lemma_fraction_of(f, term_6);
    let term_4 = horner(9_618, f, term_5);
    lemma_fraction_of(f, term_5);
    let term_3 = horner(55_504, f, term_4);
    lemma_fraction_of(f, term_4);
    let term_2 = horner(240_227, f, term_3);
    lemma_fraction_of(f, term_3);
    let term_1 = horner(693_147, f, term_2);
    lemma_fraction_of(f, term_2);
    lemma_fraction_of(f, term_1);
    lemma_fraction_of(0, horner(693_147, 0, horner(240_227, 0, horner(55_504, 0, horner(9_618, 0, horner(1_333, 0, horner(154, 0, horner(15, 0, 1))))))));
}

/// Far enough below zero the power rounds to nothing; at or below zero it is
/// at most one.
pub proof fn lemma_exp2_of_negative(y: int)
    requires
        y <= 0,
    ensures
        0 <= spec_exp2(y) <= ONE,
        y == 0 ==> spec_exp2(y) == ONE,
        y < 0 ==> spec_exp2(y) < ONE,
        y < -21 * ONE ==> spec_exp2(y) == 0,
{
    let unit = ONE as int;
    let whole = y / unit;
    let fraction = y % unit;
    vstd::arithmetic::div_mod::lemma_fundamental_div_mod(y, unit);
    vstd::arithmetic::div_mod::lemma_mod_bound(y, unit);
    lemma_exp2_fraction_range(fraction);
    let base = spec_exp2_fraction(fraction);
    lemma2_to64();
    if y == 0 {
        assert(whole == 0 && fraction == 0);
        assert(base * pow2(0) == base) by (nonlinear_arith)
            requires
                pow2(0) == 1,
        ;
    } else {
        assert(whole < 0) by (nonlinear_arith)
            requires
                y == unit * whole + fraction,
                y < 0,
                0 <= fraction,
                unit > 0,
        ;
        let down = (-whole) as nat;
        let divisor = pow2(down) as int;
        if down > 1 {
            lemma_pow2_strictly_increases(1, down);
        }
        vstd::arithmetic::div_mod::lemma_div_pos_is_pos(base, divisor);
        vstd::arithmetic::div_mod::lemma_div_is_ordered_by_denominator(base, 2, divisor);
        assert(base / 2 < ONE);
        if y < -21 * ONE {
            assert(down > 21) by (nonlinear_arith)
                requires
                    y == unit * whole + fraction,
                    y < -21 * unit,
                    0 <= fraction,
                    unit > 0,
                    down == -whole,
            ;
            lemma_pow2_strictly_increases(21, down);
            vstd::arithmetic::div_mod::lemma_basic_div(base, divisor);
        }
    }
}

/// The binary logarithm of Euler's number.
pub const LOG2_E: i64 = 1_442_695;

/// The largest argument that `exp` accepts: thirteen.
pub const EXP_MAX: i64 = 13_000_000;

/// An argument at and below which `exp` is zero: minus fifteen.
pub const LN_LOW: i64 = -15_000_000;

/// The largest argument that `ln` accepts.
pub const LN_ARGUMENT_MAX: i64 = 400_000_000_000;

/// Euler's number to the power `x / ONE`: two to the power `x` times the
/// binary logarithm of Euler's number.
pub open spec fn spec_exp(x: int) -> int {
    spec_exp2(fx_mul(LOG2_E as int, x))
}

/// The natural logarithm of `y` between two bounds, by bisection: the bound
/// that is left when `low` has been raised, and `high` lowered, as far as the
/// exponential at the middle between them allows.
pub open spec fn spec_ln_between(y: int, low: int, high: int) -> int
    decreases high - low,
{
    if high - low <= 1 {
        low
    } else {
        let middle = low + (high - low) / 2;
        if spec_exp(middle) <= y {
            spec_ln_between(y, middle, high)
        } else {
            spec_ln_between(y, low, middle)
        }
    }
}

/// The natural logarithm of `y`, rounded down to where the exponential
/// passes `y`.
pub open spec fn spec_ln(y: int) -> int {
    spec_ln_between(y, LN_LOW as int, EXP_MAX as int)
}

/// At or below zero the exponential is at most one, below zero less than
/// one, and far enough below zero nothing.
pub proof fn lemma_exp_of_negative(x: int)
    requires
        x <= 0,
    ensures
        0 <= spec_exp(x) <= ONE,
        x == 0 ==> spec_exp(x) == ONE,
        x < 0 ==> spec_exp(x) < ONE,
        x <= LN_LOW ==> spec_exp(x) == 0,
{
    let y = fx_mul(LOG2_E as int, x);
    lemma_fx_mul_bound(LOG2_E as int, -x, LOG2_E as int, -x);
    assert(fx_mul(LOG2_E as int, x) == -fx_mul(LOG2_E as int, -x));
    lemma_fx_mul_monotonic(0, 0, LOG2_E as int, -x);
    if x < 0 {
        lemma_fx_mul_monotonic(LOG2_E as int, 1, LOG2_E as int, -x);
        assert(1_442_695int * 1int == 1_442_695int);
        assert(fx_mul(LOG2_E as int, 1) == 1);
    }
    if x <= LN_LOW {
        lemma_fx_mul_monotonic(LOG2_E as int, 15_000_000, LOG2_E as int, -x);
        assert(1_442_695int * 15_000_000int == 21_640_425_000_000int);
        assert(fx_mul(LOG2_E as int, 15_000_000) == 21_640_425);
    }
    lemma_exp2_of_negative(y);
}

/// Up to its largest argument the exponential stays within what `exp2`
/// accepts, and at that argument it exceeds the largest argument of `ln`.
pub proof fn lemma_exp_within_reach(x: int)
    requires
        0 <= x <= EXP_MAX,
    ensures
        0 <= fx_mul(LOG2_E as int, x) <= 18_755_035,
        spec_exp(EXP_MAX as int) > LN_ARGUMENT_MAX,
{
    lemma_fx_mul_monotonic(LOG2_E as int, x, LOG2_E as int, EXP_MAX as int);
    assert(1_442_695int * 13_000_000int == 18_755_035_000_000int);
    assert(fx_mul(LOG2_E as int, EXP_MAX as int) == 18_755_035);
    assert(18_755_035int / 1_000_000 == 18 && 18_755_035int % 1_000_000 == 755_035);
    assert(755_035int * 1int == 755_035int);
    assert(horner(15, 755_035, 1) == 15);
    assert(755_035int * 15int == 11_325_525int);
    assert(horner(154, 755_035, 15) == 165);
    assert(755_035int * 165int == 124_580_775int);
    assert(horner(1_333, 755_035, 165) == 1_457);
    assert(755_035int * 1_457int == 1_100_085_995int);
    assert(horner(9_618, 755_035, 1_457) == 10_718);
    assert(755_035int * 10_718int == 8_092_465_130int);
    assert(horner(55_504, 755_035, 10_718) == 63_596);
    assert(755_035int * 63_596int == 48_017_205_860int);
    assert(horner(240_227, 755_035, 63_596) == 288_244);
    assert(755_035int * 288_244int == 217_634_308_540int);
    assert(horner(693_147, 755_035, 288_244) == 910_781);
    assert(755_035int * 910_781int == 687_671_532_335int);
    assert(horner(ONE as int, 755_035, 910_781) == 1_687_671);
    assert(spec_exp2_fraction(755_035) == 1_687_671);
    lemma2_to64();
    assert(spec_exp2(18_755_035) == 1_687_671 * pow2(18));
    assert(pow2(18) == 262_144);
    assert(1_687_671int * 262_144int == 442_412_826_624int);
}

fn horner_step(c: i64, f: i64, p: i64) -> (r: i64)
    requires
        0 <= f <= ONE,
        0 <= p <= ONE,
        0 <= c <= ONE,
    ensures
        r == horner(c as int, f as int, p as int),
        c <= r <= c + p,
{
    proof {
        lemma_fraction_of(f as int, p as int);
    }
    let part: i128 = times(f, p);
    c + (part as i64)
}

/// Two to the power `f / ONE`, for a fraction `f`.
pub fn exp2_fraction(f: i64) -> (r: i64)
    requires
        0 <= f < ONE,
    ensures
        r == spec_exp2_fraction(f as int),
        ONE <= r < 2 * ONE,
{
    proof {
        lemma_exp2_fraction_range(f as int);
    }
    let term_7: i64 = horner_step(15, f, 1);
    let term_6: i64 = horner_step(154, f, term_7);
    let term_5: i64 = horner_step(1_333, f, term_6);
    let term_4: i64 = horner_step(9_618, f, term_5);
    let term_3: i64 = horner_step(55_504, f, term_4);
    let term_2: i64 = horner_step(240_227, f, term_3);
    let term_1: i64 = horner_step(693_147, f, term_2);
    horner_step(ONE, f, term_1)
}

/// Two to the power `n`, for a small `n`.
pub fn power_of_two(n: u32) -> (r: i64)
    requires
        n <= 21,
    ensures
        r == pow2(n as nat),
        1 <= r <= 0x200000,
{
    let mut r: i64 = 1;
    let mut i: u32 = 0;
    proof {
        lemma2_to64();
    }
    while i < n
        invariant
            i <= n <= 21,
            r == pow2(i as nat),
            1 <= r,
            i < 21 ==> r < pow2(21),
            i == 21 ==> r == pow2(21),
            pow2(21) == 0x200000,
        decreases n - i,
    {
        proof {
            lemma_pow2_unfold((i + 1) as nat);
            if i + 1 < 21 {
                lemma_pow2_strictly_increases((i + 1) as nat, 21);
            }
        }
        r = r * 2;
        i = i + 1;
    }
    r
}

/// Two to the power `y / ONE`.
pub fn exp2(y: i64) -> (r: i64)
    requires
        y <= EXPONENT_MAX,
    ensures
        r == spec_exp2(y as int),
        0 <= r <= 0x200000 * ONE,
{
    let wide: i128 = y as i128;
    let unit: i128 = ONE as i128;
    if wide >= 0 {
        let whole: i128 = wide / unit;
        let fraction: i128 = wide % unit;
        proof {
            vstd::arithmetic::div_mod::lemma_fundamental_div_mod(wide as int, unit as int);
            vstd::arithmetic::div_mod::lemma_div_is_ordered(wide as int, EXPONENT_MAX as int, unit as int);
            assert(EXPONENT_MAX as int / unit as int == 20);
        }
        let base: i64 = exp2_fraction(fraction as i64);
        let factor: i64 = power_of_two(whole as u32);
        proof {
            lemma2_to64();
            if whole < 20 {
                lemma_pow2_strictly_increases(whole as nat, 20);
            }
        }
        assert(base * factor <= 0x200000 * ONE) by (nonlinear_arith)
            requires
                0 <= base < 2 * ONE,
                1 <= factor <= 0x100000,
        ;
        assert(0 <= base * factor) by (nonlinear_arith)
            requires
                0 <= base,
                1 <= factor,
        ;
        base * factor
    } else {
        let below: i128 = -wide;
        let steps: i128 = below / unit;
        let rest: i128 = below % unit;
        let down: i128 = if rest == 0 { steps } else { steps + 1 };
        let fraction: i128 = if rest == 0 { 0 } else { unit - rest };
        proof {
            vstd::arithmetic::div_mod::lemma_fundamental_div_mod(below as int, unit as int);
            assert(unit * steps == steps * unit) by (nonlinear_arith);
            assert((-down) * unit == -(down * unit)) by (nonlinear_arith);
            assert((steps + 1) * unit == steps * unit + unit) by (nonlinear_arith);
            vstd::arithmetic::div_mod::lemma_fundamental_div_mod_converse(
                wide as int,
                unit as int,
                -down as int,
                fraction as int,
            );
            assert(down >= 1);
        }
        let base: i64 = exp2_fraction(fraction as i64);
        if down > 21 {
            proof {
                lemma2_to64();
                lemma_pow2_strictly_increases(21, down as nat);
                vstd::arithmetic::div_mod::lemma_basic_div(base as int, pow2(down as nat) as int);
            }
            0
        } else {
            let divisor: i64 = power_of_two(down as u32);
            proof {
                vstd::arithmetic::div_mod::lemma_div_pos_is_pos(base as int, divisor as int);
                vstd::arithmetic::div_mod::lemma_div_is_ordered_by_denominator(base as int, 1, divisor as int);
            }
            base / divisor
        }
    }
}

/// Euler's number to the power `x / ONE`.
pub fn exp(x: i64) -> (r: i64)
    requires
        x <= EXP_MAX,
    ensures
        r == spec_exp(x as int),
        0 <= r <= 0x200000 * ONE,
        x <= 0 ==> r <= ONE,
        x < 0 ==> r < ONE,
        x == 0 ==> r == ONE,
{
    if x <= LN_LOW {
        proof {
            lemma_exp_of_negative(x as int);
        }
        0
    } else {
        proof {
            if x <= 0 {
                lemma_exp_of_negative(x as int);
                lemma_fx_mul_bound(LOG2_E as int, x as int, LOG2_E as int, 15_000_000);
                assert(1_442_695int * 15_000_000int == 21_640_425_000_000int);
            } else {
                lemma_exp_within_reach(x as int);
            }
        }
        let y: i128 = times(LOG2_E, x);
        exp2(y as i64)
    }
}

/// The natural logarithm of `y`, rounded down to where the exponential
/// passes `y`.
pub fn ln(y: i64) -> (r: i64)
    requires
        0 < y <= LN_ARGUMENT_MAX,
    ensures
        r == spec_ln(y as int),
        LN_LOW <= r < EXP_MAX,
        spec_exp(r as int) <= y < spec_exp(r + 1),
{
    let mut low: i64 = LN_LOW;
    let mut high: i64 = EXP_MAX;
    proof {
        lemma_exp_of_negative(LN_LOW as int);
        lemma_exp_within_reach(EXP_MAX as int);
    }
    while high - low > 1
        invariant
            LN_LOW <= low < high <= EXP_MAX,
            spec_exp(low as int) <= y < spec_exp(high as int),
            spec_ln_between(y as int, low as int, high as int) == spec_ln(y as int),
        decreases high - low,
    {
        let middle: i64 = low + (high - low) / 2;
        if exp(middle) <= y {
            low = middle;
        } else {
            high = middle;
        }
    }
    low
}

} // verus!
