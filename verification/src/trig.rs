//! Sine and cosine of an angle given in turns.
use vstd::prelude::*;
use crate::fixed::{fx_mul, lemma_fraction_of, lemma_fx_mul_monotonic, lemma_trunc_div_bounds, scaled, times, trunc_div, ONE};

verus! {

/// The angle of a full turn in radians: twice the circle constant.
pub const TWO_PI: i64 = 6_283_185;

/// Half a turn.
pub const HALF: i64 = 500_000;

/// A quarter of a turn.
pub const QUARTER: i64 = 250_000;

/// One minus a fraction `p` of `c`: one step of the cosine series in Horner
/// form.
pub open spec fn one_less(p: int, c: int) -> int {
    ONE - fx_mul(p, c)
}

/// The cosine of an angle of `u` turns, for at most a quarter of a turn: the
/// series `1 - z/2 (1 - z/12 (1 - z/30 (1 - z/56 (1 - z/90))))` in the square
/// `z` of the angle in radians.
pub open spec fn spec_cosine_first_quarter(u: int) -> int {
    let x = fx_mul(TWO_PI as int, u);
    let z = fx_mul(x, x);
    one_less(
        one_less(
            one_less(one_less(ONE - trunc_div(z, 90), trunc_div(z, 56)), trunc_div(z, 30)),
            trunc_div(z, 12),
        ),
        trunc_div(z, 2),
    )
}

/// The part of an angle in turns that is left when its whole turns are
/// taken away: at least zero and less than one.
pub open spec fn spec_turn(t: int) -> int {
    t % (ONE as int)
}

/// The cosine of an angle of `t` turns: that of the angle within its turn,
/// mirrored into the first half turn, and there either the series or, past a
/// quarter turn, the negative of the series at what is left to the half turn.
pub open spec fn spec_cosine(t: int) -> int {
    let u = spec_turn(t);
    let v = if u > HALF {
        ONE - u
    } else {
        u
    };
    if v > QUARTER {
        -spec_cosine_first_quarter(HALF - v)
    } else {
        spec_cosine_first_quarter(v)
    }
}

/// The sine of an angle of `t` turns: the cosine a quarter of a turn earlier.
pub open spec fn spec_sine(t: int) -> int {
    spec_cosine(spec_turn(t) - QUARTER)
}

/// Within the first quarter turn the series stays between minus one and one,
/// and at an angle of zero it is one.
pub proof fn lemma_cosine_first_quarter_range(u: int)
    requires
        0 <= u <= QUARTER,
    ensures
        -ONE <= spec_cosine_first_quarter(u) <= ONE,
        spec_cosine_first_quarter(0) == ONE,
{
    let x = fx_mul(TWO_PI as int, u);
    lemma_fx_mul_monotonic(TWO_PI as int, u, TWO_PI as int, QUARTER as int);
    assert(6_283_185int * 250_000int == 1_570_796_250_000int);
    assert(fx_mul(TWO_PI as int, QUARTER as int) == 1_570_796);
    let z = fx_mul(x, x);
    lemma_fx_mul_monotonic(x, x, 1_570_796, 1_570_796);
    assert(1_570_796int * 1_570_796int == 2_467_400_073_616int);
    assert(fx_mul(1_570_796, 1_570_796) == 2_467_400);
    let term_5 = ONE - trunc_div(z, 90);
    let term_4 = one_less(term_5, trunc_div(z, 56));
    lemma_fraction_of(term_5, trunc_div(z, 56));
    let term_3 = one_less(term_4, trunc_div(z, 30));
    lemma_fraction_of(term_4, trunc_div(z, 30));
    let term_2 = one_less(term_3, trunc_div(z, 12));
    lemma_fraction_of(term_3, trunc_div(z, 12));
    lemma_fraction_of(term_2, trunc_div(z, 2));
    lemma_fx_mul_monotonic(0, 0, TWO_PI as int, 0);
    lemma_fx_mul_monotonic(0, 0, 0, 0);
    lemma_fraction_of(ONE as int, 0);
}

/// Returns the part of an angle in turns within its turn.
pub fn turn(t: i64) -> (u: i64)
    ensures
        u == spec_turn(t as int),
        0 <= u < ONE,
{
    let whole: i64 = t / ONE;
    let rest: i64 = t - whole * ONE;
    proof {
        lemma_trunc_div_bounds(t as int, ONE as int);
        if rest < 0 {
            assert(t == (whole - 1) * ONE + (rest + ONE)) by (nonlinear_arith)
                requires
                    rest == t - whole * ONE,
            ;
            vstd::arithmetic::div_mod::lemma_fundamental_div_mod_converse(
                t as int,
                ONE as int,
                whole - 1,
                rest + ONE,
            );
        } else {
            vstd::arithmetic::div_mod::lemma_fundamental_div_mod_converse(
                t as int,
                ONE as int,
                whole as int,
                rest as int,
            );
        }
    }
    if rest < 0 {
        rest + ONE
    } else {
        rest
    }
}

/// The series of the cosine within the first quarter turn.
fn cosine_first_quarter(u: i64) -> (c: i64)
    requires
        0 <= u <= QUARTER,
    ensures
        c == spec_cosine_first_quarter(u as int),
        -ONE <= c <= ONE,
{
    proof {
        lemma_cosine_first_quarter_range(u as int);
        lemma_fx_mul_monotonic(TWO_PI as int, u as int, TWO_PI as int, QUARTER as int);
        assert(6_283_185int * 250_000int == 1_570_796_250_000int);
        assert(fx_mul(TWO_PI as int, QUARTER as int) == 1_570_796);
    }
    let x: i64 = times(TWO_PI, u) as i64;
    proof {
        lemma_fx_mul_monotonic(x as int, x as int, 1_570_796, 1_570_796);
        assert(1_570_796int * 1_570_796int == 2_467_400_073_616int);
        assert(fx_mul(1_570_796, 1_570_796) == 2_467_400);
    }
    let z: i64 = scaled(x, x);
    let term_5: i64 = ONE - z / 90;
    proof {
        lemma_fraction_of(term_5 as int, trunc_div(z as int, 56));
    }
    let term_4: i64 = ONE - scaled(term_5, z / 56);
    proof {
        lemma_fraction_of(term_4 as int, trunc_div(z as int, 30));
    }
    let term_3: i64 = ONE - scaled(term_4, z / 30);
    proof {
        lemma_fraction_of(term_3 as int, trunc_div(z as int, 12));
    }
    let term_2: i64 = ONE - scaled(term_3, z / 12);
    ONE - scaled(term_2, z / 2)
}

/// Returns the cosine of an angle of `t` turns.
pub fn cosine(t: i64) -> (c: i64)
    ensures
        c == spec_cosine(t as int),
        -ONE <= c <= ONE,
{
    let u: i64 = turn(t);
    let v: i64 = if u > HALF {
        ONE - u
    } else {
        u
    };
    if v > QUARTER {
        -cosine_first_quarter(HALF - v)
    } else {
        cosine_first_quarter(v)
    }
}

/// Returns the sine of an angle of `t` turns.
pub fn sine(t: i64) -> (s: i64)
    ensures
        s == spec_sine(t as int),
        -ONE <= s <= ONE,
{
    cosine(turn(t) - QUARTER)
}

} // verus!
