//! Tube geometry: cross-sections and the reflection between two of them.
use vstd::prelude::*;
use crate::fixed::{fx_div, lemma_trunc_div_bounds, magnitude, trunc_div, ONE};
use crate::power::{exp2, lemma_exp2_of_negative, spec_exp2};

verus! {

/// The circle constant, in millionths.
pub const PI: i64 = 3_141_593;

/// The largest diameter magnitude that a section can have.
pub const DIAMETER_MAX: i64 = 1_000_000_000;

/// The largest area that a section of an admissible diameter can have.
pub const AREA_MAX: i64 = 785_398_250_000;

/// Four times the square of `ONE`: what the square of a diameter, times `PI`,
/// is divided by to give an area in millionths.
pub const AREA_DIVISOR: i64 = 4_000_000_000_000;

/// The area of a circle of the given diameter: `PI * d * d / 4`, rounded down.
pub open spec fn spec_circle_area(diameter: int) -> int {
    (PI * (diameter * diameter)) / (AREA_DIVISOR as int)
}

/// The reflection coefficient between two adjoining areas:
/// `(a1 - a2) / (a1 + a2)`, rounded toward zero.
pub open spec fn spec_kelly_lochbaum(a1: int, a2: int) -> int {
    if a1 + a2 > 0 {
        fx_div(a1 - a2, a1 + a2)
    } else {
        -fx_div(a1 - a2, -(a1 + a2))
    }
}

/// The easing curve: zero at zero, and elsewhere two to the power `10 x - 10`.
pub open spec fn spec_ease(x: int) -> int {
    if x == 0 {
        0
    } else {
        spec_exp2(10 * x - 10 * ONE)
    }
}

/// The smaller of two numbers.
pub open spec fn spec_min(a: int, b: int) -> int {
    if a < b {
        a
    } else {
        b
    }
}

/// The area of a circle never decreases as a non-negative diameter grows,
/// and is zero for a diameter of zero.
pub proof fn lemma_circle_area_monotonic(d1: int, d2: int)
    requires
        0 <= d1 <= d2,
    ensures
        spec_circle_area(0) == 0,
        0 <= spec_circle_area(d1) <= spec_circle_area(d2),
{
    assert(0 <= d1 * d1 <= d2 * d2) by (nonlinear_arith)
        requires
            0 <= d1 <= d2,
    ;
    assert(0 <= PI * (d1 * d1) <= PI * (d2 * d2)) by (nonlinear_arith)
        requires
            0 <= d1 * d1 <= d2 * d2,
    ;
    let den = AREA_DIVISOR as int;
    vstd::arithmetic::div_mod::lemma_div_is_ordered(PI * (d1 * d1), PI * (d2 * d2), den);
    vstd::arithmetic::div_mod::lemma_div_is_ordered(0, PI * (d1 * d1), den);
    assert(0int * 0int == 0);
}

/// The area of a circle grows strictly with the diameter wherever the
/// exact areas differ by at least the millionth that an area is rounded to.
pub proof fn lemma_circle_area_strictly_monotonic(d1: int, d2: int)
    requires
        0 <= d1 <= d2,
        PI * (d2 * d2) - PI * (d1 * d1) >= AREA_DIVISOR,
    ensures
        spec_circle_area(d1) < spec_circle_area(d2),
{
    let low = PI * (d1 * d1);
    let high = PI * (d2 * d2);
    let den = AREA_DIVISOR as int;
    assert(0 <= low) by (nonlinear_arith)
        requires
            low == PI * (d1 * d1),
            PI == 3_141_593,
    ;
    vstd::arithmetic::div_mod::lemma_div_is_ordered(low + den, high, den);
    vstd::arithmetic::div_mod::lemma_div_plus_one(low, den);
}

/// An admissible diameter has an area between zero and `AREA_MAX`.
pub proof fn lemma_circle_area_range(d: int)
    requires
        -DIAMETER_MAX <= d <= DIAMETER_MAX,
    ensures
        0 <= spec_circle_area(d) <= AREA_MAX,
{
    let m = magnitude(d);
    assert(d * d == m * m) by (nonlinear_arith)
        requires
            m == d || m == -d,
    ;
    lemma_circle_area_monotonic(m, DIAMETER_MAX as int);
    assert(DIAMETER_MAX * DIAMETER_MAX == 1_000_000_000_000_000_000int) by (nonlinear_arith);
    assert(PI * (DIAMETER_MAX * DIAMETER_MAX) == 3_141_593_000_000_000_000_000_000int);
    assert(spec_circle_area(DIAMETER_MAX as int) == AREA_MAX);
}

/// Between two positive areas the reflection coefficient lies strictly
/// between minus one and one.
pub proof fn lemma_reflection_within_unit(a1: int, a2: int)
    requires
        a1 > 0,
        a2 > 0,
    ensures
        -ONE < spec_kelly_lochbaum(a1, a2) < ONE,
{
    let n = (a1 - a2) * ONE;
    let d = a1 + a2;
    lemma_trunc_div_bounds(n, d);
    let q = magnitude(trunc_div(n, d));
    assert(magnitude(n) < d * ONE) by (nonlinear_arith)
        requires
            n == (a1 - a2) * ONE,
            d == a1 + a2,
            a1 > 0,
            a2 > 0,
    ;
    assert(q < ONE) by (nonlinear_arith)
        requires
            q * d <= magnitude(n),
            magnitude(n) < d * ONE,
            d > 0,
    ;
}

/// Returns the circular cross-sectional area for a given diameter.
pub fn circle_area(diameter: i64) -> (area: i64)
    requires
        -DIAMETER_MAX <= diameter <= DIAMETER_MAX,
    ensures
        area == spec_circle_area(diameter as int),
        0 <= area <= AREA_MAX,
{
    proof {
        lemma_circle_area_range(diameter as int);
    }
    let d: i128 = diameter as i128;
    assert(0 <= d * d <= 1_000_000_000_000_000_000) by (nonlinear_arith)
        requires
            -1_000_000_000 <= d <= 1_000_000_000,
    ;
    let square: i128 = d * d;
    let scaled: i128 = (PI as i128) * square;
    let area: i128 = scaled / (AREA_DIVISOR as i128);
    area as i64
}

/// Returns the coefficient of reflection between two cross-sectional areas.
///
/// The coefficient is undefined where the areas sum to zero.
pub fn kelly_lochbaum(a1: i64, a2: i64) -> (k: i64)
    requires
        -AREA_MAX <= a1 <= AREA_MAX,
        -AREA_MAX <= a2 <= AREA_MAX,
        a1 + a2 != 0,
    ensures
        k == spec_kelly_lochbaum(a1 as int, a2 as int),
        a1 > 0 && a2 > 0 ==> -ONE < k < ONE,
        a1 >= 0 && a2 >= 0 ==> -ONE <= k <= ONE,
{
    let difference: i128 = (a1 as i128) - (a2 as i128);
    let sum: i128 = (a1 as i128) + (a2 as i128);
    assert(-1_570_796_500_000_000_000 <= difference * (ONE as i128) <= 1_570_796_500_000_000_000)
        by (nonlinear_arith)
        requires
            -1_570_796_500_000 <= difference <= 1_570_796_500_000,
            ONE == 1_000_000,
    ;
    let scaled: i128 = difference * (ONE as i128);
    proof {
        if a1 > 0 && a2 > 0 {
            lemma_reflection_within_unit(a1 as int, a2 as int);
        }
        let divisor: int = if sum > 0 { sum as int } else { -sum as int };
        lemma_trunc_div_bounds(scaled as int, divisor);
        let q = magnitude(trunc_div(scaled as int, divisor));
        assert(q <= magnitude(scaled as int)) by (nonlinear_arith)
            requires
                q * divisor <= magnitude(scaled as int),
                divisor >= 1,
                q >= 0,
        ;
        if a1 >= 0 && a2 >= 0 {
            assert(magnitude(scaled as int) <= divisor * ONE) by (nonlinear_arith)
                requires
                    scaled == difference * ONE,
                    -divisor <= difference <= divisor,
            ;
            assert(q <= ONE) by (nonlinear_arith)
                requires
                    q * divisor <= magnitude(scaled as int),
                    magnitude(scaled as int) <= divisor * ONE,
                    divisor >= 1,
            ;
        }
    }
    if sum > 0 {
        (scaled / sum) as i64
    } else {
        let quotient: i128 = scaled / (-sum);
        (-quotient) as i64
    }
}

/// Returns an eased value: within zero and one for an argument within zero
/// and one.
pub fn ease(x: i64) -> (r: i64)
    requires
        x <= 3 * ONE,
    ensures
        r == spec_ease(x as int),
        0 <= x <= ONE ==> 0 <= r <= ONE,
        x == ONE ==> r == ONE,
{
    if x == 0 {
        0
    } else if x < -2 * ONE {
        proof {
            lemma_exp2_of_negative(10 * x - 10 * ONE);
        }
        0
    } else {
        proof {
            if x <= ONE {
                lemma_exp2_of_negative(10 * x - 10 * ONE);
            }
        }
        exp2(10 * x - 10 * ONE)
    }
}

/// Returns the smaller of two numbers.
pub fn min(a: i64, b: i64) -> (r: i64)
    ensures
        r == spec_min(a as int, b as int),
{
    if a < b {
        a
    } else {
        b
    }
}

} // verus!
