//! The nasopharyngeal junction, where the nasal cavity branches off the oral one.
use vstd::prelude::*;
use crate::fixed::{fx_div, lemma_trunc_div_bounds, magnitude, ONE};
use crate::geometry::{AREA_MAX, DIAMETER_MAX};

verus! {

/// The nasopharyngeal junction.
#[derive(Clone, Copy, Debug)]
pub struct Velum {
    pub k_right: i64,
    pub k_left: i64,
    pub k_nose: i64,
    pub target_diameter: i64,
    pub max_diameter: i64,
}

/// The reflection coefficient of one branch of a junction of three tubes:
/// `(2 * area - sum) / sum`, where `sum` is the area of all three together.
pub open spec fn spec_port_coefficient(area: int, sum: int) -> int {
    fx_div(2 * area - sum, sum)
}

/// A branch that is part of the junction reflects with a coefficient between
/// minus one and one; a closed branch reflects everything, inverted.
pub proof fn lemma_port_coefficient_range(area: int, sum: int)
    requires
        0 <= area <= sum,
        0 < sum,
    ensures
        -ONE <= spec_port_coefficient(area, sum) <= ONE,
        area == 0 ==> spec_port_coefficient(area, sum) == -ONE,
{
    let n = (2 * area - sum) * ONE;
    lemma_trunc_div_bounds(n, sum);
    let q = magnitude(fx_div(2 * area - sum, sum));
    assert(magnitude(n) <= sum * ONE) by (nonlinear_arith)
        requires
            n == (2 * area - sum) * ONE,
            0 <= area <= sum,
    ;
    assert(q <= ONE) by (nonlinear_arith)
        requires
            q * sum <= magnitude(n),
            magnitude(n) <= sum * ONE,
            sum > 0,
    ;
    if area == 0 {
        assert(magnitude(n) == sum * ONE) by (nonlinear_arith)
            requires
                n == (0 - sum) * ONE,
                sum > 0,
        ;
        assert(q == ONE) by (nonlinear_arith)
            requires
                q * sum <= sum * ONE,
                sum * ONE < (q + 1) * sum,
                sum > 0,
        ;
    }
}

impl Velum {
    /// The coefficients are between minus one and one, and the port's
    /// diameter is one that a section can have.
    pub open spec fn wf(self) -> bool {
        &&& -ONE <= self.k_right <= ONE
        &&& -ONE <= self.k_left <= ONE
        &&& -ONE <= self.k_nose <= ONE
        &&& -DIAMETER_MAX <= self.target_diameter <= DIAMETER_MAX
    }

    /// A junction that reflects nothing yet, with the given port opening.
    pub fn new(target_diameter: i64, max_diameter: i64) -> (velum: Velum)
        ensures
            velum == (Velum { k_right: 0, k_left: 0, k_nose: 0, target_diameter, max_diameter }),
    {
        Velum { k_right: 0, k_left: 0, k_nose: 0, target_diameter, max_diameter }
    }
}

/// Returns the reflection coefficient of one branch of a junction of three
/// tubes whose areas sum to `sum`.
pub fn port_coefficient(area: i64, sum: i64) -> (k: i64)
    requires
        0 <= area <= sum,
        0 < sum <= 3 * AREA_MAX,
    ensures
        k == spec_port_coefficient(area as int, sum as int),
        -ONE <= k <= ONE,
{
    proof {
        lemma_port_coefficient_range(area as int, sum as int);
    }
    let excess: i128 = 2 * (area as i128) - (sum as i128);
    assert(-2_356_194_750_000_000_000 <= excess * (ONE as i128) <= 2_356_194_750_000_000_000)
        by (nonlinear_arith)
        requires
            -2_356_194_750_000 <= excess <= 2_356_194_750_000,
            ONE == 1_000_000,
    ;
    let scaled: i128 = excess * (ONE as i128);
    (scaled / (sum as i128)) as i64
}

} // verus!
