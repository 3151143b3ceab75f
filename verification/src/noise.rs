//! Noise sources: uniform and bell-shaped samples drawn from random bits.
use vstd::prelude::*;
use crate::fixed::ONE;

verus! {

/// The number of values that the 53 bits kept of a draw can take.
pub const DRAW_RANGE: u64 = 0x20_0000_0000_0000;

/// The sample that a draw of 64 random bits stands for: its upper 53 bits as
/// a fraction of their range, in millionths, rounded down.
pub open spec fn spec_unit_noise(bits: int) -> int {
    ((bits / 2048) * ONE) / (DRAW_RANGE as int)
}

/// The bell-shaped sample that the sum of sixteen uniform samples stands
/// for: the sum less its mean of eight, divided by four and rounded toward
/// zero.
pub open spec fn spec_gaussian(sum: int) -> int {
    crate::fixed::trunc_div(sum - 8 * ONE, 4)
}

/// Draws 64 random bits from the generator of the thread, by `rand::random`.
/// Nothing is claimed of them.
#[verifier::external_body]
fn random_bits() -> (bits: u64) {
    rand::random::<u64>()
}

/// Turns a draw of random bits into a sample of at least zero and less than
/// one.
pub fn unit_noise(bits: u64) -> (x: i64)
    ensures
        x == spec_unit_noise(bits as int),
        0 <= x < ONE,
{
    let kept: u128 = (bits / 2048) as u128;
    assert(kept < 0x20_0000_0000_0000);
    assert(0 <= kept * 1_000_000 <= 0x20_0000_0000_0000 * 1_000_000 - 1_000_000);
    let scaled: u128 = kept * (ONE as u128);
    proof {
        assert(scaled < DRAW_RANGE * ONE);
        vstd::arithmetic::div_mod::lemma_multiply_divide_lt(
            scaled as int,
            DRAW_RANGE as int,
            ONE as int,
        );
    }
    (scaled / (DRAW_RANGE as u128)) as i64
}

/// Returns a sample of white noise: at least zero and less than one.
pub fn white_noise() -> (x: i64)
    ensures
        0 <= x < ONE,
{
    unit_noise(random_bits())
}

/// Turns the sum of sixteen uniform samples into a bell-shaped sample.
pub fn gaussian_from(sum: i64) -> (x: i64)
    requires
        0 <= sum <= 16 * ONE,
    ensures
        x == spec_gaussian(sum as int),
        -2 * ONE <= x <= 2 * ONE,
{
    (sum - 8 * ONE) / 4
}

/// Returns a sample of bell-shaped noise, between minus two and two.
pub fn gaussian_noise() -> (x: i64)
    ensures
        -2 * ONE <= x <= 2 * ONE,
{
    let mut sum: i64 = 0;
    let mut c: usize = 0;
    while c < 16
        invariant
            c <= 16,
            0 <= sum <= c * ONE,
        decreases 16 - c,
    {
        sum = sum + white_noise();
        c = c + 1;
    }
    gaussian_from(sum)
}

} // verus!
