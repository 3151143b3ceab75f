//! Fixed-point arithmetic: an integer `v` stands for the number `v / ONE`.
use vstd::prelude::*;

verus! {

/// The integer that stands for the number one.
pub const ONE: i64 = 1_000_000;

/// The largest magnitude that a stored wave amplitude can have.
pub const AMPLITUDE_MAX: i64 = 1_000_000_000_000;

/// The quotient of `n` by a positive `d`, rounded toward zero.
pub open spec fn trunc_div(n: int, d: int) -> int {
    if n >= 0 {
        n / d
    } else {
        -((-n) / d)
    }
}

/// The fixed-point product of `a` and `b`, rounded toward zero.
pub open spec fn fx_mul(a: int, b: int) -> int {
    trunc_div(a * b, ONE as int)
}

/// The fixed-point quotient of `a` by a positive `b`, rounded toward zero.
pub open spec fn fx_div(a: int, b: int) -> int {
    trunc_div(a * ONE, b)
}

/// `x` limited to the range of stored amplitudes.
pub open spec fn saturate(x: int) -> int {
    if x > AMPLITUDE_MAX {
        AMPLITUDE_MAX as int
    } else if x < -AMPLITUDE_MAX {
        -AMPLITUDE_MAX
    } else {
        x
    }
}

/// The magnitude of `x`.
pub open spec fn magnitude(x: int) -> int {
    if x >= 0 {
        x
    } else {
        -x
    }
}

/// Rounding toward zero never moves a quotient away from zero, and keeps its sign.
pub proof fn lemma_trunc_div_bounds(n: int, d: int)
    requires
        d > 0,
    ensures
        magnitude(trunc_div(n, d)) * d <= magnitude(n),
        magnitude(n) < (magnitude(trunc_div(n, d)) + 1) * d,
        n >= 0 ==> trunc_div(n, d) >= 0,
        n <= 0 ==> trunc_div(n, d) <= 0,
        trunc_div(-n, d) == -trunc_div(n, d),
{
    let m = magnitude(n);
    assert(m == d * (m / d) + m % d) by {
        vstd::arithmetic::div_mod::lemma_fundamental_div_mod(m, d);
    }
    assert(0 <= m % d < d) by {
        vstd::arithmetic::div_mod::lemma_mod_bound(m, d);
    }
    assert(m / d >= 0) by {
        vstd::arithmetic::div_mod::lemma_div_pos_is_pos(m, d);
    }
    assert((m / d) * d == d * (m / d)) by (nonlinear_arith);
    assert((m / d + 1) * d == d * (m / d) + d) by (nonlinear_arith);
}

/// A fixed-point product is no larger in magnitude than the exact one.
pub proof fn lemma_fx_mul_bound(a: int, b: int, bound_a: int, bound_b: int)
    requires
        magnitude(a) <= bound_a,
        magnitude(b) <= bound_b,
    ensures
        magnitude(fx_mul(a, b)) * ONE <= bound_a * bound_b,
        a == 0 || b == 0 ==> fx_mul(a, b) == 0,
        fx_mul(-a, b) == -fx_mul(a, b),
        fx_mul(a, -b) == -fx_mul(a, b),
{
    lemma_trunc_div_bounds(a * b, ONE as int);
    assert(magnitude(a * b) <= bound_a * bound_b) by (nonlinear_arith)
        requires
            magnitude(a) <= bound_a,
            magnitude(b) <= bound_b,
    ;
    assert((-a) * b == -(a * b)) by (nonlinear_arith);
    assert(a * (-b) == -(a * b)) by (nonlinear_arith);
    assert(a == 0 || b == 0 ==> a * b == 0) by (nonlinear_arith);
}

/// A fraction of a non-negative number lies between zero and that number.
pub proof fn lemma_fraction_of(f: int, p: int)
    requires
        0 <= f <= ONE,
        0 <= p,
    ensures
        0 <= fx_mul(f, p) <= p,
        f == 0 ==> fx_mul(f, p) == 0,
{
    lemma_trunc_div_bounds(f * p, ONE as int);
    assert(0 <= f * p <= ONE * p) by (nonlinear_arith)
        requires
            0 <= f <= ONE,
            0 <= p,
    ;
    let q = fx_mul(f, p);
    assert(q <= p) by (nonlinear_arith)
        requires
            q * ONE <= ONE * p,
    ;
    assert(f == 0 ==> f * p == 0) by (nonlinear_arith);
}

/// Whether `r` is the square root of `n`, rounded down.
pub open spec fn is_root(n: int, r: int) -> bool {
    0 <= r && r * r <= n < (r + 1) * (r + 1)
}

/// The fixed-point square root of a non-negative `x`, rounded down.
pub open spec fn spec_sqrt(x: int) -> int {
    choose|r: int| #[trigger] is_root(x * ONE, r)
}

/// A number has at most one rounded-down square root.
pub proof fn lemma_root_unique(n: int, a: int, b: int)
    requires
        is_root(n, a),
        is_root(n, b),
    ensures
        a == b,
{
    if a < b {
        assert((a + 1) * (a + 1) <= b * b) by (nonlinear_arith)
            requires
                0 <= a,
                a + 1 <= b,
        ;
    } else if b < a {
        assert((b + 1) * (b + 1) <= a * a) by (nonlinear_arith)
            requires
                0 <= b,
                b + 1 <= a,
        ;
    }
}

/// Returns the square root of a non-negative fixed-point number, rounded
/// down.
pub fn sqrt(x: i64) -> (r: i64)
    requires
        0 <= x,
    ensures
        is_root(x * ONE, r as int),
        r == spec_sqrt(x as int),
        x == 0 ==> r == 0,
        x <= ONE ==> r <= ONE,
{
    assert(0 <= x * ONE <= 9_223_372_036_854_775_807_000_000) by (nonlinear_arith)
        requires
            0 <= x <= 9_223_372_036_854_775_807,
            ONE == 1_000_000,
    ;
    let n: i128 = (x as i128) * (ONE as i128);
    let mut low: i128 = 0;
    let mut high: i128 = 0x400_0000_0000;
    assert(high * high == 19_342_813_113_834_066_795_298_816) by (nonlinear_arith)
        requires
            high == 0x400_0000_0000,
    ;
    assert(low * low == 0) by (nonlinear_arith)
        requires
            low == 0,
    ;
    while high - low > 1
        invariant
            0 <= low < high <= 0x400_0000_0000,
            low * low <= n < high * high,
            0 <= n,
        decreases high - low,
    {
        let middle: i128 = low + (high - low) / 2;
        assert(0 <= middle * middle <= 0x400_0000_0000 * 0x400_0000_0000) by (nonlinear_arith)
            requires
                0 <= middle <= 0x400_0000_0000,
        ;
        if middle * middle <= n {
            low = middle;
        } else {
            high = middle;
        }
    }
    proof {
        assert(is_root(n as int, low as int));
        let chosen = spec_sqrt(x as int);
        assert(is_root(x * ONE, chosen));
        lemma_root_unique(n as int, low as int, chosen);
        if x == 0 {
            assert(n == 0) by (nonlinear_arith)
                requires
                    n == x * ONE,
                    x == 0,
            ;
            assert(low == 0) by (nonlinear_arith)
                requires
                    0 <= low,
                    low * low <= 0,
            ;
        }
        if x <= ONE {
            assert(n <= ONE * ONE) by (nonlinear_arith)
                requires
                    n == x * ONE,
                    x <= ONE,
                    ONE == 1_000_000,
            ;
            assert(low <= ONE) by (nonlinear_arith)
                requires
                    0 <= low,
                    low * low <= n,
                    n <= ONE * ONE,
                    ONE == 1_000_000,
            ;
        }
    }
    low as i64
}

/// Multiplies two fixed-point numbers.
pub fn times(a: i64, b: i64) -> (r: i128)
    ensures
        r == fx_mul(a as int, b as int),
{
    let wide_a: i128 = a as i128;
    let wide_b: i128 = b as i128;
    assert(-0x4000_0000_0000_0000_0000_0000_0000_0000 <= wide_a * wide_b
        <= 0x4000_0000_0000_0000_0000_0000_0000_0000) by (nonlinear_arith)
        requires
            -0x8000_0000_0000_0000 <= wide_a <= 0x8000_0000_0000_0000,
            -0x8000_0000_0000_0000 <= wide_b <= 0x8000_0000_0000_0000,
    ;
    let product: i128 = wide_a * wide_b;
    product / (ONE as i128)
}

/// Multiplies an amplitude, or a sum of a few, by a coefficient of magnitude
/// at most two.
pub fn scaled(k: i64, x: i64) -> (r: i64)
    requires
        -2 * ONE <= k <= 2 * ONE,
        -4 * AMPLITUDE_MAX <= x <= 4 * AMPLITUDE_MAX,
    ensures
        r == fx_mul(k as int, x as int),
        magnitude(r as int) <= 2 * magnitude(x as int),
        -ONE <= k <= ONE ==> magnitude(r as int) <= magnitude(x as int),
        x == 0 ==> r == 0,
        k >= 0 && x >= 0 ==> r >= 0,
{
    proof {
        let q = magnitude(fx_mul(k as int, x as int));
        lemma_trunc_div_bounds(k * x, ONE as int);
        assert(k >= 0 && x >= 0 ==> k * x >= 0) by (nonlinear_arith);
        lemma_fx_mul_bound(k as int, x as int, 2 * ONE, magnitude(x as int));
        assert(q <= 2 * magnitude(x as int)) by (nonlinear_arith)
            requires
                q * ONE <= (2 * ONE) * magnitude(x as int),
        ;
        if -ONE <= k <= ONE {
            lemma_fx_mul_bound(k as int, x as int, ONE as int, magnitude(x as int));
            assert(q <= magnitude(x as int)) by (nonlinear_arith)
                requires
                    q * ONE <= ONE * magnitude(x as int),
            ;
        }
    }
    let wide: i128 = times(k, x);
    wide as i64
}

/// Multiplying by zero gives zero, and multiplying by one changes nothing.
pub proof fn lemma_fx_mul_by_zero_and_one(x: int)
    ensures
        fx_mul(0, x) == 0,
        fx_mul(x, 0) == 0,
        fx_mul(ONE as int, x) == x,
{
    assert(0 * x == 0 && x * 0 == 0) by (nonlinear_arith);
    let m = magnitude(x);
    assert(ONE * x == x * ONE && ONE * (-x) == (-x) * ONE && -(ONE * x) == (-x) * ONE)
        by (nonlinear_arith);
    vstd::arithmetic::div_mod::lemma_div_multiples_vanish(m, ONE as int);
    assert(ONE * x >= 0 <==> x >= 0) by (nonlinear_arith);
}

/// Between non-negative numbers the fixed-point product grows with either
/// factor.
pub proof fn lemma_fx_mul_monotonic(a: int, b: int, c: int, d: int)
    requires
        0 <= a <= c,
        0 <= b <= d,
    ensures
        0 <= fx_mul(a, b) <= fx_mul(c, d),
{
    assert(0 <= a * b <= c * d) by (nonlinear_arith)
        requires
            0 <= a <= c,
            0 <= b <= d,
    ;
    vstd::arithmetic::div_mod::lemma_div_is_ordered(a * b, c * d, ONE as int);
    vstd::arithmetic::div_mod::lemma_div_is_ordered(0, a * b, ONE as int);
}

/// Divides a fixed-point number by a positive one.
pub fn quotient(a: i64, b: i64) -> (r: i64)
    requires
        -8 * AMPLITUDE_MAX <= a <= 8 * AMPLITUDE_MAX,
        0 < b,
    ensures
        r == fx_div(a as int, b as int),
        magnitude(r as int) <= magnitude(a as int) * ONE,
        a >= 0 ==> r >= 0,
{
    let wide: i128 = a as i128;
    assert(wide * ONE == a * 1_000_000) by (nonlinear_arith)
        requires
            wide == a,
            ONE == 1_000_000,
    ;
    let scaled_up: i128 = wide * (ONE as i128);
    proof {
        lemma_trunc_div_bounds(scaled_up as int, b as int);
        let q = magnitude(trunc_div(scaled_up as int, b as int));
        assert(q <= magnitude(scaled_up as int)) by (nonlinear_arith)
            requires
                q * b <= magnitude(scaled_up as int),
                b >= 1,
                q >= 0,
        ;
    }
    (scaled_up / (b as i128)) as i64
}

/// Limits a wide value to the range of stored amplitudes.
pub fn clip(x: i128) -> (r: i64)
    ensures
        r == saturate(x as int),
        -AMPLITUDE_MAX <= r <= AMPLITUDE_MAX,
{
    if x > AMPLITUDE_MAX as i128 {
        AMPLITUDE_MAX
    } else if x < -(AMPLITUDE_MAX as i128) {
        -AMPLITUDE_MAX
    } else {
        x as i64
    }
}

} // verus!
