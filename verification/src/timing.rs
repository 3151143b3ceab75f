//! The Liljencrants-Fant model of the glottal pulse: the timing of its
//! phases, derived from the tenseness of the vocal folds.
use vstd::prelude::*;
use crate::fixed::{fx_div, fx_mul, lemma_fx_mul_monotonic, lemma_trunc_div_bounds, quotient, scaled, times, trunc_div, ONE};

verus! {

/// The timing of one glottal cycle, normalised to a period of one.
#[derive(Clone, Copy, Debug, PartialEq, Eq)]
pub struct LfTiming {
    /// The shape parameter, from 0.5 (tense) to 2.7 (lax).
    pub rd: i64,
    pub ra: i64,
    pub rk: i64,
    pub rg: i64,
    /// The time constant of the return phase.
    pub ta: i64,
    /// The instant of maximum glottal flow.
    pub tp: i64,
    /// The instant of the main excitation.
    pub te: i64,
    /// The decay rate of the return phase: one over `ta`.
    pub epsilon: i64,
}

impl LfTiming {
    /// The two instants lie within the cycle, in their order and not too
    /// early, and the return phase decays neither too slowly nor too fast.
    pub open spec fn wf(self) -> bool {
        &&& 70_000 <= self.tp < self.te < ONE
        &&& ONE <= self.epsilon <= 72 * ONE
    }
}

/// The shape parameter: `0.5 + 2.2 (1 - tenseness)`.
pub open spec fn spec_rd(tenseness: int) -> int {
    500_000 + fx_mul(2_200_000, ONE - tenseness)
}

/// `-0.01 + 0.048 rd`.
pub open spec fn spec_ra(rd: int) -> int {
    -10_000 + fx_mul(48_000, rd)
}

/// `0.224 + 0.118 rd`.
pub open spec fn spec_rk(rd: int) -> int {
    224_000 + fx_mul(118_000, rd)
}

/// `0.5 + 1.2 rk`, which both parts of `rg` hold.
pub open spec fn spec_skew(rd: int) -> int {
    500_000 + fx_mul(1_200_000, spec_rk(rd))
}

/// What `rg` is the quotient of: `(rk / 4) (0.5 + 1.2 rk)`.
pub open spec fn spec_rg_upper(rd: int) -> int {
    fx_mul(trunc_div(spec_rk(rd), 4), spec_skew(rd))
}

/// What `rg` is divided by: `0.11 rd - ra (0.5 + 1.2 rk)`.
pub open spec fn spec_rg_lower(rd: int) -> int {
    fx_mul(110_000, rd) - fx_mul(spec_ra(rd), spec_skew(rd))
}

/// `rg`, the quotient of the two.
pub open spec fn spec_rg(rd: int) -> int {
    fx_div(spec_rg_upper(rd), spec_rg_lower(rd))
}

/// The instant of maximum flow: `1 / (2 rg)`.
pub open spec fn spec_tp(rd: int) -> int {
    fx_div(ONE as int, 2 * spec_rg(rd))
}

/// The instant of the main excitation: `tp + tp rk`.
pub open spec fn spec_te(rd: int) -> int {
    spec_tp(rd) + fx_mul(spec_tp(rd), spec_rk(rd))
}

/// The timing that a tenseness gives.
pub open spec fn spec_lf_timing(tenseness: int) -> LfTiming {
    let rd = spec_rd(tenseness);
    LfTiming {
        rd: rd as i64,
        ra: spec_ra(rd) as i64,
        rk: spec_rk(rd) as i64,
        rg: spec_rg(rd) as i64,
        ta: spec_ra(rd) as i64,
        tp: spec_tp(rd) as i64,
        te: spec_te(rd) as i64,
        epsilon: fx_div(ONE as int, spec_ra(rd)) as i64,
    }
}

/// Within the range `low ..= high` of the shape parameter, the divisor of
/// `rg` is at least what its growing part gives at `low` and its shrinking
/// part at `high`, and the dividend at least what it is at `low`.
proof fn lemma_rg_parts_on_range(rd: int, low: int, high: int)
    requires
        500_000 <= low <= rd <= high,
    ensures
        spec_rg_lower(rd) >= fx_mul(110_000, low) - fx_mul(spec_ra(high), spec_skew(high)),
        spec_rg_upper(rd) >= spec_rg_upper(low),
        0 < spec_ra(low) <= spec_ra(rd) <= spec_ra(high),
        0 < spec_rk(low) <= spec_rk(rd) <= spec_rk(high),
{
    lemma_fx_mul_monotonic(110_000, low, 110_000, rd);
    lemma_fx_mul_monotonic(48_000, 500_000, 48_000, low);
    lemma_fx_mul_monotonic(48_000, low, 48_000, rd);
    lemma_fx_mul_monotonic(48_000, rd, 48_000, high);
    lemma_fx_mul_monotonic(118_000, low, 118_000, rd);
    lemma_fx_mul_monotonic(118_000, rd, 118_000, high);
    lemma_fx_mul_monotonic(1_200_000, spec_rk(low), 1_200_000, spec_rk(rd));
    lemma_fx_mul_monotonic(1_200_000, spec_rk(rd), 1_200_000, spec_rk(high));
    assert(48_000int * 500_000int == 24_000_000_000int);
    assert(fx_mul(48_000, 500_000) == 24_000);
    lemma_fx_mul_monotonic(spec_ra(rd), spec_skew(rd), spec_ra(high), spec_skew(high));
    vstd::arithmetic::div_mod::lemma_div_is_ordered(spec_rk(low), spec_rk(rd), 4);
    lemma_fx_mul_monotonic(
        trunc_div(spec_rk(low), 4),
        spec_skew(low),
        trunc_div(spec_rk(rd), 4),
        spec_skew(rd),
    );
}

/// For every tenseness between zero and one the parameters of the model are
/// defined: the shape parameter lies within 0.5 and 2.7, and neither `rg` nor
/// what it is divided by, nor the time constant of the return phase, is zero
/// or less.
pub proof fn lemma_lf_timing_defined(tenseness: int)
    requires
        0 <= tenseness <= ONE,
    ensures
        500_000 <= spec_rd(tenseness) <= 2_700_000,
        14_000 <= spec_ra(spec_rd(tenseness)) <= 119_600,
        283_000 <= spec_rk(spec_rd(tenseness)) <= 542_600,
        30_000 <= spec_rg_lower(spec_rd(tenseness)) <= 297_000,
        59_000 <= spec_rg_upper(spec_rd(tenseness)) <= 200_000,
        0 < spec_rg(spec_rd(tenseness)) <= 7 * ONE,
        8_361_204 <= fx_div(ONE as int, spec_ra(spec_rd(tenseness))) <= 71_428_571,
{
    assert(ONE * ONE == 1_000_000_000_000) by (nonlinear_arith)
        requires
            ONE == 1_000_000,
    ;
    let rd = spec_rd(tenseness);
    lemma_fx_mul_monotonic(2_200_000, ONE - tenseness, 2_200_000, ONE as int);
    assert(fx_mul(2_200_000, ONE as int) == 2_200_000);
    if rd <= 700_000 {
        lemma_rg_parts_on_range(rd, 500_000, 700_000);
        assert(48_000int * 700_000int == 33_600_000_000int);
        assert(fx_mul(48_000, 700_000) == 33_600);
        assert(118_000int * 700_000int == 82_600_000_000int);
        assert(fx_mul(118_000, 700_000) == 82_600);
        assert(1_200_000int * 306_600int == 367_920_000_000int);
        assert(fx_mul(1_200_000, 306_600) == 367_920);
        assert(23_600int * 867_920int == 20_482_912_000int);
        assert(fx_mul(23_600, 867_920) == 20_482);
        assert(110_000int * 500_000int == 55_000_000_000int);
        assert(fx_mul(110_000, 500_000) == 55_000);
    } else if rd <= 1_000_000 {
        lemma_rg_parts_on_range(rd, 700_000, 1_000_000);
        assert(48_000int * 1_000_000int == 48_000_000_000int);
        assert(fx_mul(48_000, 1_000_000) == 48_000);
        assert(118_000int * 1_000_000int == 118_000_000_000int);
        assert(fx_mul(118_000, 1_000_000) == 118_000);
        assert(1_200_000int * 342_000int == 410_400_000_000int);
        assert(fx_mul(1_200_000, 342_000) == 410_400);
        assert(38_000int * 910_400int == 34_595_200_000int);
        assert(fx_mul(38_000, 910_400) == 34_595);
        assert(110_000int * 700_000int == 77_000_000_000int);
        assert(fx_mul(110_000, 700_000) == 77_000);
    } else if rd <= 1_500_000 {
        lemma_rg_parts_on_range(rd, 1_000_000, 1_500_000);
        assert(48_000int * 1_500_000int == 72_000_000_000int);
        assert(fx_mul(48_000, 1_500_000) == 72_000);
        assert(118_000int * 1_500_000int == 177_000_000_000int);
        assert(fx_mul(118_000, 1_500_000) == 177_000);
        assert(1_200_000int * 401_000int == 481_200_000_000int);
        assert(fx_mul(1_200_000, 401_000) == 481_200);
        assert(62_000int * 981_200int == 60_834_400_000int);
        assert(fx_mul(62_000, 981_200) == 60_834);
        assert(110_000int * 1_000_000int == 110_000_000_000int);
        assert(fx_mul(110_000, 1_000_000) == 110_000);
    } else if rd <= 2_200_000 {
        lemma_rg_parts_on_range(rd, 1_500_000, 2_200_000);
        assert(48_000int * 2_200_000int == 105_600_000_000int);
        assert(fx_mul(48_000, 2_200_000) == 105_600);
        assert(118_000int * 2_200_000int == 259_600_000_000int);
        assert(fx_mul(118_000, 2_200_000) == 259_600);
        assert(1_200_000int * 483_600int == 580_320_000_000int);
        assert(fx_mul(1_200_000, 483_600) == 580_320);
        assert(95_600int * 1_080_320int == 103_278_592_000int);
        assert(fx_mul(95_600, 1_080_320) == 103_278);
        assert(110_000int * 1_500_000int == 165_000_000_000int);
        assert(fx_mul(110_000, 1_500_000) == 165_000);
    } else {
        lemma_rg_parts_on_range(rd, 2_200_000, 2_700_000);
        assert(48_000int * 2_700_000int == 129_600_000_000int);
        assert(fx_mul(48_000, 2_700_000) == 129_600);
        assert(118_000int * 2_700_000int == 318_600_000_000int);
        assert(fx_mul(118_000, 2_700_000) == 318_600);
        assert(1_200_000int * 542_600int == 651_120_000_000int);
        assert(fx_mul(1_200_000, 542_600) == 651_120);
        assert(119_600int * 1_151_120int == 137_673_952_000int);
        assert(fx_mul(119_600, 1_151_120) == 137_673);
        assert(110_000int * 2_200_000int == 242_000_000_000int);
        assert(fx_mul(110_000, 2_200_000) == 242_000);
    }
    lemma_rg_parts_on_range(rd, 500_000, 2_700_000);
    assert(fx_mul(48_000, 500_000) == 24_000 && fx_mul(48_000, 2_700_000) == 129_600);
    assert(fx_mul(118_000, 500_000) == 59_000 && fx_mul(118_000, 2_700_000) == 318_600);
    assert(1_200_000int * 283_000int == 339_600_000_000int);
    assert(fx_mul(1_200_000, 283_000) == 339_600);
    assert(1_200_000int * 542_600int == 651_120_000_000int);
    assert(fx_mul(1_200_000, 542_600) == 651_120);
    assert(trunc_div(283_000, 4) == 70_750 && trunc_div(542_600, 4) == 135_650);
    assert(70_750int * 839_600int == 59_401_700_000int);
    assert(fx_mul(70_750, 839_600) == 59_401);
    assert(135_650int * 1_151_120int == 156_149_428_000int);
    assert(fx_mul(135_650, 1_151_120) == 156_149);
    lemma_rg_parts_on_range(2_700_000, rd, 2_700_000);
    lemma_fx_mul_monotonic(110_000, rd, 110_000, 2_700_000);
    assert(110_000int * 2_700_000int == 297_000_000_000int);
    assert(fx_mul(110_000, 2_700_000) == 297_000);
    lemma_fx_mul_monotonic(0, 0, spec_ra(rd), spec_skew(rd));
    let upper = spec_rg_upper(rd);
    let lower = spec_rg_lower(rd);
    lemma_trunc_div_bounds(upper * ONE, lower);
    let rg = spec_rg(rd);
    assert(upper * ONE >= 0) by (nonlinear_arith)
        requires
            upper >= 0,
    ;
    assert(rg >= 1) by (nonlinear_arith)
        requires
            upper * ONE < (rg + 1) * lower,
            upper >= 59_000,
            0 < lower <= 297_000,
            ONE == 1_000_000,
            rg >= 0,
    ;
    assert(rg <= 7 * ONE) by (nonlinear_arith)
        requires
            rg * lower <= upper * ONE,
            upper <= 200_000,
            lower >= 30_000,
            ONE == 1_000_000,
            rg >= 0,
    ;
    let ra = spec_ra(rd);
    vstd::arithmetic::div_mod::lemma_div_is_ordered_by_denominator(
        1_000_000_000_000,
        ra,
        119_600,
    );
    vstd::arithmetic::div_mod::lemma_div_is_ordered_by_denominator(
        1_000_000_000_000,
        14_000,
        ra,
    );
}

/// Within the range `low ..= high` of the shape parameter, `rg` is at least
/// the quotient of its least dividend by its greatest divisor, and so the two
/// instants are at most what that quotient gives.
proof fn lemma_te_on_range(rd: int, low: int, high: int, rg_low: int, tp_high: int)
    requires
        500_000 <= low <= rd <= high <= 2_700_000,
        0 < fx_mul(110_000, high) - fx_mul(spec_ra(low), spec_skew(low)),
        rg_low == fx_div(
            spec_rg_upper(low),
            fx_mul(110_000, high) - fx_mul(spec_ra(low), spec_skew(low)),
        ),
        0 < rg_low,
        tp_high == fx_div(ONE as int, 2 * rg_low),
        0 < spec_rg_lower(rd),
    ensures
        spec_rg(rd) >= rg_low,
        0 <= spec_tp(rd) <= tp_high,
        spec_tp(rd) <= spec_te(rd) <= tp_high + fx_mul(tp_high, spec_rk(high)),
{
    let most = fx_mul(110_000, high) - fx_mul(spec_ra(low), spec_skew(low));
    lemma_rg_parts_on_range(rd, low, high);
    lemma_rg_parts_on_range(low, 500_000, low);
    lemma_fx_mul_monotonic(110_000, rd, 110_000, high);
    lemma_fx_mul_monotonic(48_000, 500_000, 48_000, low);
    lemma_fx_mul_monotonic(118_000, low, 118_000, rd);
    lemma_fx_mul_monotonic(1_200_000, spec_rk(low), 1_200_000, spec_rk(rd));
    lemma_fx_mul_monotonic(spec_ra(low), spec_skew(low), spec_ra(rd), spec_skew(rd));
    let upper = spec_rg_upper(rd);
    let lower = spec_rg_lower(rd);
    assert(lower <= most);
    lemma_fx_mul_monotonic(0, 0, trunc_div(spec_rk(low), 4), spec_skew(low));
    assert(0 <= spec_rg_upper(low) * ONE <= upper * ONE) by (nonlinear_arith)
        requires
            0 <= spec_rg_upper(low) <= upper,
    ;
    vstd::arithmetic::div_mod::lemma_div_is_ordered(spec_rg_upper(low) * ONE, upper * ONE, most);
    vstd::arithmetic::div_mod::lemma_div_is_ordered_by_denominator(upper * ONE, lower, most);
    let rg = spec_rg(rd);
    assert(rg >= rg_low);
    assert(ONE * ONE == 1_000_000_000_000) by (nonlinear_arith)
        requires
            ONE == 1_000_000,
    ;
    vstd::arithmetic::div_mod::lemma_div_is_ordered_by_denominator(
        1_000_000_000_000,
        2 * rg_low,
        2 * rg,
    );
    vstd::arithmetic::div_mod::lemma_div_pos_is_pos(1_000_000_000_000, 2 * rg);
    lemma_fx_mul_monotonic(spec_tp(rd), spec_rk(rd), tp_high, spec_rk(high));
}

/// For every tenseness between zero and one the two instants of the cycle
/// lie within it, in their order: `0 < tp < te < 1`.
pub proof fn lemma_lf_instants_ordered(tenseness: int)
    requires
        0 <= tenseness <= ONE,
    ensures
        70_000 <= spec_tp(spec_rd(tenseness)) < spec_te(spec_rd(tenseness)) < ONE,
{
    let rd = spec_rd(tenseness);
    lemma_lf_timing_defined(tenseness);
    if rd <= 720_000 {
        assert(48_000int * 500_000int == 24_000_000_000int);
        assert(fx_mul(48_000, 500_000) == 24_000);
        assert(118_000int * 500_000int == 59_000_000_000int);
        assert(fx_mul(118_000, 500_000) == 59_000);
        assert(1_200_000int * 283_000int == 339_600_000_000int);
        assert(fx_mul(1_200_000, 283_000) == 339_600);
        assert(trunc_div(283_000, 4) == 70_750);
        assert(70_750int * 839_600int == 59_401_700_000int);
        assert(fx_mul(70_750, 839_600) == 59_401);
        assert(14_000int * 839_600int == 11_754_400_000int);
        assert(fx_mul(14_000, 839_600) == 11_754);
        assert(110_000int * 720_000int == 79_200_000_000int);
        assert(fx_mul(110_000, 720_000) == 79_200);
        assert(59_401int * 1_000_000int == 59_401_000_000int);
        assert(fx_div(59_401, 67_446) == 880_719);
        assert(fx_div(1_000_000, 1_761_438) == 567_717);
        assert(118_000int * 720_000int == 84_960_000_000int);
        assert(fx_mul(118_000, 720_000) == 84_960);
        assert(567_717int * 308_960int == 175_401_844_320int);
        assert(fx_mul(567_717, 308_960) == 175_401);
        lemma_te_on_range(rd, 500_000, 720_000, 880_719, 567_717);
    } else if rd <= 940_000 {
        assert(48_000int * 720_000int == 34_560_000_000int);
        assert(fx_mul(48_000, 720_000) == 34_560);
        assert(118_000int * 720_000int == 84_960_000_000int);
        assert(fx_mul(118_000, 720_000) == 84_960);
        assert(1_200_000int * 308_960int == 370_752_000_000int);
        assert(fx_mul(1_200_000, 308_960) == 370_752);
        assert(trunc_div(308_960, 4) == 77_240);
        assert(77_240int * 870_752int == 67_256_884_480int);
        assert(fx_mul(77_240, 870_752) == 67_256);
        assert(24_560int * 870_752int == 21_385_669_120int);
        assert(fx_mul(24_560, 870_752) == 21_385);
        assert(110_000int * 940_000int == 103_400_000_000int);
        assert(fx_mul(110_000, 940_000) == 103_400);
        assert(67_256int * 1_000_000int == 67_256_000_000int);
        assert(fx_div(67_256, 82_015) == 820_045);
        assert(fx_div(1_000_000, 1_640_090) == 609_722);
        assert(118_000int * 940_000int == 110_920_000_000int);
        assert(fx_mul(118_000, 940_000) == 110_920);
        assert(609_722int * 334_920int == 204_208_092_240int);
        assert(fx_mul(609_722, 334_920) == 204_208);
        lemma_te_on_range(rd, 720_000, 940_000, 820_045, 609_722);
    } else if rd <= 1_160_000 {
        assert(48_000int * 940_000int == 45_120_000_000int);
        assert(fx_mul(48_000, 940_000) == 45_120);
        assert(118_000int * 940_000int == 110_920_000_000int);
        assert(fx_mul(118_000, 940_000) == 110_920);
        assert(1_200_000int * 334_920int == 401_904_000_000int);
        assert(fx_mul(1_200_000, 334_920) == 401_904);
        assert(trunc_div(334_920, 4) == 83_730);
        assert(83_730int * 901_904int == 75_516_421_920int);
        assert(fx_mul(83_730, 901_904) == 75_516);
        assert(35_120int * 901_904int == 31_674_868_480int);
        assert(fx_mul(35_120, 901_904) == 31_674);
        assert(110_000int * 1_160_000int == 127_600_000_000int);
        assert(fx_mul(110_000, 1_160_000) == 127_600);
        assert(75_516int * 1_000_000int == 75_516_000_000int);
        assert(fx_div(75_516, 95_926) == 787_231);
        assert(fx_div(1_000_000, 1_574_462) == 635_137);
        assert(118_000int * 1_160_000int == 136_880_000_000int);
        assert(fx_mul(118_000, 1_160_000) == 136_880);
        assert(635_137int * 360_880int == 229_208_240_560int);
        assert(fx_mul(635_137, 360_880) == 229_208);
        lemma_te_on_range(rd, 940_000, 1_160_000, 787_231, 635_137);
    } else if rd <= 1_380_000 {
        assert(48_000int * 1_160_000int == 55_680_000_000int);
        assert(fx_mul(48_000, 1_160_000) == 55_680);
        assert(118_000int * 1_160_000int == 136_880_000_000int);
        assert(fx_mul(118_000, 1_160_000) == 136_880);
        assert(1_200_000int * 360_880int == 433_056_000_000int);
        assert(fx_mul(1_200_000, 360_880) == 433_056);
        assert(trunc_div(360_880, 4) == 90_220);
        assert(90_220int * 933_056int == 84_180_312_320int);
        assert(fx_mul(90_220, 933_056) == 84_180);
        assert(45_680int * 933_056int == 42_621_998_080int);
        assert(fx_mul(45_680, 933_056) == 42_621);
        assert(110_000int * 1_380_000int == 151_800_000_000int);
        assert(fx_mul(110_000, 1_380_000) == 151_800);
        assert(84_180int * 1_000_000int == 84_180_000_000int);
        assert(fx_div(84_180, 109_179) == 771_027);
        assert(fx_div(1_000_000, 1_542_054) == 648_485);
        assert(118_000int * 1_380_000int == 162_840_000_000int);
        assert(fx_mul(118_000, 1_380_000) == 162_840);
        assert(648_485int * 386_840int == 250_859_937_400int);
        assert(fx_mul(648_485, 386_840) == 250_859);
        lemma_te_on_range(rd, 1_160_000, 1_380_000, 771_027, 648_485);
    } else if rd <= 1_600_000 {
        assert(48_000int * 1_380_000int == 66_240_000_000int);
        assert(fx_mul(48_000, 1_380_000) == 66_240);
        assert(118_000int * 1_380_000int == 162_840_000_000int);
        assert(fx_mul(118_000, 1_380_000) == 162_840);
        assert(1_200_000int * 386_840int == 464_208_000_000int);
        assert(fx_mul(1_200_000, 386_840) == 464_208);
        assert(trunc_div(386_840, 4) == 96_710);
        assert(96_710int * 964_208int == 93_248_555_680int);
        assert(fx_mul(96_710, 964_208) == 93_248);
        assert(56_240int * 964_208int == 54_227_057_920int);
        assert(fx_mul(56_240, 964_208) == 54_227);
        assert(110_000int * 1_600_000int == 176_000_000_000int);
        assert(fx_mul(110_000, 1_600_000) == 176_000);
        assert(93_248int * 1_000_000int == 93_248_000_000int);
        assert(fx_div(93_248, 121_773) == 765_752);
        assert(fx_div(1_000_000, 1_531_504) == 652_952);
        assert(118_000int * 1_600_000int == 188_800_000_000int);
        assert(fx_mul(118_000, 1_600_000) == 188_800);
        assert(652_952int * 412_800int == 269_538_585_600int);
        assert(fx_mul(652_952, 412_800) == 269_538);
        lemma_te_on_range(rd, 1_380_000, 1_600_000, 765_752, 652_952);
    } else if rd <= 1_820_000 {
        assert(48_000int * 1_600_000int == 76_800_000_000int);
        assert(fx_mul(48_000, 1_600_000) == 76_800);
        assert(118_000int * 1_600_000int == 188_800_000_000int);
        assert(fx_mul(118_000, 1_600_000) == 188_800);
        assert(1_200_000int * 412_800int == 495_360_000_000int);
        assert(fx_mul(1_200_000, 412_800) == 495_360);
        assert(trunc_div(412_800, 4) == 103_200);
        assert(103_200int * 995_360int == 102_721_152_000int);
        assert(fx_mul(103_200, 995_360) == 102_721);
        assert(66_800int * 995_360int == 66_490_048_000int);
        assert(fx_mul(66_800, 995_360) == 66_490);
        assert(110_000int * 1_820_000int == 200_200_000_000int);
        assert(fx_mul(110_000, 1_820_000) == 200_200);
        assert(102_721int * 1_000_000int == 102_721_000_000int);
        assert(fx_div(102_721, 133_710) == 768_237);
        assert(fx_div(1_000_000, 1_536_474) == 650_840);
        assert(118_000int * 1_820_000int == 214_760_000_000int);
        assert(fx_mul(118_000, 1_820_000) == 214_760);
        assert(650_840int * 438_760int == 285_562_558_400int);
        assert(fx_mul(650_840, 438_760) == 285_562);
        lemma_te_on_range(rd, 1_600_000, 1_820_000, 768_237, 650_840);
    } else if rd <= 2_040_000 {
        assert(48_000int * 1_820_000int == 87_360_000_000int);
        assert(fx_mul(48_000, 1_820_000) == 87_360);
        assert(118_000int * 1_820_000int == 214_760_000_000int);
        assert(fx_mul(118_000, 1_820_000) == 214_760);
        assert(1_200_000int * 438_760int == 526_512_000_000int);
        assert(fx_mul(1_200_000, 438_760) == 526_512);
        assert(trunc_div(438_760, 4) == 109_690);
        assert(109_690int * 1_026_512int == 112_598_101_280int);
        assert(fx_mul(109_690, 1_026_512) == 112_598);
        assert(77_360int * 1_026_512int == 79_410_968_320int);
        assert(fx_mul(77_360, 1_026_512) == 79_410);
        assert(110_000int * 2_040_000int == 224_400_000_000int);
        assert(fx_mul(110_000, 2_040_000) == 224_400);
        assert(112_598int * 1_000_000int == 112_598_000_000int);
        assert(fx_div(112_598, 144_990) == 776_591);
        assert(fx_div(1_000_000, 1_553_182) == 643_839);
        assert(118_000int * 2_040_000int == 240_720_000_000int);
        assert(fx_mul(118_000, 2_040_000) == 240_720);
        assert(643_839int * 464_720int == 299_204_860_080int);
        assert(fx_mul(643_839, 464_720) == 299_204);
        lemma_te_on_range(rd, 1_820_000, 2_040_000, 776_591, 643_839);
    } else if rd <= 2_260_000 {
        assert(48_000int * 2_040_000int == 97_920_000_000int);
        assert(fx_mul(48_000, 2_040_000) == 97_920);
        assert(118_000int * 2_040_000int == 240_720_000_000int);
        assert(fx_mul(118_000, 2_040_000) == 240_720);
        assert(1_200_000int * 464_720int == 557_664_000_000int);
        assert(fx_mul(1_200_000, 464_720) == 557_664);
        assert(trunc_div(464_720, 4) == 116_180);
        assert(116_180int * 1_057_664int == 122_879_403_520int);
        assert(fx_mul(116_180, 1_057_664) == 122_879);
        assert(87_920int * 1_057_664int == 92_989_818_880int);
        assert(fx_mul(87_920, 1_057_664) == 92_989);
        assert(110_000int * 2_260_000int == 248_600_000_000int);
        assert(fx_mul(110_000, 2_260_000) == 248_600);
        assert(122_879int * 1_000_000int == 122_879_000_000int);
        assert(fx_div(122_879, 155_611) == 789_654);
        assert(fx_div(1_000_000, 1_579_308) == 633_188);
        assert(118_000int * 2_260_000int == 266_680_000_000int);
        assert(fx_mul(118_000, 2_260_000) == 266_680);
        assert(633_188int * 490_680int == 310_692_687_840int);
        assert(fx_mul(633_188, 490_680) == 310_692);
        lemma_te_on_range(rd, 2_040_000, 2_260_000, 789_654, 633_188);
    } else if rd <= 2_480_000 {
        assert(48_000int * 2_260_000int == 108_480_000_000int);
        assert(fx_mul(48_000, 2_260_000) == 108_480);
        assert(118_000int * 2_260_000int == 266_680_000_000int);
        assert(fx_mul(118_000, 2_260_000) == 266_680);
        assert(1_200_000int * 490_680int == 588_816_000_000int);
        assert(fx_mul(1_200_000, 490_680) == 588_816);
        assert(trunc_div(490_680, 4) == 122_670);
        assert(122_670int * 1_088_816int == 133_565_058_720int);
        assert(fx_mul(122_670, 1_088_816) == 133_565);
        assert(98_480int * 1_088_816int == 107_226_599_680int);
        assert(fx_mul(98_480, 1_088_816) == 107_226);
        assert(110_000int * 2_480_000int == 272_800_000_000int);
        assert(fx_mul(110_000, 2_480_000) == 272_800);
        assert(133_565int * 1_000_000int == 133_565_000_000int);
        assert(fx_div(133_565, 165_574) == 806_678);
        assert(fx_div(1_000_000, 1_613_356) == 619_826);
        assert(118_000int * 2_480_000int == 292_640_000_000int);
        assert(fx_mul(118_000, 2_480_000) == 292_640);
        assert(619_826int * 516_640int == 320_226_904_640int);
        assert(fx_mul(619_826, 516_640) == 320_226);
        lemma_te_on_range(rd, 2_260_000, 2_480_000, 806_678, 619_826);
    } else {
        assert(48_000int * 2_480_000int == 119_040_000_000int);
        assert(fx_mul(48_000, 2_480_000) == 119_040);
        assert(118_000int * 2_480_000int == 292_640_000_000int);
        assert(fx_mul(118_000, 2_480_000) == 292_640);
        assert(1_200_000int * 516_640int == 619_968_000_000int);
        assert(fx_mul(1_200_000, 516_640) == 619_968);
        assert(trunc_div(516_640, 4) == 129_160);
        assert(129_160int * 1_119_968int == 144_655_066_880int);
        assert(fx_mul(129_160, 1_119_968) == 144_655);
        assert(109_040int * 1_119_968int == 122_121_310_720int);
        assert(fx_mul(109_040, 1_119_968) == 122_121);
        assert(110_000int * 2_700_000int == 297_000_000_000int);
        assert(fx_mul(110_000, 2_700_000) == 297_000);
        assert(144_655int * 1_000_000int == 144_655_000_000int);
        assert(fx_div(144_655, 174_879) == 827_171);
        assert(fx_div(1_000_000, 1_654_342) == 604_469);
        assert(118_000int * 2_700_000int == 318_600_000_000int);
        assert(fx_mul(118_000, 2_700_000) == 318_600);
        assert(604_469int * 542_600int == 327_984_879_400int);
        assert(fx_mul(604_469, 542_600) == 327_984);
        lemma_te_on_range(rd, 2_480_000, 2_700_000, 827_171, 604_469);
    }
    let rg = spec_rg(rd);
    let tp = spec_tp(rd);
    lemma_trunc_div_bounds(ONE * ONE, 2 * rg);
    assert(ONE * ONE == 1_000_000_000_000) by (nonlinear_arith)
        requires
            ONE == 1_000_000,
    ;
    assert(tp >= 70_000) by (nonlinear_arith)
        requires
            1_000_000_000_000 < (tp + 1) * (2 * rg),
            0 < rg <= 7_000_000,
            tp >= 0,
    ;
    lemma_fx_mul_monotonic(70_000, 283_000, tp, spec_rk(rd));
    assert(70_000int * 283_000int == 19_810_000_000int);
    assert(fx_mul(70_000, 283_000) == 19_810);
}

/// Derives the timing of the glottal cycle from the tenseness.
pub fn lf_timing(tenseness: i64) -> (timing: LfTiming)
    requires
        0 <= tenseness <= ONE,
    ensures
        timing == spec_lf_timing(tenseness as int),
        500_000 <= timing.rd <= 2_700_000,
        0 < timing.ta,
        0 < timing.rg,
        timing.wf(),
{
    proof {
        lemma_lf_timing_defined(tenseness as int);
        lemma_lf_instants_ordered(tenseness as int);
    }
    proof {
        lemma_fx_mul_monotonic(2_200_000, ONE - tenseness, 2_200_000, ONE as int);
        assert(fx_mul(2_200_000, ONE as int) == 2_200_000);
    }
    let slack: i128 = times(2_200_000, ONE - tenseness);
    let rd: i64 = 500_000 + (slack as i64);
    let ra: i64 = -10_000 + scaled(48_000, rd);
    let rk: i64 = 224_000 + scaled(118_000, rd);
    let skew: i64 = 500_000 + scaled(1_200_000, rk);
    let upper: i64 = scaled(rk / 4, skew);
    let lower: i64 = scaled(110_000, rd) - scaled(ra, skew);
    let rg: i64 = quotient(upper, lower);
    let ta: i64 = ra;
    let tp: i64 = quotient(ONE, 2 * rg);
    proof {
        lemma_fx_mul_monotonic(0, 0, tp as int, rk as int);
        lemma_trunc_div_bounds(ONE * ONE, ta as int);
        assert(ONE * ONE == 1_000_000_000_000) by (nonlinear_arith)
            requires
                ONE == 1_000_000,
        ;
        let e = fx_div(ONE as int, ta as int);
        assert(e >= 1) by (nonlinear_arith)
            requires
                1_000_000_000_000 < (e + 1) * ta,
                0 < ta <= 119_600,
                e >= 0,
        ;
    }
    let te: i64 = tp + scaled(rk, tp);
    proof {
        assert(tp * rk == rk * tp) by (nonlinear_arith);
    }
    let epsilon: i64 = quotient(ONE, ta);
    LfTiming { rd, ra, rk, rg, ta, tp, te, epsilon }
}

} // verus!
