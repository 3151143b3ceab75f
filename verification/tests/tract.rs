use belcanto::cavity::{Cavity, ATTENUATION};
use belcanto::fixed::ONE;
use belcanto::tract::{
    default_nasal_diameter, default_oral_diameter, Tract, NASAL_LENGTH, ORAL_LENGTH, VELUM_INDEX,
};

fn uniform_tube() -> Tract {
    let mut tract = Tract::new();
    for m in 0..ORAL_LENGTH {
        tract.set_oral_diameter(m, 2_000_000);
    }
    tract.velum.target_diameter = 0;
    assert!(tract.can_init());
    tract.init();
    tract
}

#[test]
fn a_new_cavity_is_at_rest() {
    let cavity = Cavity::new(5);
    assert_eq!(cavity.diameter, vec![0; 5]);
    assert_eq!(cavity.area, vec![0; 5]);
    assert_eq!(cavity.left, vec![0; 5]);
    assert_eq!(cavity.right, vec![0; 5]);
    assert_eq!(cavity.k, vec![0; 6]);
    assert_eq!(cavity.j_left, vec![0; 6]);
    assert_eq!(cavity.j_right, vec![0; 6]);
}

#[test]
fn default_profile() {
    let tract = Tract::new();
    assert!(!tract.is_ready());
    assert_eq!(tract.oral.diameter.len(), 44);
    assert_eq!(tract.nasal.diameter.len(), 28);
    assert_eq!(
        tract.oral.diameter[..9],
        [500_010, 503_779, 509_709, 524_971, 564_244, 665_307, 925_374, 1_594_615, 2_000_010]
    );
    for m in 8..15 {
        assert_eq!(tract.oral.diameter[m], 2_000_010);
        assert_eq!(default_oral_diameter(m), 2_000_010);
    }
    for m in 15..44 {
        assert_eq!(tract.oral.diameter[m], 3_000_000);
    }
    assert_eq!(
        tract.nasal.diameter[..8],
        [400_000, 514_284, 628_571, 742_856, 857_142, 971_427, 1_085_713, 1_200_000]
    );
    assert_eq!(tract.nasal.diameter[16], 1_200_000);
    assert_eq!(tract.nasal.diameter[17], 1_142_858);
    assert_eq!(tract.nasal.diameter[27], 285_714);
    assert_eq!(default_nasal_diameter(27), 285_714);
    assert_eq!(tract.velum.target_diameter, 40_000);
    assert_eq!(tract.velum.max_diameter, 100_000);
    assert_eq!(tract.oral.k, vec![0; 45]);
    assert_eq!(tract.oral.left, vec![0; 44]);
    assert_eq!(tract.nasal.right, vec![0; 28]);
}

#[test]
fn init_derives_areas_and_reflections() {
    let mut tract = Tract::new();
    assert!(tract.can_init());
    tract.init();
    assert!(tract.is_ready());
    assert_eq!(
        tract.oral.area[..10],
        [196_357, 199_328, 204_049, 216_451, 250_048, 347_643, 672_549, 1_997_108, 3_141_624, 3_141_624]
    );
    assert_eq!(tract.oral.area[VELUM_INDEX], 7_068_584);
    assert_eq!(
        tract.oral.k[..20],
        [
            0, -4_504, -7_021, -17_695, -43_211, -97_971, -191_085, -297_691, -133_633, 0, 0, 0,
            0, 0, 0, -230_766, 0, 0, 0, 0
        ]
    );
    assert_eq!(tract.oral.k[ORAL_LENGTH], 0);
    assert_eq!(tract.nasal.diameter[0], 40_000);
    assert_eq!(tract.nasal.area[..3], [1_256, 207_728, 310_312]);
    assert_eq!(
        tract.nasal.k,
        vec![
            0, -987_979, -198_023, -165_516, -142_132, -124_513, -110_769, -99_751, 0, 0, 0, 0, 0,
            0, 0, 0, 0, 48_750, 77_804, 84_355, 92_112, 101_432, 112_845, 127_141, 145_561,
            170_178, 204_704, 256_507, 0
        ]
    );
    assert_eq!(tract.velum.k_left, -88);
    assert_eq!(tract.velum.k_right, -88);
    assert_eq!(tract.velum.k_nose, -999_822);
}

#[test]
fn the_two_cavities_can_be_derived_one_by_one() {
    let mut tract = Tract::new();
    tract.calculate_nasal_reflections();
    assert!(!tract.is_ready());
    assert_eq!(tract.nasal.diameter[0], 400_000);
    assert_eq!(tract.nasal.area[..2], [125_663, 207_728]);
    assert_eq!(tract.nasal.k[1], -246_152);
    assert_eq!(tract.oral.area, vec![0; ORAL_LENGTH]);
    assert!(tract.can_post_block());
    tract.calculate_oral_reflections();
    assert!(!tract.is_ready());
    assert_eq!(tract.oral.area[VELUM_INDEX], 7_068_584);
    assert_eq!(tract.oral.k[15], -230_766);
    assert_eq!(tract.velum.k_left, -8_810);
    assert_eq!(tract.velum.k_right, -8_810);
    assert_eq!(tract.velum.k_nose, -982_378);
}

#[test]
fn a_closed_section_reflects_nearly_everything() {
    let mut tract = Tract::new();
    tract.set_oral_diameter(30, 0);
    assert!(!tract.is_ready());
    tract.init();
    assert_eq!(tract.oral.area[30], 0);
    assert_eq!(tract.oral.k[30], ATTENUATION);
    assert_eq!(tract.oral.k[31], -600_000);
}

#[test]
fn an_edit_takes_effect_at_the_next_init() {
    let mut tract = Tract::new();
    tract.init();
    tract.set_oral_diameter(20, 1_000_000);
    assert!(!tract.is_ready());
    assert_eq!(tract.oral.k[20], 0);
    assert!(tract.can_post_block());
    tract.post_block();
    assert!(tract.is_ready());
    assert_eq!(tract.oral.area[20], 785_398);
    assert_eq!(tract.oral.k[20], 480_000);
    assert_eq!(tract.oral.k[21], -480_000);
    tract.set_nasal_diameter(5, 500_000);
    assert!(!tract.is_ready());
    tract.init();
    assert_eq!(tract.nasal.area[5], 196_349);
}

#[test]
fn a_junction_of_closed_tubes_cannot_be_derived() {
    let mut tract = Tract::new();
    tract.set_oral_diameter(VELUM_INDEX, 0);
    tract.set_oral_diameter(VELUM_INDEX + 1, 0);
    assert!(tract.can_init());
    tract.velum.target_diameter = 0;
    assert!(!tract.can_init());
    assert!(!tract.can_post_block());
}

#[test]
fn pre_block_changes_nothing() {
    let mut tract = Tract::new();
    tract.init();
    tract.step(ONE, 0);
    let before = tract.clone();
    tract.pre_block();
    assert_eq!(tract.oral.right, before.oral.right);
    assert_eq!(tract.oral.left, before.oral.left);
    assert_eq!(tract.oral.k, before.oral.k);
    assert_eq!(tract.is_ready(), before.is_ready());
}

#[test]
fn one_step_moves_the_excitation_into_the_first_section() {
    let mut tract = Tract::new();
    tract.init();
    tract.step(ONE, 0);
    assert_eq!(tract.oral.j_right[0], 1_000_000);
    assert_eq!(tract.oral.right[0], 999_900);
    assert_eq!(tract.oral.right[1], 0);
    tract.step(ONE, 0);
    assert_eq!(tract.oral.j_right[1], 1_004_403);
    assert_eq!(tract.oral.j_left[1], -4_503);
    assert_eq!(tract.oral.right[0], 999_900);
    assert_eq!(tract.oral.right[1], 1_004_302);
    assert_eq!(tract.oral.left[0], -4_502);
}

#[test]
fn the_noise_has_no_effect() {
    let mut quiet = Tract::new();
    let mut noisy = Tract::new();
    quiet.init();
    noisy.init();
    for _ in 0..40 {
        assert_eq!(quiet.process(ONE, 0), noisy.process(ONE, 777_777));
    }
}

#[test]
fn the_first_sound_leaves_the_lips_after_the_length_of_the_tract() {
    let mut tract = Tract::new();
    tract.init();
    let mut outputs = Vec::new();
    for _ in 0..24 {
        outputs.push(tract.process(ONE, 0));
    }
    for sample in 0..21 {
        assert_eq!(outputs[sample], 0);
    }
    assert_eq!(outputs[21..24], [2_531_497, 2_218_405, 2_075_680]);
}

#[test]
fn silence_in_silence_out() {
    let mut tract = Tract::new();
    tract.init();
    for _ in 0..500 {
        assert_eq!(tract.process(0, 0), 0);
    }
    assert_eq!(tract.oral.left, vec![0; ORAL_LENGTH]);
    assert_eq!(tract.oral.right, vec![0; ORAL_LENGTH]);
    assert_eq!(tract.nasal.left, vec![0; NASAL_LENGTH]);
    assert_eq!(tract.nasal.right, vec![0; NASAL_LENGTH]);
}

#[test]
fn a_uniform_tube_reflects_only_at_its_ends() {
    let tract = uniform_tube();
    for m in 0..=ORAL_LENGTH {
        assert_eq!(tract.oral.k[m], 0);
    }
    assert_eq!(tract.oral.area[0], 3_141_593);
    assert_eq!(tract.velum.k_left, 0);
    assert_eq!(tract.velum.k_right, 0);
    assert_eq!(tract.velum.k_nose, -ONE);
}

#[test]
fn an_impulse_crosses_a_uniform_tube_and_returns() {
    let mut tract = uniform_tube();
    tract.step(ONE, 0);
    for step in 1..=100 {
        let lips = tract.oral.right[ORAL_LENGTH - 1];
        let glottis = tract.oral.left[0];
        if step == ORAL_LENGTH {
            // ATTENUATION to the power of the length
            assert_eq!(lips, 995_600);
        } else {
            assert_eq!(lips, 0);
        }
        if step == 2 * ORAL_LENGTH {
            // scaled by the reflection at the lips, attenuated twice the length
            assert_eq!(glottis, -842_520);
        } else if step < 2 * ORAL_LENGTH {
            assert_eq!(glottis, 0);
        }
        let travelling = tract.oral.right.iter().chain(tract.oral.left.iter());
        if step <= 2 * ORAL_LENGTH {
            assert_eq!(travelling.filter(|x| **x != 0).count(), 1);
        }
        assert_eq!(tract.nasal.right, vec![0; NASAL_LENGTH]);
        tract.step(0, 0);
    }
}

#[test]
fn a_reflecting_end_loses_energy() {
    let mut tract = uniform_tube();
    tract.step(ONE, 0);
    let mut last = i128::MAX;
    for _ in 0..300 {
        let energy: i128 = tract
            .oral
            .right
            .iter()
            .chain(tract.oral.left.iter())
            .map(|x| (*x as i128) * (*x as i128))
            .sum();
        assert!(energy <= last);
        last = energy;
        tract.step(0, 0);
    }
}
