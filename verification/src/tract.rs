//! The vocal tract: an oral and a nasal cavity joined at the velum.
use vstd::prelude::*;
use crate::acoustics::{lemma_silence_in_silence_out, lemma_step_keeps_wf};
use crate::cavity::{attenuated, zeros, Cavity, CavityModel};
use crate::fixed::{fx_mul, lemma_fraction_of, scaled, times, AMPLITUDE_MAX, ONE};
use crate::geometry::{circle_area, ease, min, spec_circle_area, spec_ease, spec_min, AREA_MAX, DIAMETER_MAX};
use crate::velum::{port_coefficient, spec_port_coefficient, Velum};

verus! {

/// Number of sections in the oral cavity.
pub const ORAL_LENGTH: usize = 44;

/// Number of sections in the nasal cavity.
pub const NASAL_LENGTH: usize = 28;

/// The oral section before which the nasal cavity branches off.
pub const VELUM_INDEX: usize = 17;

/// Coefficient of reflection at the glottis.
pub const K_GLOTTAL: i64 = 700_000;

/// Coefficient of reflection at the lips.
pub const K_LABIAL: i64 = -850_000;

/// Coefficient of reflection at the nostrils.
pub const K_NOSE: i64 = -900_000;

/// How much of a reflection the palate's wall keeps.
pub const K_SOFT_PALATE: i64 = 600_000;

/// The diameter of the buccal sections at rest.
pub const ORAL_DIAMETER: i64 = 3_000_000;

/// The diameter at the glottis: a sixth of the oral diameter.
pub const GLOTTAL_DIAMETER: i64 = 500_010;

/// The diameter of the pharyngeal sections: two thirds of the oral diameter.
pub const PHARYNGEAL_DIAMETER: i64 = 2_000_010;

/// The opening of the nasal port at rest.
pub const VELUM_TARGET_DIAMETER: i64 = 40_000;

/// The widest opening of the nasal port.
pub const VELUM_MAX_DIAMETER: i64 = 100_000;

/// A stateful vocal tract filter: a one-dimensional waveguide.
#[derive(Clone, Debug)]
pub struct Tract {
    /// The oral cavity (glottal, pharyngeal and buccal sections).
    pub oral: Cavity,
    /// The nasal cavity.
    pub nasal: Cavity,
    /// The velum, at the nasopharyngeal junction.
    pub velum: Velum,
    /// Whether the reflections have been derived from the present diameters.
    pub ready: bool,
}

/// What a tract holds, as mathematical values.
pub struct TractModel {
    pub oral: CavityModel,
    pub nasal: CavityModel,
    pub velum: Velum,
    pub ready: bool,
}

impl View for Tract {
    type V = TractModel;

    open spec fn view(&self) -> TractModel {
        TractModel { oral: self.oral@, nasal: self.nasal@, velum: self.velum, ready: self.ready }
    }
}

/// The diameter of oral section `m` at rest: a taper that widens from the
/// glottis over the first sixth of the cavity, the pharynx up to a third of
/// it, and the mouth beyond.
pub open spec fn spec_default_oral_diameter(m: int) -> int {
    if 6 * m < ORAL_LENGTH {
        GLOTTAL_DIAMETER + fx_mul(
            PHARYNGEAL_DIAMETER - GLOTTAL_DIAMETER,
            spec_ease((6 * m * ONE) / (ORAL_LENGTH as int)),
        )
    } else if 3 * m < ORAL_LENGTH {
        PHARYNGEAL_DIAMETER as int
    } else {
        ORAL_DIAMETER as int
    }
}

/// The diameter of nasal section `m`: it widens over the first half of the
/// cavity and narrows over the second, and is nowhere wider than 1.2.
pub open spec fn spec_default_nasal_diameter(m: int) -> int {
    let d = (2 * m * ONE) / (NASAL_LENGTH as int);
    if d < ONE {
        spec_min(400_000 + fx_mul(1_600_000, d), 1_200_000)
    } else {
        spec_min(200_000 + fx_mul(1_200_000, 2 * ONE - d), 1_200_000)
    }
}

impl TractModel {
    /// Both cavities are well formed and have their fixed lengths, and a
    /// tract that is ready has its reflections derived from its diameters.
    pub open spec fn wf(self) -> bool {
        &&& self.oral.wf()
        &&& self.oral.size() == ORAL_LENGTH
        &&& self.nasal.wf()
        &&& self.nasal.size() == NASAL_LENGTH
        &&& self.velum.wf()
        &&& self.ready ==> self.tuned()
    }

    /// The area of the three tubes that meet at the velum.
    pub open spec fn port_sum(self) -> int {
        self.oral.area[VELUM_INDEX as int] + self.oral.area[VELUM_INDEX + 1] + self.nasal.area[0]
    }

    /// The velum reflects each of its three branches as their areas say.
    pub open spec fn velum_tuned(self) -> bool {
        &&& self.port_sum() > 0
        &&& self.velum.k_left == spec_port_coefficient(
            self.oral.area[VELUM_INDEX as int],
            self.port_sum(),
        )
        &&& self.velum.k_right == spec_port_coefficient(
            self.oral.area[VELUM_INDEX + 1],
            self.port_sum(),
        )
        &&& self.velum.k_nose == spec_port_coefficient(self.nasal.area[0], self.port_sum())
    }

    /// Every area and every reflection coefficient is the one that the
    /// present diameters give.
    pub open spec fn tuned(self) -> bool {
        &&& self.oral.tuned(K_SOFT_PALATE as int)
        &&& self.nasal.tuned(ONE as int)
        &&& self.velum_tuned()
    }

    /// The area that the three tubes meeting at the velum will have once the
    /// oral areas are derived anew, beside a nasal entrance of area `nose`.
    pub open spec fn port_sum_ahead(self, nose: int) -> int {
        spec_circle_area(self.oral.diameter[VELUM_INDEX as int]) + spec_circle_area(
            self.oral.diameter[VELUM_INDEX + 1],
        ) + nose
    }

    /// The velum's coefficients are defined once the reflections are
    /// derived: the port at its target opening and the two oral sections
    /// beside it are not all closed.
    pub open spec fn port_open(self) -> bool {
        self.port_sum_ahead(spec_circle_area(self.velum.target_diameter as int)) > 0
    }

    /// No wave is travelling in either cavity.
    pub open spec fn silent(self) -> bool {
        self.oral.silent() && self.nasal.silent()
    }

    /// What leaves junction `m` of the oral cavity to the right: at the
    /// glottis the reflected wave and the excitation, at the velum what the
    /// three branches send on, elsewhere what the junction scatters.
    pub open spec fn oral_j_right(self, excitation: int, m: int) -> int {
        if m == 0 {
            fx_mul(K_GLOTTAL as int, self.oral.left[0]) + excitation
        } else if m == VELUM_INDEX {
            fx_mul(self.velum.k_right as int, self.oral.left[m]) + fx_mul(
                ONE + self.velum.k_right,
                self.oral.right[m - 1] + self.nasal.left[0],
            )
        } else {
            self.oral.scatter_right(m)
        }
    }

    /// What leaves junction `m` of the oral cavity to the left: at the lips
    /// the reflected wave, at the velum what the three branches send back,
    /// elsewhere what the junction scatters.
    pub open spec fn oral_j_left(self, m: int) -> int {
        if m == ORAL_LENGTH {
            fx_mul(K_LABIAL as int, self.oral.right[m - 1])
        } else if m == VELUM_INDEX {
            fx_mul(self.velum.k_left as int, self.oral.right[m - 1]) + fx_mul(
                ONE + self.velum.k_left,
                self.nasal.left[0] + self.oral.left[m],
            )
        } else {
            self.oral.scatter_left(m)
        }
    }

    /// What leaves junction `m` of the nasal cavity to the right: at its
    /// entrance what the velum's three branches send into the nose.
    pub open spec fn nasal_j_right(self, m: int) -> int {
        if m == 0 {
            fx_mul(self.velum.k_nose as int, self.nasal.left[0]) + fx_mul(
                ONE + self.velum.k_nose,
                self.oral.left[VELUM_INDEX as int] + self.oral.right[VELUM_INDEX - 1],
            )
        } else {
            self.nasal.scatter_right(m)
        }
    }

    /// What leaves junction `m` of the nasal cavity to the left: at the
    /// nostrils the reflected wave.
    pub open spec fn nasal_j_left(self, m: int) -> int {
        if m == NASAL_LENGTH {
            fx_mul(K_NOSE as int, self.nasal.right[m - 1])
        } else {
            self.nasal.scatter_left(m)
        }
    }

    /// The tract after one propagation step with the given excitation.
    pub open spec fn step(self, excitation: int) -> TractModel {
        TractModel {
            oral: CavityModel {
                j_right: Seq::new(
                    self.oral.j_right.len(),
                    |m: int|
                        if m < ORAL_LENGTH {
                            self.oral_j_right(excitation, m)
                        } else {
                            self.oral.j_right[m]
                        },
                ),
                j_left: Seq::new(
                    self.oral.j_left.len(),
                    |m: int|
                        if m >= 1 {
                            self.oral_j_left(m)
                        } else {
                            self.oral.j_left[m]
                        },
                ),
                right: Seq::new(
                    self.oral.right.len(),
                    |m: int| attenuated(self.oral_j_right(excitation, m)),
                ),
                left: Seq::new(self.oral.left.len(), |m: int| attenuated(self.oral_j_left(m + 1))),
                ..self.oral
            },
            nasal: CavityModel {
                j_right: Seq::new(
                    self.nasal.j_right.len(),
                    |m: int|
                        if m < NASAL_LENGTH {
                            self.nasal_j_right(m)
                        } else {
                            self.nasal.j_right[m]
                        },
                ),
                j_left: Seq::new(
                    self.nasal.j_left.len(),
                    |m: int|
                        if m >= 1 {
                            self.nasal_j_left(m)
                        } else {
                            self.nasal.j_left[m]
                        },
                ),
                right: Seq::new(self.nasal.right.len(), |m: int| attenuated(self.nasal_j_right(m))),
                left: Seq::new(
                    self.nasal.left.len(),
                    |m: int| attenuated(self.nasal_j_left(m + 1)),
                ),
                ..self.nasal
            },
            ..self
        }
    }

    /// What radiates from the lips and the nostrils.
    pub open spec fn output(self) -> int {
        self.oral.right[ORAL_LENGTH - 1] + self.nasal.right[NASAL_LENGTH - 1]
    }
}

/// Returns the diameter of oral section `m` at rest.
pub fn default_oral_diameter(m: usize) -> (d: i64)
    requires
        m < ORAL_LENGTH,
    ensures
        d == spec_default_oral_diameter(m as int),
        0 <= d <= ORAL_DIAMETER,
{
    if 6 * m < ORAL_LENGTH {
        let x: i64 = (6 * (m as i64) * ONE) / (ORAL_LENGTH as i64);
        let eased: i64 = ease(x);
        proof {
            lemma_fraction_of(eased as int, (PHARYNGEAL_DIAMETER - GLOTTAL_DIAMETER) as int);
            assert(eased * (PHARYNGEAL_DIAMETER - GLOTTAL_DIAMETER) == (PHARYNGEAL_DIAMETER
                - GLOTTAL_DIAMETER) * eased) by (nonlinear_arith);
        }
        let rise: i128 = times(PHARYNGEAL_DIAMETER - GLOTTAL_DIAMETER, eased);
        GLOTTAL_DIAMETER + (rise as i64)
    } else if 3 * m < ORAL_LENGTH {
        PHARYNGEAL_DIAMETER
    } else {
        ORAL_DIAMETER
    }
}

/// Returns the diameter of nasal section `m`.
pub fn default_nasal_diameter(m: usize) -> (d: i64)
    requires
        m < NASAL_LENGTH,
    ensures
        d == spec_default_nasal_diameter(m as int),
        0 <= d <= 1_200_000,
{
    let d: i64 = (2 * (m as i64) * ONE) / (NASAL_LENGTH as i64);
    if d < ONE {
        min(400_000 + scaled(1_600_000, d), 1_200_000)
    } else {
        min(200_000 + scaled(1_200_000, 2 * ONE - d), 1_200_000)
    }
}

impl Tract {
    /// Creates a new vocal tract at rest, with the default diameters. Its
    /// reflections are not derived yet.
    pub fn new() -> (tract: Tract)
        ensures
            tract@.wf(),
            !tract@.ready,
            tract@.silent(),
            tract@.oral.diameter == Seq::new(
                ORAL_LENGTH as nat,
                |m: int| spec_default_oral_diameter(m),
            ),
            tract@.nasal.diameter == Seq::new(
                NASAL_LENGTH as nat,
                |m: int| spec_default_nasal_diameter(m),
            ),
            tract@.oral.area == zeros(ORAL_LENGTH as int),
            tract@.oral.k == zeros(ORAL_LENGTH + 1),
            tract@.oral.left == zeros(ORAL_LENGTH as int),
            tract@.oral.right == zeros(ORAL_LENGTH as int),
            tract@.oral.j_left == zeros(ORAL_LENGTH + 1),
            tract@.oral.j_right == zeros(ORAL_LENGTH + 1),
            tract@.nasal.area == zeros(NASAL_LENGTH as int),
            tract@.nasal.k == zeros(NASAL_LENGTH + 1),
            tract@.nasal.left == zeros(NASAL_LENGTH as int),
            tract@.nasal.right == zeros(NASAL_LENGTH as int),
            tract@.nasal.j_left == zeros(NASAL_LENGTH + 1),
            tract@.nasal.j_right == zeros(NASAL_LENGTH + 1),
            tract@.velum == (Velum {
                k_right: 0,
                k_left: 0,
                k_nose: 0,
                target_diameter: VELUM_TARGET_DIAMETER,
                max_diameter: VELUM_MAX_DIAMETER,
            }),
    {
        let mut oral = Cavity::new(ORAL_LENGTH);
        let mut nasal = Cavity::new(NASAL_LENGTH);
        let velum = Velum::new(VELUM_TARGET_DIAMETER, VELUM_MAX_DIAMETER);
        let ghost oral_start = oral;
        let ghost nasal_start = nasal;
        proof {
            assert forall|i: int| 0 <= i < ORAL_LENGTH implies 0 <= #[trigger] oral.diameter@[i]
                <= ORAL_DIAMETER by {
                assert(oral@.diameter[i] == oral.diameter@[i]);
            }
            assert forall|i: int| 0 <= i < NASAL_LENGTH implies 0 <= #[trigger] nasal.diameter@[i]
                <= ORAL_DIAMETER by {
                assert(nasal@.diameter[i] == nasal.diameter@[i]);
            }
        }
        let mut m: usize = 0;
        while m < ORAL_LENGTH
            invariant
                m <= ORAL_LENGTH,
                oral.diameter@.len() == ORAL_LENGTH,
                oral.area == oral_start.area,
                oral.k == oral_start.k,
                oral.left == oral_start.left,
                oral.right == oral_start.right,
                oral.j_left == oral_start.j_left,
                oral.j_right == oral_start.j_right,
                forall|i: int|
                    0 <= i < m ==> #[trigger] oral.diameter@[i] == spec_default_oral_diameter(i),
                forall|i: int|
                    0 <= i < ORAL_LENGTH ==> 0 <= #[trigger] oral.diameter@[i] <= ORAL_DIAMETER,
            decreases ORAL_LENGTH - m,
        {
            oral.diameter.set(m, default_oral_diameter(m));
            m = m + 1;
        }
        let mut m: usize = 0;
        while m < NASAL_LENGTH
            invariant
                m <= NASAL_LENGTH,
                nasal.diameter@.len() == NASAL_LENGTH,
                nasal.area == nasal_start.area,
                nasal.k == nasal_start.k,
                nasal.left == nasal_start.left,
                nasal.right == nasal_start.right,
                nasal.j_left == nasal_start.j_left,
                nasal.j_right == nasal_start.j_right,
                forall|i: int|
                    0 <= i < m ==> #[trigger] nasal.diameter@[i] == spec_default_nasal_diameter(i),
                forall|i: int|
                    0 <= i < NASAL_LENGTH ==> 0 <= #[trigger] nasal.diameter@[i] <= ORAL_DIAMETER,
            decreases NASAL_LENGTH - m,
        {
            nasal.diameter.set(m, default_nasal_diameter(m));
            m = m + 1;
        }
        let tract = Tract { oral, nasal, velum, ready: false };
        proof {
            assert(tract@.oral.diameter =~= Seq::new(
                ORAL_LENGTH as nat,
                |m: int| spec_default_oral_diameter(m),
            ));
            assert(tract@.nasal.diameter =~= Seq::new(
                NASAL_LENGTH as nat,
                |m: int| spec_default_nasal_diameter(m),
            ));
            assert forall|i: int| 0 <= i < tract@.oral.size() implies -DIAMETER_MAX
                <= #[trigger] tract@.oral.diameter[i] <= DIAMETER_MAX by {
                assert(tract@.oral.diameter[i] == oral.diameter@[i]);
            }
            assert forall|i: int| 0 <= i < tract@.nasal.size() implies -DIAMETER_MAX
                <= #[trigger] tract@.nasal.diameter[i] <= DIAMETER_MAX by {
                assert(tract@.nasal.diameter[i] == nasal.diameter@[i]);
            }
            assert(tract@.oral.left == oral_start@.left);
            assert(tract@.oral.right == oral_start@.right);
            assert(tract@.nasal.left == nasal_start@.left);
            assert(tract@.nasal.right == nasal_start@.right);
        }
        tract
    }

    /// The area of the three tubes that will meet at the velum, beside a
    /// nasal entrance of area `nose`.
    fn port_sum_ahead(&self, nose: i64) -> (sum: i64)
        requires
            self@.wf(),
            0 <= nose <= AREA_MAX,
        ensures
            sum == self@.port_sum_ahead(nose as int),
            0 <= sum <= 3 * AREA_MAX,
    {
        let before: i64 = self.oral.diameter[VELUM_INDEX];
        let after: i64 = self.oral.diameter[VELUM_INDEX + 1];
        assert(before == self@.oral.diameter[VELUM_INDEX as int]);
        assert(after == self@.oral.diameter[VELUM_INDEX + 1]);
        circle_area(before) + circle_area(after) + nose
    }

    /// Whether `init` can derive the velum's coefficients.
    pub fn can_init(&self) -> (open: bool)
        requires
            self@.wf(),
        ensures
            open == self@.port_open(),
    {
        self.port_sum_ahead(circle_area(self.velum.target_diameter)) > 0
    }

    /// Whether `post_block` can derive the velum's coefficients.
    pub fn can_post_block(&self) -> (open: bool)
        requires
            self@.wf(),
        ensures
            open == (self@.port_sum_ahead(self@.nasal.area[0]) > 0),
    {
        let nose: i64 = self.nasal.area[0];
        assert(nose == self@.nasal.area[0]);
        self.port_sum_ahead(nose) > 0
    }

    /// Calculates the coefficients of reflection for each junction in the
    /// nasal cavity.
    pub fn calculate_nasal_reflections(&mut self)
        requires
            old(self)@.wf(),
        ensures
            final(self)@.wf(),
            !final(self)@.ready,
            final(self)@.nasal.tuned(ONE as int),
            final(self)@.oral == old(self)@.oral,
            final(self)@.velum == old(self)@.velum,
            final(self)@.nasal.diameter == old(self)@.nasal.diameter,
            final(self)@.nasal.left == old(self)@.nasal.left,
            final(self)@.nasal.right == old(self)@.nasal.right,
            final(self)@.nasal.j_left == old(self)@.nasal.j_left,
            final(self)@.nasal.j_right == old(self)@.nasal.j_right,
            final(self)@.nasal.k[0] == old(self)@.nasal.k[0],
            final(self)@.nasal.k[NASAL_LENGTH as int] == old(self)@.nasal.k[NASAL_LENGTH as int],
    {
        self.ready = false;
        self.nasal.calculate_reflections(ONE);
    }

    /// Calculates the coefficients of reflection for each junction in the
    /// oral cavity, the velum among them.
    pub fn calculate_oral_reflections(&mut self)
        requires
            old(self)@.wf(),
            old(self)@.port_sum_ahead(old(self)@.nasal.area[0]) > 0,
        ensures
            final(self)@.wf(),
            !final(self)@.ready,
            final(self)@.oral.tuned(K_SOFT_PALATE as int),
            final(self)@.velum_tuned(),
            final(self)@.nasal == old(self)@.nasal,
            final(self)@.velum.target_diameter == old(self)@.velum.target_diameter,
            final(self)@.velum.max_diameter == old(self)@.velum.max_diameter,
            final(self)@.oral.diameter == old(self)@.oral.diameter,
            final(self)@.oral.left == old(self)@.oral.left,
            final(self)@.oral.right == old(self)@.oral.right,
            final(self)@.oral.j_left == old(self)@.oral.j_left,
            final(self)@.oral.j_right == old(self)@.oral.j_right,
            final(self)@.oral.k[0] == old(self)@.oral.k[0],
            final(self)@.oral.k[ORAL_LENGTH as int] == old(self)@.oral.k[ORAL_LENGTH as int],
    {
        self.ready = false;
        self.oral.calculate_reflections(K_SOFT_PALATE);
        let before: i64 = self.oral.area[VELUM_INDEX];
        let after: i64 = self.oral.area[VELUM_INDEX + 1];
        let nose: i64 = self.nasal.area[0];
        assert(before == self@.oral.area[VELUM_INDEX as int]);
        assert(after == self@.oral.area[VELUM_INDEX + 1]);
        assert(nose == self@.nasal.area[0]);
        let sum: i64 = before + after + nose;
        self.velum.k_left = port_coefficient(before, sum);
        self.velum.k_right = port_coefficient(after, sum);
        self.velum.k_nose = port_coefficient(nose, sum);
    }

    /// Initialises the vocal tract: opens the nasal port to the velum's
    /// target and derives all areas and reflections from the diameters.
    pub fn init(&mut self)
        requires
            old(self)@.wf(),
            old(self)@.port_open(),
        ensures
            final(self)@.wf(),
            final(self)@.ready,
            final(self)@.tuned(),
            final(self)@.oral.diameter == old(self)@.oral.diameter,
            final(self)@.nasal.diameter == old(self)@.nasal.diameter.update(
                0,
                old(self)@.velum.target_diameter as int,
            ),
            final(self)@.velum.target_diameter == old(self)@.velum.target_diameter,
            final(self)@.velum.max_diameter == old(self)@.velum.max_diameter,
            final(self)@.oral.left == old(self)@.oral.left,
            final(self)@.oral.right == old(self)@.oral.right,
            final(self)@.oral.j_left == old(self)@.oral.j_left,
            final(self)@.oral.j_right == old(self)@.oral.j_right,
            final(self)@.oral.k[0] == old(self)@.oral.k[0],
            final(self)@.oral.k[ORAL_LENGTH as int] == old(self)@.oral.k[ORAL_LENGTH as int],
            final(self)@.nasal.left == old(self)@.nasal.left,
            final(self)@.nasal.right == old(self)@.nasal.right,
            final(self)@.nasal.j_left == old(self)@.nasal.j_left,
            final(self)@.nasal.j_right == old(self)@.nasal.j_right,
            final(self)@.nasal.k[0] == old(self)@.nasal.k[0],
            final(self)@.nasal.k[NASAL_LENGTH as int] == old(self)@.nasal.k[NASAL_LENGTH as int],
    {
        self.set_nasal_diameter(0, self.velum.target_diameter);
        self.calculate_nasal_reflections();
        assert(self@.nasal.area[0] == spec_circle_area(self@.nasal.diameter[0]));
        self.calculate_oral_reflections();
        self.ready = true;
    }

    /// Simulates the propagation of sound within the vocal tract by one
    /// step. The noise is reserved for turbulence and has no effect.
    pub fn step(&mut self, excitation: i64, _noise: i64)
        requires
            old(self)@.wf(),
            -AMPLITUDE_MAX <= excitation <= AMPLITUDE_MAX,
        ensures
            final(self)@ == old(self)@.step(excitation as int),
            final(self)@.wf(),
    {
        let ghost pre = self@;
        let ghost e = excitation as int;
        let glottal: i64 = self.oral.left[0];
        let labial: i64 = self.oral.right[ORAL_LENGTH - 1];
        let r: i64 = self.oral.right[VELUM_INDEX - 1];
        let l: i64 = self.oral.left[VELUM_INDEX];
        let nose: i64 = self.nasal.left[0];
        let nostril: i64 = self.nasal.right[NASAL_LENGTH - 1];
        let k_left: i64 = self.velum.k_left;
        let k_right: i64 = self.velum.k_right;
        let k_nose: i64 = self.velum.k_nose;
        proof {
            assert(glottal == pre.oral.left[0]);
            assert(labial == pre.oral.right[ORAL_LENGTH - 1]);
            assert(r == pre.oral.right[VELUM_INDEX - 1]);
            assert(l == pre.oral.left[VELUM_INDEX as int]);
            assert(nose == pre.nasal.left[0]);
            assert(nostril == pre.nasal.right[NASAL_LENGTH - 1]);
        }
        // Glottal excitation enters left and labial reflection enters right.
        self.oral.j_right.set(0, scaled(K_GLOTTAL, glottal) + excitation);
        self.oral.j_left.set(ORAL_LENGTH, scaled(K_LABIAL, labial));
        let ghost ends = self@;
        proof {
            assert(ends.oral.j_right[0] == pre.oral_j_right(e, 0));
            assert(ends.oral.j_left[ORAL_LENGTH as int] == pre.oral_j_left(ORAL_LENGTH as int));
            assert(ends.oral.j_right[ORAL_LENGTH as int] == pre.oral.j_right[ORAL_LENGTH as int]);
            assert(ends.oral.j_left[0] == pre.oral.j_left[0]);
        }
        self.oral.scatter();
        let ghost scattered = self@;
        proof {
            assert forall|m: int| 1 <= m < ORAL_LENGTH implies ends.oral.scatter_right(m)
                == pre.oral.scatter_right(m) && ends.oral.scatter_left(m) == pre.oral.scatter_left(
                m,
            ) by {}
            assert(scattered.oral.j_right[0] == ends.oral.j_right[0]);
            assert(scattered.oral.j_left[0] == ends.oral.j_left[0]);
            assert(scattered.oral.j_right[ORAL_LENGTH as int] == ends.oral.j_right[
                ORAL_LENGTH as int
            ]);
            assert(scattered.oral.j_left[ORAL_LENGTH as int] == ends.oral.j_left[
                ORAL_LENGTH as int
            ]);
        }
        // The velum takes the place of the junction before its section.
        self.oral.j_left.set(VELUM_INDEX, scaled(k_left, r) + scaled(ONE + k_left, nose + l));
        self.oral.j_right.set(VELUM_INDEX, scaled(k_right, l) + scaled(ONE + k_right, r + nose));
        self.nasal.j_right.set(0, scaled(k_nose, nose) + scaled(ONE + k_nose, l + r));
        proof {
            assert forall|m: int| 0 <= m < ORAL_LENGTH implies #[trigger] self@.oral.j_right[m]
                == pre.oral_j_right(e, m) by {
                if m != VELUM_INDEX {
                    assert(self@.oral.j_right[m] == scattered.oral.j_right[m]);
                }
            }
            assert forall|m: int| 1 <= m <= ORAL_LENGTH implies #[trigger] self@.oral.j_left[m]
                == pre.oral_j_left(m) by {
                if m != VELUM_INDEX {
                    assert(self@.oral.j_left[m] == scattered.oral.j_left[m]);
                }
            }
            assert(self@.oral.j_right[ORAL_LENGTH as int] == scattered.oral.j_right[
                ORAL_LENGTH as int
            ]);
            assert(self@.oral.j_left[0] == scattered.oral.j_left[0]);
            assert(self@.oral.j_right[ORAL_LENGTH as int] == pre.oral.j_right[ORAL_LENGTH as int]);
            assert(self@.oral.j_left[0] == pre.oral.j_left[0]);
        }
        self.oral.transfer();
        let ghost entered = self@;
        self.nasal.j_left.set(NASAL_LENGTH, scaled(K_NOSE, nostril));
        let ghost closed = self@;
        proof {
            assert(entered.nasal.j_right[0] == pre.nasal_j_right(0));
            assert(closed.nasal.j_right[0] == entered.nasal.j_right[0]);
            assert(closed.nasal.j_left[NASAL_LENGTH as int] == pre.nasal_j_left(
                NASAL_LENGTH as int,
            ));
            assert(closed.nasal.j_left[0] == pre.nasal.j_left[0]);
            assert(closed.nasal.j_right[NASAL_LENGTH as int] == pre.nasal.j_right[
                NASAL_LENGTH as int
            ]);
        }
        self.nasal.scatter();
        proof {
            assert forall|m: int| 1 <= m < NASAL_LENGTH implies closed.nasal.scatter_right(m)
                == pre.nasal.scatter_right(m) && closed.nasal.scatter_left(m)
                == pre.nasal.scatter_left(m) by {}
            assert(self@.nasal.j_right[0] == closed.nasal.j_right[0]);
            assert(self@.nasal.j_left[0] == closed.nasal.j_left[0]);
            assert(self@.nasal.j_right[NASAL_LENGTH as int] == closed.nasal.j_right[
                NASAL_LENGTH as int
            ]);
            assert(self@.nasal.j_left[NASAL_LENGTH as int] == closed.nasal.j_left[
                NASAL_LENGTH as int
            ]);
            assert forall|m: int| 0 <= m < NASAL_LENGTH implies #[trigger] self@.nasal.j_right[m]
                == pre.nasal_j_right(m) by {}
            assert forall|m: int| 1 <= m <= NASAL_LENGTH implies #[trigger] self@.nasal.j_left[m]
                == pre.nasal_j_left(m) by {}
            assert(self@.nasal.j_right[NASAL_LENGTH as int] == pre.nasal.j_right[NASAL_LENGTH as int]);
            assert(self@.nasal.j_left[0] == pre.nasal.j_left[0]);
        }
        self.nasal.transfer();
        proof {
            let post = pre.step(e);
            assert(self@.oral.j_right =~= post.oral.j_right);
            assert(self@.oral.j_left =~= post.oral.j_left);
            assert(self@.oral.right =~= post.oral.right);
            assert(self@.oral.left =~= post.oral.left);
            assert(self@.nasal.j_right =~= post.nasal.j_right);
            assert(self@.nasal.j_left =~= post.nasal.j_left);
            assert(self@.nasal.right =~= post.nasal.right);
            assert(self@.nasal.left =~= post.nasal.left);
        }
    }

    /// Filters one sample of excitation: runs the propagation step twice
    /// and returns what then radiates from the lips and the nostrils.
    pub fn process(&mut self, excitation: i64, noise: i64) -> (output: i64)
        requires
            old(self)@.wf(),
            old(self)@.ready,
            -AMPLITUDE_MAX <= excitation <= AMPLITUDE_MAX,
        ensures
            final(self)@ == old(self)@.step(excitation as int).step(excitation as int),
            final(self)@.wf(),
            final(self)@.ready,
            output == final(self)@.output(),
            old(self)@.silent() && excitation == 0 ==> final(self)@.silent() && output == 0,
    {
        proof {
            if self@.silent() && excitation == 0 {
                lemma_silence_in_silence_out(self@);
                lemma_step_keeps_wf(self@, 0);
                lemma_silence_in_silence_out(self@.step(0));
            }
        }
        self.step(excitation, noise);
        self.step(excitation, noise);
        let lips: i64 = self.oral.right[ORAL_LENGTH - 1];
        let nostrils: i64 = self.nasal.right[NASAL_LENGTH - 1];
        assert(lips == self@.oral.right[ORAL_LENGTH - 1]);
        assert(nostrils == self@.nasal.right[NASAL_LENGTH - 1]);
        lips + nostrils
    }

    /// Called before a block of samples: nothing changes.
    pub fn pre_block(&mut self)
        ensures
            *final(self) == *old(self),
    {
    }

    /// Called after a block of samples, in which the oral diameters may have
    /// changed: derives the oral reflections anew.
    pub fn post_block(&mut self)
        requires
            old(self)@.wf(),
            old(self)@.nasal.tuned(ONE as int),
            old(self)@.port_sum_ahead(old(self)@.nasal.area[0]) > 0,
        ensures
            final(self)@.wf(),
            final(self)@.ready,
            final(self)@.tuned(),
            final(self)@.nasal == old(self)@.nasal,
            final(self)@.velum.target_diameter == old(self)@.velum.target_diameter,
            final(self)@.velum.max_diameter == old(self)@.velum.max_diameter,
            final(self)@.oral.diameter == old(self)@.oral.diameter,
            final(self)@.oral.left == old(self)@.oral.left,
            final(self)@.oral.right == old(self)@.oral.right,
            final(self)@.oral.j_left == old(self)@.oral.j_left,
            final(self)@.oral.j_right == old(self)@.oral.j_right,
            final(self)@.oral.k[0] == old(self)@.oral.k[0],
            final(self)@.oral.k[ORAL_LENGTH as int] == old(self)@.oral.k[ORAL_LENGTH as int],
    {
        self.calculate_oral_reflections();
        self.ready = true;
    }

    /// Whether the reflections have been derived from the present diameters.
    pub fn is_ready(&self) -> (ready: bool)
        ensures
            ready == self@.ready,
    {
        self.ready
    }

    /// Gives oral section `m` a new diameter. The reflections are then out
    /// of date.
    pub fn set_oral_diameter(&mut self, m: usize, diameter: i64)
        requires
            old(self)@.wf(),
            m < ORAL_LENGTH,
            -DIAMETER_MAX <= diameter <= DIAMETER_MAX,
        ensures
            final(self)@.wf(),
            final(self)@ == (TractModel {
                oral: CavityModel {
                    diameter: old(self)@.oral.diameter.update(m as int, diameter as int),
                    ..old(self)@.oral
                },
                ready: false,
                ..old(self)@
            }),
    {
        self.oral.diameter.set(m, diameter);
        self.ready = false;
        proof {
            assert(self@.oral.diameter =~= old(self)@.oral.diameter.update(
                m as int,
                diameter as int,
            ));
            assert forall|i: int| 0 <= i < self@.oral.size() implies -DIAMETER_MAX
                <= #[trigger] self@.oral.diameter[i] <= DIAMETER_MAX by {
                if i != m {
                    assert(self@.oral.diameter[i] == old(self)@.oral.diameter[i]);
                }
            }
        }
    }

    /// Gives nasal section `m` a new diameter. The reflections are then out
    /// of date.
    pub fn set_nasal_diameter(&mut self, m: usize, diameter: i64)
        requires
            old(self)@.wf(),
            m < NASAL_LENGTH,
            -DIAMETER_MAX <= diameter <= DIAMETER_MAX,
        ensures
            final(self)@.wf(),
            final(self)@ == (TractModel {
                nasal: CavityModel {
                    diameter: old(self)@.nasal.diameter.update(m as int, diameter as int),
                    ..old(self)@.nasal
                },
                ready: false,
                ..old(self)@
            }),
    {
        self.nasal.diameter.set(m, diameter);
        self.ready = false;
        proof {
            assert(self@.nasal.diameter =~= old(self)@.nasal.diameter.update(
                m as int,
                diameter as int,
            ));
            assert forall|i: int| 0 <= i < self@.nasal.size() implies -DIAMETER_MAX
                <= #[trigger] self@.nasal.diameter[i] <= DIAMETER_MAX by {
                if i != m {
                    assert(self@.nasal.diameter[i] == old(self)@.nasal.diameter[i]);
                }
            }
        }
    }
}

} // verus!
