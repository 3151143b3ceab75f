//! What holds of the waves in a vocal tract: silence stays silent, and an
//! impulse crosses a uniform tube in as many steps as the tube has sections.
use vstd::prelude::*;
use crate::cavity::{attenuated, lemma_attenuation_loses, lemma_end_reflection_passive};
use crate::fixed::{fx_mul, lemma_fx_mul_bound, lemma_fx_mul_by_zero_and_one, magnitude, ONE};
use crate::geometry::spec_kelly_lochbaum;
use crate::tract::{TractModel, K_GLOTTAL, K_LABIAL, K_SOFT_PALATE, NASAL_LENGTH, ORAL_LENGTH, VELUM_INDEX};
use crate::velum::{lemma_port_coefficient_range, spec_port_coefficient};

verus! {

/// The sum of the squares of a sequence of amplitudes.
pub open spec fn sum_of_squares(s: Seq<int>) -> int
    decreases s.len(),
{
    if s.len() == 0 {
        0
    } else {
        sum_of_squares(s.drop_last()) + s.last() * s.last()
    }
}

impl TractModel {
    /// The energy of the waves in the tract: the sum of the squares of all
    /// their amplitudes.
    pub open spec fn energy(self) -> int {
        sum_of_squares(self.oral.left) + sum_of_squares(self.oral.right) + sum_of_squares(
            self.nasal.left,
        ) + sum_of_squares(self.nasal.right)
    }

    /// The tract after `n` propagation steps with the same excitation.
    pub open spec fn run(self, excitation: int, n: nat) -> TractModel
        decreases n,
    {
        if n == 0 {
            self
        } else {
            self.step(excitation).run(excitation, (n - 1) as nat)
        }
    }

    /// The tract after `n` steps of which only the first had an excitation.
    pub open spec fn impulse_response(self, excitation: int, n: nat) -> TractModel
        decreases n,
    {
        if n == 0 {
            self
        } else if n == 1 {
            self.step(excitation)
        } else {
            self.impulse_response(excitation, (n - 1) as nat).step(0)
        }
    }

    /// A uniform tube: no junction between two oral sections reflects, the
    /// velum lets the oral waves pass and shuts the nose off, and the nose
    /// is silent.
    pub open spec fn uniform(self) -> bool {
        &&& forall|m: int| 1 <= m < ORAL_LENGTH ==> #[trigger] self.oral.k[m] == 0
        &&& self.velum.k_left == 0
        &&& self.velum.k_right == 0
        &&& self.velum.k_nose == -ONE
        &&& self.nasal.silent()
    }

    /// The only wave in the oral cavity travels to the right in section `p`,
    /// with amplitude `v`.
    pub open spec fn lone_right(self, p: int, v: int) -> bool {
        &&& forall|m: int|
            0 <= m < ORAL_LENGTH ==> #[trigger] self.oral.right[m] == (if m == p {
                v
            } else {
                0
            })
        &&& forall|m: int| 0 <= m < ORAL_LENGTH ==> #[trigger] self.oral.left[m] == 0
    }

    /// The only wave in the oral cavity travels to the left in section `p`,
    /// with amplitude `v`.
    pub open spec fn lone_left(self, p: int, v: int) -> bool {
        &&& forall|m: int|
            0 <= m < ORAL_LENGTH ==> #[trigger] self.oral.left[m] == (if m == p {
                v
            } else {
                0
            })
        &&& forall|m: int| 0 <= m < ORAL_LENGTH ==> #[trigger] self.oral.right[m] == 0
    }
}

/// A propagation step keeps a tract well formed, and leaves its geometry and
/// its reflections as they were.
pub proof fn lemma_step_keeps_wf(t: TractModel, excitation: int)
    requires
        t.wf(),
    ensures
        t.step(excitation).wf(),
        t.step(excitation).ready == t.ready,
        t.step(excitation).velum == t.velum,
        t.step(excitation).oral.diameter == t.oral.diameter,
        t.step(excitation).oral.area == t.oral.area,
        t.step(excitation).oral.k == t.oral.k,
        t.step(excitation).nasal.diameter == t.nasal.diameter,
        t.step(excitation).nasal.area == t.nasal.area,
        t.step(excitation).nasal.k == t.nasal.k,
{
}

/// Silence in, silence out: a step without excitation leaves a tract in
/// which no wave travels silent, and nothing radiates from it.
pub proof fn lemma_silence_in_silence_out(t: TractModel)
    requires
        t.wf(),
        t.silent(),
    ensures
        t.step(0).silent(),
        t.step(0).output() == 0,
{
    let post = t.step(0);
    lemma_attenuation_loses(0);
    assert forall|x: int| fx_mul(x, 0) == 0 by {
        lemma_fx_mul_bound(x, 0, magnitude(x), 0);
    }
    assert(t.oral.left[0] == 0 && t.oral.left[VELUM_INDEX as int] == 0 && t.oral.right[VELUM_INDEX
        - 1] == 0 && t.oral.right[ORAL_LENGTH - 1] == 0 && t.nasal.left[0] == 0
        && t.nasal.right[NASAL_LENGTH - 1] == 0);
    assert forall|m: int| 0 <= m < ORAL_LENGTH implies t.oral_j_right(0, m) == 0 by {
        if 0 < m {
            assert(t.oral.right[m - 1] == 0 && t.oral.left[m] == 0);
        }
    }
    assert forall|m: int| 1 <= m <= ORAL_LENGTH implies t.oral_j_left(m) == 0 by {
        assert(t.oral.right[m - 1] == 0);
        if m < ORAL_LENGTH {
            assert(t.oral.left[m] == 0);
        }
    }
    assert forall|m: int| 0 <= m < NASAL_LENGTH implies t.nasal_j_right(m) == 0 by {
        if 0 < m {
            assert(t.nasal.right[m - 1] == 0 && t.nasal.left[m] == 0);
        }
    }
    assert forall|m: int| 1 <= m <= NASAL_LENGTH implies t.nasal_j_left(m) == 0 by {
        assert(t.nasal.right[m - 1] == 0);
        if m < NASAL_LENGTH {
            assert(t.nasal.left[m] == 0);
        }
    }
    assert forall|m: int| 0 <= m < post.oral.left.len() implies #[trigger] post.oral.left[m]
        == 0 by {
        assert(t.oral_j_left(m + 1) == 0);
    }
    assert forall|m: int| 0 <= m < post.oral.right.len() implies #[trigger] post.oral.right[m]
        == 0 by {
        assert(t.oral_j_right(0, m) == 0);
    }
    assert forall|m: int| 0 <= m < post.nasal.left.len() implies #[trigger] post.nasal.left[m]
        == 0 by {
        assert(t.nasal_j_left(m + 1) == 0);
    }
    assert forall|m: int| 0 <= m < post.nasal.right.len() implies #[trigger] post.nasal.right[m]
        == 0 by {
        assert(t.nasal_j_right(m) == 0);
    }
    assert(post.oral.right[ORAL_LENGTH - 1] == 0);
    assert(post.nasal.right[NASAL_LENGTH - 1] == 0);
}

/// A silent tract that is given no excitation stays silent for any number
/// of steps: it does not start to sound by itself.
pub proof fn lemma_silence_persists(t: TractModel, n: nat)
    requires
        t.wf(),
        t.silent(),
    ensures
        t.run(0, n).wf(),
        t.run(0, n).silent(),
        t.run(0, n).output() == 0,
    decreases n,
{
    if n == 0 {
        assert(t.oral.right[ORAL_LENGTH - 1] == 0);
        assert(t.nasal.right[NASAL_LENGTH - 1] == 0);
    } else {
        lemma_step_keeps_wf(t, 0);
        lemma_silence_in_silence_out(t);
        lemma_silence_persists(t.step(0), (n - 1) as nat);
    }
}

/// An amplitude after `n` steps of attenuation.
pub open spec fn attenuated_times(x: int, n: nat) -> int
    decreases n,
{
    if n == 0 {
        x
    } else {
        attenuated(attenuated_times(x, (n - 1) as nat))
    }
}

/// In a uniform tube every step moves each wave on by one section,
/// attenuated, and the waves turn round only at the two ends: at the glottis,
/// where the excitation enters, and at the lips.
pub proof fn lemma_uniform_tube_shifts(t: TractModel, excitation: int)
    requires
        t.wf(),
        t.uniform(),
    ensures
        t.step(excitation).wf(),
        t.step(excitation).uniform(),
        t.step(excitation).oral.right[0] == attenuated(
            fx_mul(K_GLOTTAL as int, t.oral.left[0]) + excitation,
        ),
        forall|m: int|
            1 <= m < ORAL_LENGTH ==> #[trigger] t.step(excitation).oral.right[m] == attenuated(
                t.oral.right[m - 1],
            ),
        forall|m: int|
            0 <= m < ORAL_LENGTH - 1 ==> #[trigger] t.step(excitation).oral.left[m] == attenuated(
                t.oral.left[m + 1],
            ),
        t.step(excitation).oral.left[ORAL_LENGTH - 1] == attenuated(
            fx_mul(K_LABIAL as int, t.oral.right[ORAL_LENGTH - 1]),
        ),
{
    let post = t.step(excitation);
    lemma_step_keeps_wf(t, excitation);
    lemma_attenuation_loses(0);
    assert forall|x: int|
        #![trigger fx_mul(0, x)]
        #![trigger fx_mul(x, 0)]
        #![trigger fx_mul(ONE as int, x)]
        fx_mul(0, x) == 0 && fx_mul(x, 0) == 0 && fx_mul(ONE as int, x) == x by {
        lemma_fx_mul_by_zero_and_one(x);
    }
    assert(t.nasal.left[0] == 0 && t.nasal.right[NASAL_LENGTH - 1] == 0);
    assert forall|m: int| 1 <= m < ORAL_LENGTH implies t.oral_j_right(excitation, m)
        == t.oral.right[m - 1] && t.oral_j_left(m) == t.oral.left[m] by {
        assert(t.oral.k[m] == 0);
    }
    assert forall|m: int| 1 <= m < ORAL_LENGTH implies #[trigger] post.oral.right[m] == attenuated(
        t.oral.right[m - 1],
    ) by {
        assert(t.oral_j_right(excitation, m) == t.oral.right[m - 1]);
    }
    assert forall|m: int| 0 <= m < ORAL_LENGTH - 1 implies #[trigger] post.oral.left[m]
        == attenuated(t.oral.left[m + 1]) by {
        assert(t.oral_j_left(m + 1) == t.oral.left[m + 1]);
    }
    assert forall|m: int| 0 <= m < NASAL_LENGTH implies t.nasal_j_right(m) == 0 by {
        if 0 < m {
            assert(t.nasal.right[m - 1] == 0 && t.nasal.left[m] == 0);
        }
    }
    assert forall|m: int| 1 <= m <= NASAL_LENGTH implies t.nasal_j_left(m) == 0 by {
        assert(t.nasal.right[m - 1] == 0);
        if m < NASAL_LENGTH {
            assert(t.nasal.left[m] == 0);
        }
    }
    assert forall|m: int| 0 <= m < post.nasal.left.len() implies #[trigger] post.nasal.left[m]
        == 0 by {
        assert(t.nasal_j_left(m + 1) == 0);
    }
    assert forall|m: int| 0 <= m < post.nasal.right.len() implies #[trigger] post.nasal.right[m]
        == 0 by {
        assert(t.nasal_j_right(m) == 0);
    }
}

/// Where no square of one sequence exceeds the square at the same place of
/// another, neither does the sum.
pub proof fn lemma_squares_bounded(a: Seq<int>, b: Seq<int>)
    requires
        a.len() == b.len(),
        forall|i: int| 0 <= i < a.len() ==> #[trigger] a[i] * a[i] <= b[i] * b[i],
    ensures
        sum_of_squares(a) <= sum_of_squares(b),
    decreases a.len(),
{
    if a.len() > 0 {
        assert forall|i: int| 0 <= i < a.drop_last().len() implies #[trigger] a.drop_last()[i]
            * a.drop_last()[i] <= b.drop_last()[i] * b.drop_last()[i] by {
            assert(a[i] * a[i] <= b[i] * b[i]);
        }
        lemma_squares_bounded(a.drop_last(), b.drop_last());
        assert(a[a.len() - 1] * a[a.len() - 1] <= b[a.len() - 1] * b[a.len() - 1]);
    }
}

/// The sum of the squares is the first square and the sum of the rest.
pub proof fn lemma_squares_from_the_front(s: Seq<int>)
    requires
        s.len() > 0,
    ensures
        sum_of_squares(s) == s[0] * s[0] + sum_of_squares(s.subrange(1, s.len() as int)),
    decreases s.len(),
{
    let rest = s.subrange(1, s.len() as int);
    if s.len() == 1 {
        assert(sum_of_squares(s.drop_last()) == 0);
        assert(sum_of_squares(rest) == 0);
        assert(s.last() == s[0]);
    } else {
        lemma_squares_from_the_front(s.drop_last());
        assert(s.drop_last().subrange(1, s.len() - 1) =~= rest.drop_last());
        assert(rest.last() == s.last());
        assert(s.drop_last()[0] == s[0]);
        assert(sum_of_squares(rest) == sum_of_squares(rest.drop_last()) + rest.last()
            * rest.last());
    }
}

/// Silence has no energy.
pub proof fn lemma_squares_of_silence(s: Seq<int>)
    requires
        forall|i: int| 0 <= i < s.len() ==> #[trigger] s[i] == 0,
    ensures
        sum_of_squares(s) == 0,
    decreases s.len(),
{
    if s.len() > 0 {
        assert(s[s.len() - 1] == 0);
        assert forall|i: int| 0 <= i < s.drop_last().len() implies #[trigger] s.drop_last()[i]
            == 0 by {
            assert(s[i] == 0);
        }
        lemma_squares_of_silence(s.drop_last());
    }
}

/// A uniform tube is passive: a step without excitation leaves no more
/// energy in it than there was.
pub proof fn lemma_uniform_tube_passive(t: TractModel)
    requires
        t.wf(),
        t.uniform(),
    ensures
        t.step(0).energy() <= t.energy(),
{
    let post = t.step(0);
    let n = ORAL_LENGTH as int;
    lemma_uniform_tube_shifts(t, 0);
    lemma_squares_of_silence(t.nasal.left);
    lemma_squares_of_silence(t.nasal.right);
    lemma_squares_of_silence(post.nasal.left);
    lemma_squares_of_silence(post.nasal.right);
    let r = t.oral.right;
    let l = t.oral.left;
    let new_r = post.oral.right;
    let new_l = post.oral.left;
    // to the right: what the glottis turns back, and every wave one section on
    lemma_squares_from_the_front(new_r);
    assert forall|i: int| 0 <= i < n - 1 implies #[trigger] new_r.subrange(1, n)[i] * new_r.subrange(
        1,
        n,
    )[i] <= r.drop_last()[i] * r.drop_last()[i] by {
        assert(new_r[i + 1] == attenuated(r[i]));
        lemma_attenuation_loses(r[i]);
    }
    lemma_squares_bounded(new_r.subrange(1, n), r.drop_last());
    lemma_end_reflection_passive(K_GLOTTAL as int, l[0]);
    // to the left: every wave one section back, and what the lips turn back
    lemma_squares_from_the_front(l);
    assert forall|i: int| 0 <= i < n - 1 implies #[trigger] new_l.drop_last()[i]
        * new_l.drop_last()[i] <= l.subrange(1, n)[i] * l.subrange(1, n)[i] by {
        assert(new_l[i] == attenuated(l[i + 1]));
        lemma_attenuation_loses(l[i + 1]);
    }
    lemma_squares_bounded(new_l.drop_last(), l.subrange(1, n));
    lemma_end_reflection_passive(K_LABIAL as int, r[n - 1]);
    assert(new_r[0] * new_r[0] <= l[0] * l[0]);
    assert(new_l[n - 1] * new_l[n - 1] <= r[n - 1] * r[n - 1]);
}

/// A tract whose oral sections all have the same area and whose nasal port
/// is closed is a uniform tube, once its reflections are derived and while
/// its nose is silent.
pub proof fn lemma_equal_areas_make_uniform(t: TractModel)
    requires
        t.wf(),
        t.tuned(),
        t.nasal.silent(),
        t.nasal.area[0] == 0,
        t.oral.area[0] > 0,
        forall|m: int| 0 <= m < ORAL_LENGTH ==> #[trigger] t.oral.area[m] == t.oral.area[0],
    ensures
        t.uniform(),
{
    let a = t.oral.area[0];
    lemma_fx_mul_by_zero_and_one(K_SOFT_PALATE as int);
    assert(0 * ONE == 0);
    vstd::arithmetic::div_mod::lemma_div_basics(2 * a);
    assert(spec_kelly_lochbaum(a, a) == 0);
    assert forall|m: int| 1 <= m < ORAL_LENGTH implies #[trigger] t.oral.k[m] == 0 by {
        assert(t.oral.area[m - 1] == a && t.oral.area[m] == a);
    }
    assert(t.oral.area[VELUM_INDEX as int] == a && t.oral.area[VELUM_INDEX + 1] == a);
    assert(spec_port_coefficient(a, 2 * a) == 0);
    lemma_port_coefficient_range(0, 2 * a);
}

/// An impulse crosses a uniform tube in as many steps as the tube has
/// sections, and returns in as many again. After `n` steps, up to the
/// length of the tube, the impulse is the only wave, travels to the right in
/// section `n - 1` and has been attenuated `n` times; so it radiates from the
/// lips at step `ORAL_LENGTH` and not before. From then on it is the only
/// wave, travels to the left, scaled by the reflection at the lips and
/// attenuated once more with every step, and reaches the glottis at step
/// `2 * ORAL_LENGTH`.
pub proof fn lemma_impulse_in_uniform_tube(t: TractModel, excitation: int, n: nat)
    requires
        t.wf(),
        t.uniform(),
        t.silent(),
        1 <= n <= 2 * ORAL_LENGTH,
    ensures
        t.impulse_response(excitation, n).wf(),
        t.impulse_response(excitation, n).uniform(),
        n <= ORAL_LENGTH ==> t.impulse_response(excitation, n).lone_right(
            n - 1,
            attenuated_times(excitation, n),
        ),
        n < ORAL_LENGTH ==> t.impulse_response(excitation, n).output() == 0,
        n == ORAL_LENGTH ==> t.impulse_response(excitation, n).output() == attenuated_times(
            excitation,
            n,
        ),
        n > ORAL_LENGTH ==> t.impulse_response(excitation, n).lone_left(
            2 * ORAL_LENGTH - n,
            attenuated_times(
                fx_mul(K_LABIAL as int, attenuated_times(excitation, ORAL_LENGTH as nat)),
                (n - ORAL_LENGTH) as nat,
            ),
        ),
    decreases n,
{
    let now = t.impulse_response(excitation, n);
    lemma_attenuation_loses(0);
    lemma_fx_mul_by_zero_and_one(K_LABIAL as int);
    lemma_fx_mul_by_zero_and_one(K_GLOTTAL as int);
    if n == 1 {
        lemma_uniform_tube_shifts(t, excitation);
        assert(t.oral.left[0] == 0);
        assert(attenuated_times(excitation, 1) == attenuated(attenuated_times(excitation, 0)));
        assert forall|m: int| 0 <= m < ORAL_LENGTH implies #[trigger] now.oral.right[m] == (if m
            == 0 {
            attenuated_times(excitation, 1)
        } else {
            0
        }) by {
            if m > 0 {
                assert(t.oral.right[m - 1] == 0);
            }
        }
        assert forall|m: int| 0 <= m < ORAL_LENGTH implies #[trigger] now.oral.left[m] == 0 by {
            if m < ORAL_LENGTH - 1 {
                assert(t.oral.left[m + 1] == 0);
            } else {
                assert(t.oral.right[ORAL_LENGTH - 1] == 0);
            }
        }
    } else {
        let before = t.impulse_response(excitation, (n - 1) as nat);
        lemma_impulse_in_uniform_tube(t, excitation, (n - 1) as nat);
        lemma_uniform_tube_shifts(before, 0);
        assert(now == before.step(0));
        if n <= ORAL_LENGTH {
            let v = attenuated_times(excitation, (n - 1) as nat);
            assert(before.lone_right(n - 2, v));
            assert(before.oral.left[0] == 0);
            assert forall|m: int| 0 <= m < ORAL_LENGTH implies #[trigger] now.oral.right[m] == (if m
                == n - 1 {
                attenuated(v)
            } else {
                0
            }) by {
                if m > 0 {
                    assert(before.oral.right[m - 1] == (if m - 1 == n - 2 {
                        v
                    } else {
                        0
                    }));
                }
            }
            assert forall|m: int| 0 <= m < ORAL_LENGTH implies #[trigger] now.oral.left[m]
                == 0 by {
                if m < ORAL_LENGTH - 1 {
                    assert(before.oral.left[m + 1] == 0);
                } else {
                    assert(before.oral.right[ORAL_LENGTH - 1] == 0);
                }
            }
        } else if n == ORAL_LENGTH + 1 {
            let v = attenuated_times(excitation, ORAL_LENGTH as nat);
            assert(before.lone_right(ORAL_LENGTH - 1, v));
            let back = fx_mul(K_LABIAL as int, v);
            assert(attenuated_times(back, 1) == attenuated(attenuated_times(back, 0)));
            assert(before.oral.left[0] == 0);
            assert(before.oral.right[ORAL_LENGTH - 1] == v);
            assert forall|m: int| 0 <= m < ORAL_LENGTH implies #[trigger] now.oral.right[m]
                == 0 by {
                if m > 0 {
                    assert(before.oral.right[m - 1] == 0);
                }
            }
            assert forall|m: int| 0 <= m < ORAL_LENGTH implies #[trigger] now.oral.left[m] == (if m
                == ORAL_LENGTH - 1 {
                attenuated(back)
            } else {
                0
            }) by {
                if m < ORAL_LENGTH - 1 {
                    assert(before.oral.left[m + 1] == 0);
                }
            }
        } else {
            let back = fx_mul(
                K_LABIAL as int,
                attenuated_times(excitation, ORAL_LENGTH as nat),
            );
            let v = attenuated_times(back, (n - 1 - ORAL_LENGTH) as nat);
            assert(before.lone_left(2 * ORAL_LENGTH - n + 1, v));
            assert(before.oral.left[0] == 0);
            assert(before.oral.right[ORAL_LENGTH - 1] == 0);
            assert forall|m: int| 0 <= m < ORAL_LENGTH implies #[trigger] now.oral.right[m]
                == 0 by {
                if m > 0 {
                    assert(before.oral.right[m - 1] == 0);
                }
            }
            assert forall|m: int| 0 <= m < ORAL_LENGTH implies #[trigger] now.oral.left[m] == (if m
                == 2 * ORAL_LENGTH - n {
                attenuated(v)
            } else {
                0
            }) by {
                if m < ORAL_LENGTH - 1 {
                    assert(before.oral.left[m + 1] == (if m + 1 == 2 * ORAL_LENGTH - n + 1 {
                        v
                    } else {
                        0
                    }));
                }
            }
        }
    }
    if n <= ORAL_LENGTH {
        assert(now.nasal.right[NASAL_LENGTH - 1] == 0);
        assert(now.oral.right[ORAL_LENGTH - 1] == (if ORAL_LENGTH - 1 == n - 1 {
            attenuated_times(excitation, n)
        } else {
            0
        }));
    }
}

} // verus!
