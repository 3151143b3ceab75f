//! A line of sections through which sound travels in both directions.
use vstd::prelude::*;
use crate::fixed::{clip, fx_mul, lemma_fx_mul_bound, magnitude, saturate, scaled, times, AMPLITUDE_MAX, ONE};
use crate::geometry::{circle_area, kelly_lochbaum, spec_circle_area, spec_kelly_lochbaum, AREA_MAX, DIAMETER_MAX};

verus! {

/// The share of an amplitude that is left after one step, in millionths.
pub const ATTENUATION: i64 = 999_900;

/// A line of sections through which sound can propagate.
#[derive(Clone, Debug)]
pub struct Cavity {
    /// Diameter of each section.
    pub diameter: Vec<i64>,
    /// Cross-sectional area of each section.
    pub area: Vec<i64>,
    /// Reflection at the junction before each section.
    pub k: Vec<i64>,
    /// Left-moving component in each section.
    pub left: Vec<i64>,
    /// Right-moving component in each section.
    pub right: Vec<i64>,
    /// Left-moving component at each junction.
    pub j_left: Vec<i64>,
    /// Right-moving component at each junction.
    pub j_right: Vec<i64>,
}

/// What a cavity holds, as sequences of mathematical integers.
pub struct CavityModel {
    pub diameter: Seq<int>,
    pub area: Seq<int>,
    pub k: Seq<int>,
    pub left: Seq<int>,
    pub right: Seq<int>,
    pub j_left: Seq<int>,
    pub j_right: Seq<int>,
}

/// The numbers of a vector as mathematical integers.
pub open spec fn ints(v: Seq<i64>) -> Seq<int> {
    Seq::new(v.len(), |i: int| v[i] as int)
}

/// A sequence of `n` zeros.
pub open spec fn zeros(n: int) -> Seq<int> {
    Seq::new(n as nat, |i: int| 0int)
}

/// What is left of an amplitude after one step, within the range of stored
/// amplitudes.
pub open spec fn attenuated(x: int) -> int {
    saturate(fx_mul(x, ATTENUATION as int))
}

/// The reflection coefficient at the junction before a section of area
/// `area`, which follows one of area `before`: a section without area is a
/// closed tube, which reflects nearly everything; elsewhere the coefficient
/// between the two areas, weakened by the wall's `coefficient`.
pub open spec fn spec_reflection(before: int, area: int, coefficient: int) -> int {
    if area == 0 {
        ATTENUATION as int
    } else {
        fx_mul(coefficient, spec_kelly_lochbaum(before, area))
    }
}

impl View for Cavity {
    type V = CavityModel;

    open spec fn view(&self) -> CavityModel {
        CavityModel {
            diameter: ints(self.diameter@),
            area: ints(self.area@),
            k: ints(self.k@),
            left: ints(self.left@),
            right: ints(self.right@),
            j_left: ints(self.j_left@),
            j_right: ints(self.j_right@),
        }
    }
}

impl CavityModel {
    /// The number of sections.
    pub open spec fn size(self) -> int {
        self.diameter.len() as int
    }

    /// Each section has a diameter, an area and two wave components within
    /// their ranges; each junction, one more than there are sections, has a
    /// coefficient between minus one and one.
    pub open spec fn wf(self) -> bool {
        &&& self.area.len() == self.size()
        &&& self.left.len() == self.size()
        &&& self.right.len() == self.size()
        &&& self.k.len() == self.size() + 1
        &&& self.j_left.len() == self.size() + 1
        &&& self.j_right.len() == self.size() + 1
        &&& forall|m: int|
            0 <= m < self.size() ==> -DIAMETER_MAX <= #[trigger] self.diameter[m] <= DIAMETER_MAX
        &&& forall|m: int| 0 <= m < self.size() ==> 0 <= #[trigger] self.area[m] <= AREA_MAX
        &&& forall|m: int| 0 <= m <= self.size() ==> -ONE <= #[trigger] self.k[m] <= ONE
        &&& forall|m: int|
            0 <= m < self.size() ==> -AMPLITUDE_MAX <= #[trigger] self.left[m] <= AMPLITUDE_MAX
        &&& forall|m: int|
            0 <= m < self.size() ==> -AMPLITUDE_MAX <= #[trigger] self.right[m] <= AMPLITUDE_MAX
    }

    /// Every area is that of its section's diameter, and every junction
    /// between two sections reflects as their areas and the wall's
    /// `coefficient` say.
    pub open spec fn tuned(self, coefficient: int) -> bool {
        &&& forall|m: int|
            0 <= m < self.size() ==> #[trigger] self.area[m] == spec_circle_area(self.diameter[m])
        &&& forall|m: int|
            1 <= m < self.size() ==> #[trigger] self.k[m] == spec_reflection(
                self.area[m - 1],
                self.area[m],
                coefficient,
            )
    }

    /// No wave is travelling in the cavity.
    pub open spec fn silent(self) -> bool {
        &&& forall|m: int| 0 <= m < self.left.len() ==> #[trigger] self.left[m] == 0
        &&& forall|m: int| 0 <= m < self.right.len() ==> #[trigger] self.right[m] == 0
    }

    /// The part of the two waves meeting at junction `m` that is turned back.
    pub open spec fn reflected(self, m: int) -> int {
        fx_mul(self.k[m], self.right[m - 1] + self.left[m])
    }

    /// What leaves junction `m` to the right.
    pub open spec fn scatter_right(self, m: int) -> int {
        self.right[m - 1] - self.reflected(m)
    }

    /// What leaves junction `m` to the left.
    pub open spec fn scatter_left(self, m: int) -> int {
        self.left[m] + self.reflected(m)
    }
}

/// Attenuation never makes an amplitude larger, and keeps silence silent.
pub proof fn lemma_attenuation_loses(x: int)
    ensures
        magnitude(attenuated(x)) <= magnitude(x),
        attenuated(x) * attenuated(x) <= x * x,
        x == 0 ==> attenuated(x) == 0,
{
    lemma_fx_mul_bound(x, ATTENUATION as int, magnitude(x), ONE as int);
    let q = magnitude(fx_mul(x, ATTENUATION as int));
    assert(q <= magnitude(x)) by (nonlinear_arith)
        requires
            q * ONE <= magnitude(x) * ONE,
    ;
    let a = magnitude(attenuated(x));
    let m = magnitude(x);
    assert(a * a <= m * m) by (nonlinear_arith)
        requires
            0 <= a <= m,
    ;
    assert(attenuated(x) * attenuated(x) == a * a) by (nonlinear_arith)
        requires
            a == attenuated(x) || a == -attenuated(x),
    ;
    assert(x * x == m * m) by (nonlinear_arith)
        requires
            m == x || m == -x,
    ;
}

/// A reflecting end is passive: what a wave of amplitude `x` leaves behind
/// after it is reflected with a coefficient between minus one and one, and
/// attenuated, has no more energy than the wave had.
pub proof fn lemma_end_reflection_passive(k: int, x: int)
    requires
        -ONE <= k <= ONE,
    ensures
        attenuated(fx_mul(k, x)) * attenuated(fx_mul(k, x)) <= x * x,
{
    let y = fx_mul(k, x);
    lemma_fx_mul_bound(k, x, ONE as int, magnitude(x));
    let q = magnitude(y);
    let m = magnitude(x);
    assert(q <= m) by (nonlinear_arith)
        requires
            q * ONE <= ONE * m,
    ;
    lemma_attenuation_loses(y);
    assert(y * y <= x * x) by (nonlinear_arith)
        requires
            0 <= q <= m,
            q == y || q == -y,
            m == x || m == -x,
    ;
}

/// A junction between two sections is passive where the part `w` that it
/// turns back satisfies `w * (w + l - r) <= 0`: the two waves that leave it,
/// attenuated, then have no more energy than the wave `r` that came from the
/// left and the wave `l` that came from the right. A junction that reflects
/// nothing (`k == 0`) is always so.
pub proof fn lemma_junction_passive(k: int, r: int, l: int)
    requires
        fx_mul(k, r + l) * (fx_mul(k, r + l) + l - r) <= 0,
    ensures
        attenuated(r - fx_mul(k, r + l)) * attenuated(r - fx_mul(k, r + l)) + attenuated(
            l + fx_mul(k, r + l),
        ) * attenuated(l + fx_mul(k, r + l)) <= r * r + l * l,
{
    let w = fx_mul(k, r + l);
    lemma_attenuation_loses(r - w);
    lemma_attenuation_loses(l + w);
    assert((r - w) * (r - w) + (l + w) * (l + w) == r * r + l * l + 2 * (w * (w + l - r)))
        by (nonlinear_arith);
}

impl Cavity {
    /// A cavity of `size` sections, all of diameter zero and at rest.
    pub fn new(size: usize) -> (cavity: Cavity)
        requires
            size < usize::MAX,
        ensures
            cavity@.wf(),
            cavity@.size() == size,
            cavity@.diameter == zeros(size as int),
            cavity@.area == zeros(size as int),
            cavity@.left == zeros(size as int),
            cavity@.right == zeros(size as int),
            cavity@.k == zeros(size + 1),
            cavity@.j_left == zeros(size + 1),
            cavity@.j_right == zeros(size + 1),
    {
        let cavity = Cavity {
            diameter: vec![0i64; size],
            area: vec![0i64; size],
            left: vec![0i64; size],
            right: vec![0i64; size],
            k: vec![0i64; size + 1],
            j_left: vec![0i64; size + 1],
            j_right: vec![0i64; size + 1],
        };
        assert(cavity@.diameter =~= zeros(size as int));
        assert(cavity@.area =~= zeros(size as int));
        assert(cavity@.left =~= zeros(size as int));
        assert(cavity@.right =~= zeros(size as int));
        assert(cavity@.k =~= zeros(size + 1));
        assert(cavity@.j_left =~= zeros(size + 1));
        assert(cavity@.j_right =~= zeros(size + 1));
        cavity
    }

    /// Derives every section's area from its diameter, and from the areas the
    /// reflection coefficient of every junction between two sections.
    pub fn calculate_reflections(&mut self, coefficient: i64)
        requires
            old(self)@.wf(),
            0 <= coefficient <= ONE,
        ensures
            final(self)@.wf(),
            final(self)@.tuned(coefficient as int),
            final(self).diameter == old(self).diameter,
            final(self).left == old(self).left,
            final(self).right == old(self).right,
            final(self).j_left == old(self).j_left,
            final(self).j_right == old(self).j_right,
            final(self)@.k.len() == old(self)@.k.len(),
            final(self)@.k[0] == old(self)@.k[0],
            final(self)@.k[old(self)@.size()] == old(self)@.k[old(self)@.size()],
    {
        let n: usize = self.diameter.len();
        let mut m: usize = 0;
        proof {
            assert forall|i: int| 0 <= i < n implies 0 <= #[trigger] self.area@[i] <= AREA_MAX by {
                assert(self@.area[i] == self.area@[i]);
            }
            assert forall|i: int| 0 <= i <= n implies -ONE <= #[trigger] self.k@[i] <= ONE by {
                assert(self@.k[i] == self.k@[i]);
            }
        }
        while m < n
            invariant
                m <= n,
                n == old(self)@.size(),
                old(self)@.wf(),
                self.diameter == old(self).diameter,
                self.k == old(self).k,
                forall|i: int| 0 <= i <= n ==> -ONE <= #[trigger] self.k@[i] <= ONE,
                self.left == old(self).left,
                self.right == old(self).right,
                self.j_left == old(self).j_left,
                self.j_right == old(self).j_right,
                self.area@.len() == n,
                forall|i: int|
                    0 <= i < m ==> #[trigger] self.area@[i] == spec_circle_area(
                        old(self)@.diameter[i],
                    ),
                forall|i: int| 0 <= i < n ==> 0 <= #[trigger] self.area@[i] <= AREA_MAX,
            decreases n - m,
        {
            let d: i64 = self.diameter[m];
            assert(d == old(self)@.diameter[m as int]);
            let ghost before = self.area@;
            self.area.set(m, circle_area(d));
            assert forall|i: int| 0 <= i < n implies 0 <= #[trigger] self.area@[i] <= AREA_MAX by {
                if i != m {
                    assert(self.area@[i] == before[i]);
                } else {
                    assert(0 <= before[i] <= AREA_MAX);
                }
            }
            m = m + 1;
        }
        let mut m: usize = 1;
        while m < n
            invariant
                1 <= m,
                m <= n || m == 1,
                n == old(self)@.size(),
                old(self)@.wf(),
                0 <= coefficient <= ONE,
                self.diameter == old(self).diameter,
                self.left == old(self).left,
                self.right == old(self).right,
                self.j_left == old(self).j_left,
                self.j_right == old(self).j_right,
                self.area@.len() == n,
                self.k@.len() == n + 1,
                forall|i: int|
                    0 <= i < n ==> #[trigger] self.area@[i] == spec_circle_area(
                        old(self)@.diameter[i],
                    ),
                forall|i: int| 0 <= i < n ==> 0 <= #[trigger] self.area@[i] <= AREA_MAX,
                forall|i: int|
                    1 <= i < m ==> #[trigger] self.k@[i] == spec_reflection(
                        self.area@[i - 1] as int,
                        self.area@[i] as int,
                        coefficient as int,
                    ),
                forall|i: int| 0 <= i <= n ==> -ONE <= #[trigger] self.k@[i] <= ONE,
                self.k@[0] == old(self).k@[0],
                self.k@[n as int] == old(self).k@[n as int],
            decreases n - m,
        {
            let before: i64 = self.area[m - 1];
            let area: i64 = self.area[m];
            assert(0 <= self.area@[m - 1] <= AREA_MAX && 0 <= self.area@[m as int] <= AREA_MAX);
            let k: i64 = if area == 0 {
                ATTENUATION
            } else {
                scaled(coefficient, kelly_lochbaum(before, area))
            };
            let ghost earlier = self.k@;
            self.k.set(m, k);
            assert forall|i: int| 0 <= i <= n implies -ONE <= #[trigger] self.k@[i] <= ONE by {
                if i != m {
                    assert(self.k@[i] == earlier[i]);
                } else {
                    assert(-ONE <= earlier[i] <= ONE);
                }
            }
            m = m + 1;
        }
        proof {
            assert(old(self)@.k[0] == old(self).k@[0]);
            assert(old(self)@.k[n as int] == old(self).k@[n as int]);
            assert forall|i: int| 0 <= i < self@.size() implies 0 <= #[trigger] self@.area[i]
                <= AREA_MAX by {
                assert(self@.area[i] == self.area@[i]);
            }
            assert forall|i: int| 0 <= i <= self@.size() implies -ONE <= #[trigger] self@.k[i]
                <= ONE by {
                assert(self@.k[i] == self.k@[i]);
            }
            assert forall|i: int| 0 <= i < self@.size() implies #[trigger] self@.area[i]
                == spec_circle_area(self@.diameter[i]) by {
                assert(self@.area[i] == self.area@[i]);
            }
            assert forall|i: int| 1 <= i < self@.size() implies #[trigger] self@.k[i]
                == spec_reflection(self@.area[i - 1], self@.area[i], coefficient as int) by {
                assert(self@.k[i] == self.k@[i]);
            }
        }
    }

    /// Scatters the waves at every junction between two sections: the
    /// junction buffers receive what leaves each junction in either direction.
    pub fn scatter(&mut self)
        requires
            old(self)@.wf(),
        ensures
            final(self).diameter == old(self).diameter,
            final(self).area == old(self).area,
            final(self).k == old(self).k,
            final(self).left == old(self).left,
            final(self).right == old(self).right,
            final(self)@.j_right.len() == old(self)@.j_right.len(),
            final(self)@.j_left.len() == old(self)@.j_left.len(),
            forall|m: int|
                1 <= m < old(self)@.size() ==> #[trigger] final(self)@.j_right[m] == old(
                    self,
                )@.scatter_right(m),
            forall|m: int|
                1 <= m < old(self)@.size() ==> #[trigger] final(self)@.j_left[m] == old(
                    self,
                )@.scatter_left(m),
            forall|m: int|
                m == 0 || m == old(self)@.size() ==> #[trigger] final(self)@.j_right[m] == old(
                    self,
                )@.j_right[m],
            forall|m: int|
                m == 0 || m == old(self)@.size() ==> #[trigger] final(self)@.j_left[m] == old(
                    self,
                )@.j_left[m],
    {
        let n: usize = self.left.len();
        let mut m: usize = 1;
        while m < n
            invariant
                1 <= m,
                m <= n || m == 1,
                n == old(self)@.size(),
                old(self)@.wf(),
                self.diameter == old(self).diameter,
                self.area == old(self).area,
                self.k == old(self).k,
                self.left == old(self).left,
                self.right == old(self).right,
                self.j_right@.len() == n + 1,
                self.j_left@.len() == n + 1,
                forall|i: int|
                    1 <= i < m ==> #[trigger] self@.j_right[i] == old(self)@.scatter_right(i),
                forall|i: int|
                    1 <= i < m ==> #[trigger] self@.j_left[i] == old(self)@.scatter_left(i),
                forall|i: int|
                    i == 0 || m <= i <= n ==> #[trigger] self@.j_right[i] == old(self)@.j_right[i],
                forall|i: int|
                    i == 0 || m <= i <= n ==> #[trigger] self@.j_left[i] == old(self)@.j_left[i],
            decreases n - m,
        {
            let ghost before = self@;
            let r: i64 = self.right[m - 1];
            let l: i64 = self.left[m];
            let k: i64 = self.k[m];
            assert(r == old(self)@.right[m - 1] && l == old(self)@.left[m as int] && k == old(
                self,
            )@.k[m as int]);
            let w: i64 = scaled(k, r + l);
            self.j_right.set(m, r - w);
            self.j_left.set(m, l + w);
            proof {
                assert forall|i: int| 1 <= i < m + 1 implies #[trigger] self@.j_right[i] == old(
                    self,
                )@.scatter_right(i) by {
                    if i < m {
                        assert(self@.j_right[i] == before.j_right[i]);
                    }
                }
                assert forall|i: int| 1 <= i < m + 1 implies #[trigger] self@.j_left[i] == old(
                    self,
                )@.scatter_left(i) by {
                    if i < m {
                        assert(self@.j_left[i] == before.j_left[i]);
                    }
                }
                assert forall|i: int| i == 0 || m + 1 <= i <= n implies #[trigger] self@.j_right[i]
                    == old(self)@.j_right[i] by {
                    assert(self@.j_right[i] == before.j_right[i]);
                }
                assert forall|i: int| i == 0 || m + 1 <= i <= n implies #[trigger] self@.j_left[i]
                    == old(self)@.j_left[i] by {
                    assert(self@.j_left[i] == before.j_left[i]);
                }
            }
            m = m + 1;
        }
    }

    /// Moves what left each junction into the sections beside it, attenuated:
    /// to the right into the section after the junction, to the left into the
    /// one before it.
    pub fn transfer(&mut self)
        requires
            old(self)@.wf(),
        ensures
            final(self)@.wf(),
            final(self).diameter == old(self).diameter,
            final(self).area == old(self).area,
            final(self).k == old(self).k,
            final(self).j_left == old(self).j_left,
            final(self).j_right == old(self).j_right,
            final(self)@.right == Seq::new(
                old(self)@.size() as nat,
                |m: int| attenuated(old(self)@.j_right[m]),
            ),
            final(self)@.left == Seq::new(
                old(self)@.size() as nat,
                |m: int| attenuated(old(self)@.j_left[m + 1]),
            ),
    {
        let n: usize = self.left.len();
        let mut m: usize = 0;
        while m < n
            invariant
                m <= n,
                n == old(self)@.size(),
                old(self)@.wf(),
                self.diameter == old(self).diameter,
                self.area == old(self).area,
                self.k == old(self).k,
                self.j_left == old(self).j_left,
                self.j_right == old(self).j_right,
                self.left@.len() == n,
                self.right@.len() == n,
                forall|i: int|
                    0 <= i < m ==> #[trigger] self.right@[i] == attenuated(old(self)@.j_right[i]),
                forall|i: int|
                    0 <= i < m ==> #[trigger] self.left@[i] == attenuated(
                        old(self)@.j_left[i + 1],
                    ),
                forall|i: int| m <= i < n ==> #[trigger] self.right@[i] == old(self).right@[i],
                forall|i: int| m <= i < n ==> #[trigger] self.left@[i] == old(self).left@[i],
            decreases n - m,
        {
            let to_right: i64 = clip(times(self.j_right[m], ATTENUATION));
            let to_left: i64 = clip(times(self.j_left[m + 1], ATTENUATION));
            self.right.set(m, to_right);
            self.left.set(m, to_left);
            m = m + 1;
        }
        proof {
            assert(self@.right =~= Seq::new(
                old(self)@.size() as nat,
                |m: int| attenuated(old(self)@.j_right[m]),
            ));
            assert(self@.left =~= Seq::new(
                old(self)@.size() as nat,
                |m: int| attenuated(old(self)@.j_left[m + 1]),
            ));
            assert forall|i: int| 0 <= i < self@.size() implies -AMPLITUDE_MAX
                <= #[trigger] self@.left[i] <= AMPLITUDE_MAX by {
                assert(self@.left[i] == self.left@[i]);
            }
            assert forall|i: int| 0 <= i < self@.size() implies -AMPLITUDE_MAX
                <= #[trigger] self@.right[i] <= AMPLITUDE_MAX by {
                assert(self@.right[i] == self.right@[i]);
            }
        }
    }
}

} // verus!
