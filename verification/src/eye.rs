//! The eye: a fixed ring of photoreceptor cells over a bounded field of
//! view. Sensing is a pure function from the agent's position and heading
//! and the food positions to a fixed-length intensity vector, specified
//! exactly by `vision_s`.

use vstd::prelude::*;

use crate::food::Food;
use crate::fx::{fx_add, fx_add_s, fx_div, fx_div_s, fx_sub, fx_sub_s, iabs, tdiv, tdiv128, FX_LIM,
    FX_ONE};
use crate::trig::{atan2, atan2_s, dist, dist_s, wrap_pi, wrap_pi_s};

verus! {

/// Cell count of the standard eye.
pub const EYE_CELLS: usize = 9;

/// Field-of-view range of the standard eye: a quarter of the world.
pub const EYE_FOV_RANGE: i64 = 250_000;

/// Field-of-view angle of the standard eye: pi times a quarter pi.
pub const EYE_FOV_ANGLE: i64 = 2_467_400;

/// The largest cell count an eye may be built with. The cap keeps the
/// weight count of the topology an eye dictates — on the order of the
/// cell count squared — inside the index range of every machine the
/// library may run on, including one whose indexes are 32 bits wide.
pub const MAX_EYE_CELLS: usize = 10_000;

/// The mathematical content of an eye's configuration.
pub struct EyeView {
    pub fov_range: i64,
    pub fov_angle: i64,
    pub cells: usize,
}

pub struct Eye {
    fov_range: i64,
    fov_angle: i64,
    cells: usize,
}

impl View for Eye {
    type V = EyeView;

    closed spec fn view(&self) -> EyeView {
        EyeView { fov_range: self.fov_range, fov_angle: self.fov_angle, cells: self.cells }
    }
}

pub open spec fn eye_wf(e: EyeView) -> bool {
    &&& 0 < e.fov_range <= FX_LIM
    &&& 0 < e.fov_angle <= FX_LIM
    &&& 1 <= e.cells <= MAX_EYE_CELLS
}

/// What one food contributes to the intensity vector: nothing when it lies
/// at or beyond the view range, nothing when its bearing falls outside the
/// view angle; otherwise an energy that grows as the food comes closer,
/// accumulated into the cell its bearing maps to (the exact angular edge
/// maps into the last cell).
pub open spec fn see_food_s(e: EyeView, px: int, py: int, rot: int, fx: int, fy: int) -> Option<
    (int, int),
> {
    let d = dist_s(px, py, fx, fy);
    if d >= e.fov_range {
        None
    } else {
        let vx = fx_sub_s(fx, px);
        let vy = fx_sub_s(fy, py);
        let bearing = wrap_pi_s(fx_sub_s(atan2_s(vy, vx), rot));
        let half = (e.fov_angle as int) / 2;
        if bearing < -half || bearing > half {
            None
        } else {
            let shifted = fx_add_s(bearing, half);
            let frac = fx_div_s(shifted, e.fov_angle as int);
            let cell = tdiv(frac * e.cells, FX_ONE as int);
            let idx = if cell < e.cells {
                cell
            } else {
                e.cells - 1
            };
            let energy = fx_div_s(fx_sub_s(e.fov_range as int, d), e.fov_range as int);
            Some((idx, energy))
        }
    }
}

/// One food's contribution folded into the intensity vector.
pub open spec fn vision_apply_s(acc: Seq<i64>, c: Option<(int, int)>) -> Seq<i64> {
    match c {
        None => acc,
        Some((idx, energy)) => if 0 <= idx < acc.len() {
            acc.update(idx, fx_add_s(acc[idx] as int, energy) as i64)
        } else {
            acc
        },
    }
}

/// The intensity vector after folding in the foods from index `i` on.
pub open spec fn vision_loop_s(
    e: EyeView,
    px: int,
    py: int,
    rot: int,
    foods: Seq<(i64, i64)>,
    i: int,
    acc: Seq<i64>,
) -> Seq<i64>
    decreases foods.len() - i,
{
    if i < 0 || i >= foods.len() {
        acc
    } else {
        vision_loop_s(
            e,
            px,
            py,
            rot,
            foods,
            i + 1,
            vision_apply_s(acc, see_food_s(e, px, py, rot, foods[i].0 as int, foods[i].1 as int)),
        )
    }
}

/// The whole intensity vector: all cells start at zero, and every food
/// adds its contribution in order.
pub open spec fn vision_s(e: EyeView, px: int, py: int, rot: int, foods: Seq<(i64, i64)>) -> Seq<
    i64,
> {
    vision_loop_s(e, px, py, rot, foods, 0, Seq::new(e.cells as nat, |i: int| 0i64))
}

/// The food positions, in order.
pub open spec fn foods_view(foods: Seq<Food>) -> Seq<(i64, i64)> {
    Seq::new(foods.len(), |i: int| foods[i]@)
}

/// The angular-edge law: a food inside the view range whose bearing falls
/// exactly on the far angular edge is seen, and lands in the last cell —
/// never out of bounds. It holds for every eye whose view angle is even
/// in millionths, so that the half angle is exact; for an odd view angle
/// the exact edge bearing is not representable, and a bearing at the
/// truncated half angle may land one cell earlier when the angle spans
/// only a few millionths of a radian.
pub proof fn lemma_angular_edge_last_cell(
    e: EyeView,
    px: int,
    py: int,
    rot: int,
    fx: int,
    fy: int,
)
    requires
        eye_wf(e),
        e.fov_angle % 2 == 0,
        dist_s(px, py, fx, fy) < e.fov_range,
        wrap_pi_s(fx_sub_s(atan2_s(fx_sub_s(fy, py), fx_sub_s(fx, px)), rot)) == (e.fov_angle
            as int) / 2,
    ensures
        see_food_s(e, px, py, rot, fx, fy) matches Some(p) && p.0 == e.cells - 1,
{
    let half = (e.fov_angle as int) / 2;
    let fov = e.fov_angle as int;
    let s = FX_ONE as int;
    assert(half + half == fov) by {
        vstd::arithmetic::div_mod::lemma_fundamental_div_mod(fov, 2);
    }
    let shifted = fx_add_s(half, half);
    assert(shifted == fov);
    assert(0 < fov * s) by (nonlinear_arith)
        requires
            0 < fov,
            0 < s,
    ;
    assert((fov * s) / fov == s) by {
        vstd::arithmetic::div_mod::lemma_div_multiples_vanish(s, fov);
    }
    assert(tdiv(fov * s, fov) == s);
    let frac = fx_div_s(shifted, fov);
    assert(frac == s);
    assert(0 < s * e.cells) by (nonlinear_arith)
        requires
            0 < s,
            0 < e.cells,
    ;
    assert((s * e.cells) / s == e.cells) by {
        vstd::arithmetic::div_mod::lemma_div_multiples_vanish(e.cells as int, s);
    }
    assert(tdiv(frac * e.cells, s) == e.cells);
}

impl Eye {
    /// The eye's configuration stays well formed.
    #[verifier::type_invariant]
    pub(crate) open spec fn config_valid(self) -> bool {
        eye_wf(self@)
    }

    /// An eye with the given field-of-view range and angle and cell count.
    /// Range and angle are positive; there is at least one cell.
    pub fn new(fov_range: i64, fov_angle: i64, cells: usize) -> (r: Self)
        requires
            0 < fov_range <= FX_LIM,
            0 < fov_angle <= FX_LIM,
            1 <= cells <= MAX_EYE_CELLS,
        ensures
            r@ == (EyeView { fov_range, fov_angle, cells }),
    {
        Self { fov_range, fov_angle, cells }
    }

    pub fn cells(&self) -> (r: usize)
        ensures
            r == self@.cells,
            1 <= r <= MAX_EYE_CELLS,
    {
        proof {
            use_type_invariant(&*self);
        }
        self.cells
    }

    /// The standard eye's configuration, as a spec value.
    pub open spec fn default_view() -> EyeView {
        EyeView { fov_range: EYE_FOV_RANGE, fov_angle: EYE_FOV_ANGLE, cells: EYE_CELLS }
    }

    /// What one food adds to the intensity vector, if anything: the cell
    /// its bearing maps to, and the energy of its closeness.
    fn see_food(&self, px: i64, py: i64, rot: i64, food: &Food) -> (r: Option<(usize, i64)>)
        requires
            iabs(px as int) <= FX_LIM,
            iabs(py as int) <= FX_LIM,
        ensures
            (r is None) == (see_food_s(self@, px as int, py as int, rot as int, food@.0 as int,
            food@.1 as int) is None),
            r matches Some(p) ==> see_food_s(
                self@,
                px as int,
                py as int,
                rot as int,
                food@.0 as int,
                food@.1 as int,
            ) == Some((p.0 as int, p.1 as int)) && p.0 < self@.cells,
    {
        proof {
            use_type_invariant(&*self);
            use_type_invariant(&*food);
        }
        let (fx_, fy_) = food.position();
        let d = dist(px, py, fx_, fy_);
        if d >= self.fov_range {
            return None;
        }
        let vx = fx_sub(fx_, px);
        let vy = fx_sub(fy_, py);
        let bearing = wrap_pi(fx_sub(atan2(vy, vx), rot));
        let half = ((self.fov_angle as u64) / 2) as i64;
        if bearing < -half || bearing > half {
            return None;
        }
        let shifted = fx_add(bearing, half);
        let frac = fx_div(shifted, self.fov_angle);
        proof {
            assert(0 <= frac) by {
                assert(0 <= shifted);
                assert(0 <= tdiv(shifted as int * FX_ONE as int, self.fov_angle as int)) by (
                nonlinear_arith)
                    requires
                        0 <= shifted as int * FX_ONE as int || 0 <= shifted,
                        0 <= shifted,
                        0 < FX_ONE,
                        0 < self.fov_angle,
                ;
            }
            assert((frac as i128) * (self.cells as i128) <= 0x7FFF_FFFF_FFFF_FFFF_FFFFint
                && 0 <= (frac as i128) * (self.cells as i128)) by (nonlinear_arith)
                requires
                    0 <= frac as int <= FX_LIM as int,
                    0 <= self.cells as int <= MAX_EYE_CELLS as int,
            ;
        }
        let cell128 = tdiv128((frac as i128) * (self.cells as i128), FX_ONE as i128);
        let idx: usize = if cell128 < self.cells as i128 {
            proof {
                assert(0 <= tdiv((frac as i128 * self.cells as i128) as int, FX_ONE as int));
            }
            cell128 as usize
        } else {
            self.cells - 1
        };
        let energy = fx_div(fx_sub(self.fov_range, d), self.fov_range);
        Some((idx, energy))
    }

    /// The whole act of seeing: every food's contribution, in food order,
    /// accumulated over an all-zero intensity vector.
    pub fn process_vision(&self, px: i64, py: i64, rot: i64, foods: &Vec<Food>) -> (r: Vec<i64>)
        requires
            iabs(px as int) <= FX_LIM,
            iabs(py as int) <= FX_LIM,
        ensures
            r@ == vision_s(self@, px as int, py as int, rot as int, foods_view(foods@)),
            r@.len() == self@.cells,
    {
        proof {
            use_type_invariant(&*self);
        }
        let nc = self.cells;
        let mut cells: Vec<i64> = Vec::new();
        let mut z: usize = 0;
        while z < nc
            invariant
                z <= nc,
                cells@ =~= Seq::new(z as nat, |i: int| 0i64),
            decreases nc - z,
        {
            cells.push(0);
            proof {
                assert(cells@ =~= Seq::new((z + 1) as nat, |i: int| 0i64));
            }
            z = z + 1;
        }
        let ghost fv = foods_view(foods@);
        let ghost e = self@;
        let ghost px_g = px as int;
        let ghost py_g = py as int;
        let ghost rot_g = rot as int;
        let n = foods.len();
        let mut i: usize = 0;
        while i < n
            invariant
                i <= n,
                n == foods@.len(),
                fv == foods_view(foods@),
                e == self@,
                eye_wf(e),
                px_g == px as int,
                py_g == py as int,
                rot_g == rot as int,
                iabs(px as int) <= FX_LIM,
                iabs(py as int) <= FX_LIM,
                cells@.len() == e.cells,
                vision_loop_s(e, px_g, py_g, rot_g, fv, i as int, cells@) == vision_s(
                    e,
                    px_g,
                    py_g,
                    rot_g,
                    fv,
                ),
            decreases n - i,
        {
            let seen = self.see_food(px, py, rot, &foods[i]);
            let ghost pre = cells@;
            let ghost c = see_food_s(
                e,
                px_g,
                py_g,
                rot_g,
                fv[i as int].0 as int,
                fv[i as int].1 as int,
            );
            proof {
                assert(fv[i as int] == foods@[i as int]@);
            }
            match seen {
                Some((idx, energy)) => {
                    let prev = cells[idx];
                    cells.set(idx, fx_add(prev, energy));
                    proof {
                        assert(c == Some((idx as int, energy as int)));
                        assert(cells@ =~= vision_apply_s(pre, c));
                    }
                },
                None => {
                    proof {
                        assert(vision_apply_s(pre, c) == pre);
                    }
                },
            }
            proof {
                assert(vision_loop_s(e, px_g, py_g, rot_g, fv, i as int, pre) == vision_loop_s(
                    e,
                    px_g,
                    py_g,
                    rot_g,
                    fv,
                    i + 1,
                    vision_apply_s(pre, c),
                ));
            }
            i = i + 1;
        }
        cells
    }
}

impl Default for Eye {
    /// The standard eye: range a quarter of the world, angle pi times a
    /// quarter pi, nine cells.
    fn default() -> (r: Self)
        ensures
            r@ == Eye::default_view(),
    {
        Self::new(EYE_FOV_RANGE, EYE_FOV_ANGLE, EYE_CELLS)
    }
}

} // verus!
