//! Angles and trigonometry in the fixed-point model.
//!
//! Angles are scalars holding radians in millionths; `FX_PI` is the model's
//! value of pi. Sine and cosine use Bhaskara's rational approximation, the
//! arc tangent a quadratic one; each executable function returns exactly the
//! value of its specification, which is a composition of the exact scalar
//! operations of `fx`.

use vstd::prelude::*;

use crate::fx::{
    emod, fx_add, fx_add_s, fx_div, fx_div_s, fx_mul, fx_mul_s, fx_sub, fx_sub_s, iabs, FX_LIM,
    FX_ONE,
};

verus! {

/// The model's value of pi, in millionths of a radian.
pub const FX_PI: i64 = 3_141_592;

pub const FX_TWO_PI: i64 = 6_283_184;

pub const FX_FRAC_PI_2: i64 = 1_570_796;

pub const FX_FRAC_PI_4: i64 = 785_398;

/// `5 * pi * pi` in millionths, the denominator constant of Bhaskara's
/// sine approximation.
pub const FX_FIVE_PI_SQ: i64 = 49_348_000;

/// `16.0` in millionths.
pub const FX_SIXTEEN: i64 = 16_000_000;

/// `4.0` in millionths.
pub const FX_FOUR: i64 = 4_000_000;

/// `0.273` in millionths, the coefficient of the arc-tangent approximation.
pub const FX_ATAN_K: i64 = 273_000;

/// Bhaskara's approximation of the sine on `[0, pi]`:
/// `sin t ~ 16 a / (5 pi^2 - 4 a)` where `a = t (pi - t)`.
pub open spec fn sin_half_s(t: int) -> int {
    let a = fx_mul_s(t, fx_sub_s(FX_PI as int, t));
    fx_div_s(
        fx_mul_s(FX_SIXTEEN as int, a),
        fx_sub_s(FX_FIVE_PI_SQ as int, fx_mul_s(FX_FOUR as int, a)),
    )
}

/// The sine of any angle: reduce into `[0, 2 pi)`, then apply the half-turn
/// approximation with its sign.
pub open spec fn sin_s(t: int) -> int {
    let s = t % (FX_TWO_PI as int);
    if s <= FX_PI {
        sin_half_s(s)
    } else {
        -sin_half_s(s - FX_PI)
    }
}

/// The cosine, as the sine a quarter turn ahead.
pub open spec fn cos_s(t: int) -> int {
    sin_s(t % (FX_TWO_PI as int) + FX_FRAC_PI_2 as int)
}

fn sin_half(t: i64) -> (r: i64)
    ensures
        r == sin_half_s(t as int),
{
    let a = fx_mul(t, fx_sub(FX_PI, t));
    fx_div(fx_mul(FX_SIXTEEN, a), fx_sub(FX_FIVE_PI_SQ, fx_mul(FX_FOUR, a)))
}

pub fn sin(t: i64) -> (r: i64)
    ensures
        r == sin_s(t as int),
{
    let s = emod(t, FX_TWO_PI);
    if s <= FX_PI {
        sin_half(s)
    } else {
        let h = sin_half(s - FX_PI);
        -h
    }
}

pub fn cos(t: i64) -> (r: i64)
    ensures
        r == cos_s(t as int),
{
    let s = emod(t, FX_TWO_PI);
    sin(s + FX_FRAC_PI_2)
}

/// A quadratic approximation of the arc tangent on `[0, 1]`:
/// `atan t ~ (pi / 4) t + 0.273 t (1 - t)`.
pub open spec fn atan_unit_s(t: int) -> int {
    fx_add_s(
        fx_mul_s(FX_FRAC_PI_4 as int, t),
        fx_mul_s(fx_mul_s(FX_ATAN_K as int, t), fx_sub_s(FX_ONE as int, t)),
    )
}

/// The angle of the vector `(x, y)` against the positive x axis, in
/// `(-pi, pi]`; the zero vector maps to angle zero. A vector pointing along
/// the negative x axis maps exactly to `FX_PI`.
pub open spec fn atan2_s(y: int, x: int) -> int {
    if x == 0 && y == 0 {
        0
    } else {
        let ax = iabs(x);
        let ay = iabs(y);
        let m = if ay <= ax {
            atan_unit_s(fx_div_s(ay, ax))
        } else {
            fx_sub_s(FX_FRAC_PI_2 as int, atan_unit_s(fx_div_s(ax, ay)))
        };
        let m2 = if x < 0 {
            fx_sub_s(FX_PI as int, m)
        } else {
            m
        };
        if y < 0 {
            -m2
        } else {
            m2
        }
    }
}

fn atan_unit(t: i64) -> (r: i64)
    ensures
        r == atan_unit_s(t as int),
{
    fx_add(fx_mul(FX_FRAC_PI_4, t), fx_mul(fx_mul(FX_ATAN_K, t), fx_sub(FX_ONE, t)))
}

pub fn atan2(y: i64, x: i64) -> (r: i64)
    requires
        iabs(x as int) <= FX_LIM,
        iabs(y as int) <= FX_LIM,
    ensures
        r == atan2_s(y as int, x as int),
{
    if x == 0 && y == 0 {
        return 0;
    }
    let ax = if x < 0 {
        -x
    } else {
        x
    };
    let ay = if y < 0 {
        -y
    } else {
        y
    };
    let m = if ay <= ax {
        atan_unit(fx_div(ay, ax))
    } else {
        fx_sub(FX_FRAC_PI_2, atan_unit(fx_div(ax, ay)))
    };
    let m2 = if x < 0 {
        fx_sub(FX_PI, m)
    } else {
        m
    };
    if y < 0 {
        -m2
    } else {
        m2
    }
}

/// The Euclidean distance between two points, rounded down to a whole
/// number of millionths.
pub open spec fn dist_s(ax: int, ay: int, bx: int, by: int) -> int {
    crate::fx::sqrt_floor((ax - bx) * (ax - bx) + (ay - by) * (ay - by))
}

pub fn dist(ax: i64, ay: i64, bx: i64, by: i64) -> (r: i64)
    requires
        iabs(ax as int) <= FX_LIM,
        iabs(ay as int) <= FX_LIM,
        iabs(bx as int) <= FX_LIM,
        iabs(by as int) <= FX_LIM,
    ensures
        r == dist_s(ax as int, ay as int, bx as int, by as int),
        0 <= r <= 3 * FX_LIM,
{
    let dx: i128 = ax as i128 - bx as i128;
    let dy: i128 = ay as i128 - by as i128;
    proof {
        assert(dx * dx <= 4_000_000_000_000_000_000_000_000_000_000int && dx * dx >= 0)
            by (nonlinear_arith)
            requires
                iabs(dx as int) <= 2_000_000_000_000_000int,
        ;
        assert(dy * dy <= 4_000_000_000_000_000_000_000_000_000_000int && dy * dy >= 0)
            by (nonlinear_arith)
            requires
                iabs(dy as int) <= 2_000_000_000_000_000int,
        ;
    }
    let sq: u128 = (dx * dx) as u128 + (dy * dy) as u128;
    let root = crate::fx::isqrt(sq);
    proof {
        assert(root <= 3_000_000_000_000_000u128) by (nonlinear_arith)
            requires
                (root as int) * (root as int) <= sq as int,
                sq as int <= 8_000_000_000_000_000_000_000_000_000_000int,
                0 <= root as int,
        ;
    }
    root as i64
}

/// The representative of angle `v` in `[-pi, pi]`, reached by whole turns.
/// Both endpoints represent themselves, so a bearing of exactly half a
/// turn stays at `FX_PI` rather than flipping to `-FX_PI`.
pub open spec fn wrap_pi_s(v: int) -> int
    decreases iabs(v),
{
    if v > FX_PI {
        wrap_pi_s(v - FX_TWO_PI as int)
    } else if v < -(FX_PI as int) {
        wrap_pi_s(v + FX_TWO_PI as int)
    } else {
        v
    }
}

pub fn wrap_pi(v: i64) -> (r: i64)
    requires
        iabs(v as int) <= FX_LIM,
    ensures
        r == wrap_pi_s(v as int),
{
    let mut w = v;
    while w > FX_PI || w < -FX_PI
        invariant
            wrap_pi_s(w as int) == wrap_pi_s(v as int),
            iabs(w as int) <= FX_LIM,
        decreases iabs(w as int),
    {
        if w > FX_PI {
            w = w - FX_TWO_PI;
        } else {
            w = w + FX_TWO_PI;
        }
    }
    w
}

} // verus!
