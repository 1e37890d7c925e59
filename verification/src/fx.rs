//! Exact fixed-point scalar arithmetic.
//!
//! Every scalar of the library is an `i64` holding millionths: the value
//! `1_500_000` stands for `1.5`. All operations saturate at `FX_LIM`, so they
//! are total over `i64` and every result is again a valid scalar.

use vstd::prelude::*;

verus! {

/// One whole unit: scalars hold millionths.
pub const FX_ONE: i64 = 1_000_000;

/// Saturation bound of every scalar operation.
pub const FX_LIM: i64 = 1_000_000_000_000_000;

pub open spec fn iabs(n: int) -> int {
    if n < 0 {
        -n
    } else {
        n
    }
}

/// Division truncated toward zero, with division by zero yielding zero.
pub open spec fn tdiv(n: int, d: int) -> int {
    if d == 0 {
        0
    } else {
        let q = iabs(n) / iabs(d);
        if (n < 0) != (d < 0) {
            -q
        } else {
            q
        }
    }
}

/// Saturation to the scalar range.
pub open spec fn fx_clip(v: int) -> int {
    if v > FX_LIM {
        FX_LIM as int
    } else if v < -(FX_LIM as int) {
        -(FX_LIM as int)
    } else {
        v
    }
}

pub open spec fn fx_add_s(a: int, b: int) -> int {
    fx_clip(a + b)
}

pub open spec fn fx_sub_s(a: int, b: int) -> int {
    fx_clip(a - b)
}

/// The product of two scalars, rescaled back to millionths.
pub open spec fn fx_mul_s(a: int, b: int) -> int {
    fx_clip(tdiv(a * b, FX_ONE as int))
}

/// The quotient of two scalars, rescaled to millionths.
pub open spec fn fx_div_s(a: int, b: int) -> int {
    fx_clip(tdiv(a * (FX_ONE as int), b))
}

pub(crate) fn clip128(v: i128) -> (r: i64)
    ensures
        r == fx_clip(v as int),
{
    if v > FX_LIM as i128 {
        FX_LIM
    } else if v < -FX_LIM as i128 {
        -FX_LIM
    } else {
        v as i64
    }
}

/// Truncated division on machine integers, matching `tdiv`.
pub(crate) fn tdiv128(n: i128, d: i128) -> (r: i128)
    requires
        i128::MIN < n,
        i128::MIN < d,
    ensures
        r == tdiv(n as int, d as int),
        iabs(r as int) <= iabs(n as int),
{
    if d == 0 {
        return 0;
    }
    let nn: u128 = if n < 0 {
        (-n) as u128
    } else {
        n as u128
    };
    let dd: u128 = if d < 0 {
        (-d) as u128
    } else {
        d as u128
    };
    let q: u128 = nn / dd;
    assert(q <= nn) by {
        vstd::arithmetic::div_mod::lemma_div_is_ordered_by_denominator(nn as int, 1, dd as int);
        vstd::arithmetic::div_mod::lemma_div_basics(nn as int);
    }
    if (n < 0) != (d < 0) {
        -(q as i128)
    } else {
        q as i128
    }
}

/// Clamping into a closed range: values below `lo` become `lo`, values
/// above `hi` become `hi`.
pub open spec fn clamp_s(v: int, lo: int, hi: int) -> int {
    if v < lo {
        lo
    } else if v > hi {
        hi
    } else {
        v
    }
}

pub fn fx_clamp(v: i64, lo: i64, hi: i64) -> (r: i64)
    ensures
        r == clamp_s(v as int, lo as int, hi as int),
{
    if v < lo {
        lo
    } else if v > hi {
        hi
    } else {
        v
    }
}

/// The saturating sum of a scalar sequence, accumulated left to right from
/// zero.
pub open spec fn fx_sum_s(xs: Seq<i64>) -> int
    decreases xs.len(),
{
    if xs.len() == 0 {
        0
    } else {
        fx_add_s(fx_sum_s(xs.drop_last()), xs.last() as int)
    }
}

pub fn fx_sum(xs: &Vec<i64>) -> (r: i64)
    ensures
        r == fx_sum_s(xs@),
{
    let n = xs.len();
    let mut acc: i64 = 0;
    let mut i: usize = 0;
    while i < n
        invariant
            i <= n,
            n == xs@.len(),
            acc == fx_sum_s(xs@.take(i as int)),
        decreases n - i,
    {
        acc = fx_add(acc, xs[i]);
        proof {
            assert(xs@.take(i + 1).drop_last() =~= xs@.take(i as int));
            assert(xs@.take(i + 1).last() == xs@[i as int]);
        }
        i = i + 1;
    }
    proof {
        assert(xs@.take(n as int) =~= xs@);
    }
    acc
}

/// Euclidean remainder: the representative of `v` in `[0, m)`.
pub fn emod(v: i64, m: i64) -> (r: i64)
    requires
        0 < m,
    ensures
        r == (v as int) % (m as int),
        0 <= r < m,
{
    if v >= 0 {
        let r = ((v as u128) % (m as u128)) as i64;
        r
    } else {
        let x: u128 = (-(v as i128)) as u128;
        let rr: u128 = x % (m as u128);
        proof {
            vstd::arithmetic::div_mod::lemma_fundamental_div_mod(x as int, m as int);
        }
        let ghost q: int = (x as int) / (m as int);
        if rr == 0 {
            proof {
                assert(v as int == (-q) * (m as int) + 0) by (nonlinear_arith)
                    requires
                        x as int == q * (m as int) + rr as int,
                        rr == 0,
                        v as int == -(x as int),
                ;
                vstd::arithmetic::div_mod::lemma_fundamental_div_mod_converse_mod(
                    v as int,
                    m as int,
                    -q,
                    0,
                );
            }
            0
        } else {
            let r = (m as u128 - rr) as i64;
            proof {
                assert(v as int == (-q - 1) * (m as int) + (m - rr) as int) by (nonlinear_arith)
                    requires
                        x as int == q * (m as int) + rr as int,
                        v as int == -(x as int),
                ;
                vstd::arithmetic::div_mod::lemma_fundamental_div_mod_converse_mod(
                    v as int,
                    m as int,
                    -q - 1,
                    (m - rr) as int,
                );
            }
            r
        }
    }
}

/// `r` is the integer square root of `n`, rounded down.
pub open spec fn is_sqrt(n: int, r: int) -> bool {
    0 <= r && r * r <= n && n < (r + 1) * (r + 1)
}

/// The integer square root of `n`, rounded down.
pub open spec fn sqrt_floor(n: int) -> int {
    choose|r: int| is_sqrt(n, r)
}

pub proof fn lemma_sqrt_unique(n: int, a: int, b: int)
    requires
        is_sqrt(n, a),
        is_sqrt(n, b),
    ensures
        a == b,
{
    assert(a == b) by (nonlinear_arith)
        requires
            0 <= a,
            0 <= b,
            a * a <= n,
            n < (a + 1) * (a + 1),
            b * b <= n,
            n < (b + 1) * (b + 1),
    ;
}

pub fn isqrt(n: u128) -> (r: u128)
    ensures
        r == sqrt_floor(n as int),
        is_sqrt(n as int, r as int),
{
    let mut lo: u128 = 0;
    let mut hi: u128 = 0x1_0000_0000_0000_0000;
    proof {
        assert((hi as int) * (hi as int) > n as int);
    }
    while lo + 1 < hi
        invariant
            lo < hi <= 0x1_0000_0000_0000_0000u128,
            (lo as int) * (lo as int) <= n as int,
            (hi as int) * (hi as int) > n as int,
        decreases hi - lo,
    {
        let mid = lo + (hi - lo) / 2;
        proof {
            assert((mid as int) * (mid as int) <= 0xFFFF_FFFF_FFFF_FFFFint
                * 0xFFFF_FFFF_FFFF_FFFFint) by (nonlinear_arith)
                requires
                    0 <= mid as int <= 0xFFFF_FFFF_FFFF_FFFFint,
            ;
        }
        if mid * mid <= n {
            lo = mid;
        } else {
            hi = mid;
        }
    }
    proof {
        assert(is_sqrt(n as int, lo as int));
        assert(is_sqrt(n as int, sqrt_floor(n as int))) by {
            assert(exists|r: int| is_sqrt(n as int, r));
        }
        lemma_sqrt_unique(n as int, lo as int, sqrt_floor(n as int));
    }
    lo
}

pub fn fx_add(a: i64, b: i64) -> (r: i64)
    ensures
        r == fx_add_s(a as int, b as int),
{
    clip128(a as i128 + b as i128)
}

pub fn fx_sub(a: i64, b: i64) -> (r: i64)
    ensures
        r == fx_sub_s(a as int, b as int),
{
    clip128(a as i128 - b as i128)
}

pub fn fx_mul(a: i64, b: i64) -> (r: i64)
    ensures
        r == fx_mul_s(a as int, b as int),
{
    let aa = a as i128;
    let bb = b as i128;
    proof {
        assert(-0x4000_0000_0000_0000_0000_0000_0000_0000 < (aa as int) * (bb as int)
            <= 0x4000_0000_0000_0000_0000_0000_0000_0000int)
            by (nonlinear_arith)
            requires
                -0x8000_0000_0000_0000 <= (aa as int),
                (aa as int) < 0x8000_0000_0000_0000int,
                -0x8000_0000_0000_0000 <= (bb as int),
                (bb as int) < 0x8000_0000_0000_0000int,
        ;
    }
    let p: i128 = aa * bb;
    clip128(tdiv128(p, FX_ONE as i128))
}

pub fn fx_div(a: i64, b: i64) -> (r: i64)
    ensures
        r == fx_div_s(a as int, b as int),
{
    let aa = a as i128;
    let p: i128 = aa * FX_ONE as i128;
    proof {
        assert(-0x4000_0000_0000_0000_0000_0000_0000_0000 < (aa as int) * (FX_ONE as int))
            by (nonlinear_arith)
            requires
                -0x8000_0000_0000_0000 <= (aa as int),
                (aa as int) < 0x8000_0000_0000_0000int,
        ;
    }
    clip128(tdiv128(p, b as i128))
}

} // verus!
