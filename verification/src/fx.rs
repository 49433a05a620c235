//! Fixed-point scalars.
//!
//! A coordinate or transform coefficient is an `i64` holding a real value
//! scaled by [`FX_ONE`] (2^16).  Operations saturate at the `i64` range and
//! divisions truncate toward zero; every executable operation is pinned to an
//! exact integer specification.

use vstd::prelude::*;
use vstd::arithmetic::div_mod::{
    lemma_fundamental_div_mod, lemma_fundamental_div_mod_converse_div,
    lemma_fundamental_div_mod_converse_mod,
};

verus! {

/// One in fixed-point units (2^16).
pub const FX_ONE: i64 = 65536;

/// Magnitude of an integer.
pub open spec fn mag(x: int) -> int {
    if x < 0 {
        -x
    } else {
        x
    }
}

/// Saturation of an unbounded integer into the `i64` range.
pub open spec fn clamp64(x: int) -> int {
    if x > i64::MAX as int {
        i64::MAX as int
    } else if x < i64::MIN as int {
        i64::MIN as int
    } else {
        x
    }
}

/// Division truncated toward zero; zero when the divisor is zero.
pub open spec fn tdiv(a: int, b: int) -> int {
    if b == 0 {
        0
    } else if (a < 0) == (b < 0) {
        mag(a) / mag(b)
    } else {
        -(mag(a) / mag(b))
    }
}

/// Specification twin of [`fx_mul`].
pub open spec fn fxm(a: int, b: int) -> int {
    clamp64(tdiv(a * b, FX_ONE as int))
}

/// Specification twin of [`sat_add`].
pub open spec fn s_add(a: int, b: int) -> int {
    clamp64(a + b)
}

/// Specification twin of [`fx_div`].
pub open spec fn fxd(a: int, b: int) -> int {
    clamp64(tdiv(a * (FX_ONE as int), b))
}

/// Specification twin of [`sat_sub`].
pub open spec fn s_sub(a: int, b: int) -> int {
    clamp64(a - b)
}

/// Specification twin of [`sat_mul`].
pub open spec fn s_mul(a: int, b: int) -> int {
    clamp64(a * b)
}

/// Specification twin of [`sat_neg`].
pub open spec fn s_neg(a: int) -> int {
    clamp64(-a)
}

/// The integer square root, as a function.
pub open spec fn sqrtf(s: int) -> int {
    choose|v: int| sqrt_rel(s, v)
}

/// The integer square root is unique, so any witness equals [`sqrtf`].
pub proof fn lemma_sqrt_unique(s: int, v: int)
    requires
        sqrt_rel(s, v),
    ensures
        sqrtf(s) == v,
{
    let w = sqrtf(s);
    assert(sqrt_rel(s, w));
    assert(v == w) by (nonlinear_arith)
        requires
            0 <= v && v * v <= s && s < (v + 1) * (v + 1),
            0 <= w && w * w <= s && s < (w + 1) * (w + 1),
    ;
}

/// The product of two `i64` values fits comfortably inside `i128`.
pub proof fn lemma_i64_prod_fits(a: int, b: int)
    requires
        i64::MIN <= a <= i64::MAX,
        i64::MIN <= b <= i64::MAX,
    ensures
        i128::MIN < a * b <= 0x4000_0000_0000_0000_0000_0000_0000_0000,
{
    assert(i128::MIN < a * b <= 0x4000_0000_0000_0000_0000_0000_0000_0000) by (nonlinear_arith)
        requires
            i64::MIN <= a <= i64::MAX,
            i64::MIN <= b <= i64::MAX,
    ;
}

/// Saturate an `i128` into the `i64` range.
pub fn clamp_to_i64(x: i128) -> (r: i64)
    ensures
        r as int == clamp64(x as int),
{
    if x > i64::MAX as i128 {
        i64::MAX
    } else if x < i64::MIN as i128 {
        i64::MIN
    } else {
        x as i64
    }
}

/// Saturating addition.
pub fn sat_add(a: i64, b: i64) -> (r: i64)
    ensures
        r as int == clamp64(a + b),
{
    clamp_to_i64(a as i128 + b as i128)
}

/// Saturating subtraction.
pub fn sat_sub(a: i64, b: i64) -> (r: i64)
    ensures
        r as int == clamp64(a - b),
{
    clamp_to_i64(a as i128 - b as i128)
}

/// Saturating negation.
pub fn sat_neg(a: i64) -> (r: i64)
    ensures
        r as int == clamp64(-a),
{
    clamp_to_i64(-(a as i128))
}

/// Magnitude of an `i128`, as a `u128`.
fn mag_u128(x: i128) -> (r: u128)
    requires
        x != i128::MIN,
    ensures
        r as int == mag(x as int),
{
    if x < 0 {
        (-x) as u128
    } else {
        x as u128
    }
}

/// Truncating division on `i128`.
pub(crate) fn tdiv_i128(a: i128, b: i128) -> (r: i128)
    requires
        a != i128::MIN,
        b != i128::MIN,
    ensures
        r as int == tdiv(a as int, b as int),
        mag(r as int) <= mag(a as int),
{
    if b == 0 {
        return 0;
    }
    let ua = mag_u128(a);
    let ub = mag_u128(b);
    let uq = ua / ub;
    proof {
        lemma_fundamental_div_mod(ua as int, ub as int);
        assert((ua as int / ub as int) * (ub as int) <= ua as int) by (nonlinear_arith)
            requires
                ub as int >= 1,
                ua as int == (ub as int) * (ua as int / ub as int) + (ua as int % ub as int),
                ua as int % ub as int >= 0,
        ;
        assert(uq as int <= ua as int) by (nonlinear_arith)
            requires
                ub as int >= 1,
                (ua as int / ub as int) * (ub as int) <= ua as int,
                uq as int == ua as int / ub as int,
                uq as int >= 0,
        ;
    }
    if (a < 0) != (b < 0) {
        -(uq as i128)
    } else {
        uq as i128
    }
}

/// Fixed-point multiplication: the real product, truncated, saturated.
pub fn fx_mul(a: i64, b: i64) -> (r: i64)
    ensures
        r as int == clamp64(tdiv(a * b, FX_ONE as int)),
{
    proof {
        lemma_i64_prod_fits(a as int, b as int);
    }
    let p = (a as i128) * (b as i128);
    clamp_to_i64(tdiv_i128(p, FX_ONE as i128))
}

/// Fixed-point division: the real quotient, truncated, saturated; zero on a
/// zero divisor.
pub fn fx_div(a: i64, b: i64) -> (r: i64)
    ensures
        r as int == clamp64(tdiv(a * (FX_ONE as int), b as int)),
{
    proof {
        lemma_i64_prod_fits(a as int, FX_ONE as int);
    }
    let p = (a as i128) * (FX_ONE as i128);
    clamp_to_i64(tdiv_i128(p, b as i128))
}

/// Saturating plain integer multiplication (for counts times spacings).
pub fn sat_mul(a: i64, b: i64) -> (r: i64)
    ensures
        r as int == clamp64(a * b),
{
    proof {
        lemma_i64_prod_fits(a as int, b as int);
    }
    clamp_to_i64((a as i128) * (b as i128))
}

/// Euclidean remainder by a positive modulus.
pub fn mod_pos(a: i64, p: i64) -> (r: i64)
    requires
        1 <= p,
    ensures
        r as int == (a as int) % (p as int),
        0 <= r < p,
{
    if a >= 0 {
        let m = (a as u64) % (p as u64);
        proof {
            lemma_fundamental_div_mod(a as int, p as int);
        }
        m as i64
    } else {
        let ua = mag_u128(a as i128);
        let um = ua % (p as u128);
        let m = um as i64;
        proof {
            lemma_fundamental_div_mod(ua as int, p as int);
            let q = ua as int / p as int;
            let rr = ua as int % p as int;
            assert(m as int == rr);
            if m == 0 {
                assert(a as int == (-q) * (p as int) + 0) by (nonlinear_arith)
                    requires
                        ua as int == (p as int) * q + 0,
                        a as int == -(ua as int),
                ;
                lemma_fundamental_div_mod_converse_mod(a as int, p as int, -q, 0);
            } else {
                assert(a as int == (-q - 1) * (p as int) + ((p as int) - rr)) by (nonlinear_arith)
                    requires
                        ua as int == (p as int) * q + rr,
                        a as int == -(ua as int),
                ;
                lemma_fundamental_div_mod_converse_mod(
                    a as int,
                    p as int,
                    -q - 1,
                    p as int - m as int,
                );
            }
        }
        if m == 0 {
            0
        } else {
            p - m
        }
    }
}

/// `r` is the integer square root of `s`.
pub open spec fn sqrt_rel(s: int, r: int) -> bool {
    0 <= r && r * r <= s && s < (r + 1) * (r + 1)
}

/// Integer square root (floor).
pub fn isqrt_u128(x: u128) -> (r: u128)
    ensures
        sqrt_rel(x as int, r as int),
        r <= u64::MAX as u128,
{
    let mut lo: u64 = 0;
    let mut hi: u64 = u64::MAX;
    proof {
        assert((u64::MAX as int + 1) * (u64::MAX as int + 1) > x as int) by (nonlinear_arith)
            requires
                x <= u128::MAX,
        ;
    }
    while lo < hi
        invariant
            lo <= hi,
            (lo as int) * (lo as int) <= x as int,
            (x as int) < (hi as int + 1) * (hi as int + 1),
        decreases hi - lo,
    {
        let mid: u64 = lo + (hi - lo) / 2 + 1;
        let q = x / (mid as u128);
        proof {
            lemma_fundamental_div_mod(x as int, mid as int);
        }
        if (mid as u128) <= q {
            proof {
                assert((mid as int) * (mid as int) <= x as int) by (nonlinear_arith)
                    requires
                        mid as int >= 1,
                        mid as int <= q as int,
                        x as int == (mid as int) * (q as int) + (x as int % mid as int),
                        x as int % mid as int >= 0,
                ;
            }
            lo = mid;
        } else {
            proof {
                assert((x as int) < (mid as int) * (mid as int)) by (nonlinear_arith)
                    requires
                        mid as int >= 1,
                        (q as int) < (mid as int),
                        x as int == (mid as int) * (q as int) + (x as int % mid as int),
                        (x as int % mid as int) < (mid as int),
                ;
            }
            hi = mid - 1;
        }
    }
    lo as u128
}

/// Fixed-point length of the vector `(dx, dy)`: both inputs, the intermediate
/// squares and the result share the 2^16 scale.
pub fn hypot_fx(dx: i64, dy: i64) -> (r: i64)
    ensures
        r as int == clamp64(sqrtf((dx as int) * (dx as int) + (dy as int) * (dy as int))),
        r >= 0,
{
    proof {
        lemma_i64_prod_fits(dx as int, dx as int);
        lemma_i64_prod_fits(dy as int, dy as int);
        assert((dx as int) * (dx as int) >= 0) by (nonlinear_arith);
        assert((dy as int) * (dy as int) >= 0) by (nonlinear_arith);
    }
    let sx = ((dx as i128) * (dx as i128)) as u128;
    let sy = ((dy as i128) * (dy as i128)) as u128;
    let s = sx + sy;
    let v = isqrt_u128(s);
    let r = if v > i64::MAX as u128 {
        i64::MAX
    } else {
        v as i64
    };
    proof {
        lemma_sqrt_unique((dx as int) * (dx as int) + (dy as int) * (dy as int), v as int);
    }
    r
}


/// Multiplying by one in fixed point is the identity on in-range values.
pub proof fn lemma_fxm_one(x: int)
    requires
        i64::MIN <= x <= i64::MAX,
    ensures
        fxm(FX_ONE as int, x) == x,
{
    lemma_fundamental_div_mod_converse_div(
        (FX_ONE as int) * x,
        FX_ONE as int,
        x,
        0,
    );
    if x >= 0 {
        assert(mag((FX_ONE as int) * x) == (FX_ONE as int) * x) by (nonlinear_arith)
            requires
                x >= 0,
        ;
        assert(tdiv((FX_ONE as int) * x, FX_ONE as int) == x);
    } else {
        assert(mag((FX_ONE as int) * x) == (FX_ONE as int) * (-x)) by (nonlinear_arith)
            requires
                x < 0,
        ;
        lemma_fundamental_div_mod_converse_div(
            (FX_ONE as int) * (-x),
            FX_ONE as int,
            -x,
            0,
        );
        assert(tdiv((FX_ONE as int) * x, FX_ONE as int) == x);
    }
}

/// Multiplying by zero in fixed point gives zero.
pub proof fn lemma_fxm_zero(x: int)
    ensures
        fxm(0, x) == 0,
        fxm(x, 0) == 0,
{
    assert(0 * x == 0) by (nonlinear_arith);
    assert(x * 0 == 0) by (nonlinear_arith);
    lemma_fundamental_div_mod_converse_div(0, FX_ONE as int, 0, 0);
}

} // verus!