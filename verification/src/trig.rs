//! Trigonometry on fixed-point degrees.
//!
//! Angles are fixed-point degrees (see [`crate::fx`]).  Sine and cosine use a
//! rational approximation that is exact at every multiple of ninety degrees
//! and bounded by one everywhere; the arc tangent uses a rational
//! approximation that is exact at zero.  Each executable function is pinned to
//! its integer specification.

use vstd::prelude::*;
use crate::fx::{mag, tdiv, tdiv_i128, mod_pos, FX_ONE};
use vstd::arithmetic::div_mod::{
    lemma_fundamental_div_mod, lemma_div_is_ordered, lemma_basic_div,
    lemma_div_multiples_vanish, lemma_fundamental_div_mod_converse_mod,
};

verus! {

/// Ninety degrees in fixed-point units.
pub const DEG_90: i64 = 90 * 65536;

/// One hundred and eighty degrees in fixed-point units.
pub const DEG_180: i64 = 180 * 65536;

/// Three hundred and sixty degrees in fixed-point units.
pub const DEG_360: i64 = 360 * 65536;

/// One radian in fixed-point degrees (57.29578 scaled by 2^16, rounded).
pub const RAD_IN_DEG: i64 = 3754936;

/// Rational sine approximation on `[0, 180]` degrees, in fixed-point units.
pub open spec fn sin_half_turn(x: int) -> int {
    let t = x * (DEG_180 as int - x);
    tdiv(4 * t * (FX_ONE as int), 40500 * (FX_ONE as int) * (FX_ONE as int) - t)
}

/// Sine of an angle in fixed-point degrees.
pub open spec fn sin_spec(d: int) -> int {
    let m = d % (DEG_360 as int);
    if m <= DEG_180 as int {
        sin_half_turn(m)
    } else {
        -sin_half_turn(m - DEG_180 as int)
    }
}

/// Cosine of an angle in fixed-point degrees.
pub open spec fn cos_spec(d: int) -> int {
    sin_spec(d + DEG_90 as int)
}

/// The half-turn sine approximation stays within `[0, FX_ONE]`.
proof fn lemma_sin_half_turn_range(x: int)
    requires
        0 <= x <= DEG_180 as int,
    ensures
        0 <= sin_half_turn(x) <= FX_ONE as int,
{
    let t = x * (DEG_180 as int - x);
    let den = 40500 * (FX_ONE as int) * (FX_ONE as int) - t;
    let num = 4 * t * (FX_ONE as int);
    assert(0 <= t && t <= 8100 * (FX_ONE as int) * (FX_ONE as int)) by (nonlinear_arith)
        requires
            0 <= x <= DEG_180 as int,
            t == x * (DEG_180 as int - x),
    ;
    assert(num <= (FX_ONE as int) * den && den > 0 && num >= 0) by (nonlinear_arith)
        requires
            0 <= t <= 8100 * (FX_ONE as int) * (FX_ONE as int),
            num == 4 * t * (FX_ONE as int),
            den == 40500 * (FX_ONE as int) * (FX_ONE as int) - t,
    ;
    lemma_div_is_ordered(num, (FX_ONE as int) * den, den);
    assert(((FX_ONE as int) * den) / den == FX_ONE as int) by (nonlinear_arith)
        requires
            den > 0,
    ;
    assert(num / den >= 0) by (nonlinear_arith)
        requires
            num >= 0,
            den > 0,
    ;
}

/// Executable half-turn sine.
fn sin_half_turn_exec(x: i64) -> (r: i64)
    requires
        0 <= x <= DEG_180,
    ensures
        r as int == sin_half_turn(x as int),
        0 <= r <= FX_ONE,
{
    proof {
        lemma_sin_half_turn_range(x as int);
        assert(0 <= (x as int) * (DEG_180 as int - x as int) && (x as int) * (DEG_180 as int
            - x as int) <= 8100 * (FX_ONE as int) * (FX_ONE as int)) by (nonlinear_arith)
            requires
                0 <= x as int <= DEG_180 as int,
        ;
    }
    let t: i128 = (x as i128) * ((DEG_180 - x) as i128);
    let den: i128 = 40500 * (FX_ONE as i128) * (FX_ONE as i128) - t;
    let num: i128 = 4 * t * (FX_ONE as i128);
    let q = tdiv_i128(num, den);
    q as i64
}

/// Sine of an angle in fixed-point degrees.
pub fn sin_deg(d: i64) -> (r: i64)
    ensures
        r as int == sin_spec(d as int),
        -FX_ONE <= r <= FX_ONE,
{
    let m = mod_pos(d, DEG_360);
    if m <= DEG_180 {
        sin_half_turn_exec(m)
    } else {
        proof {
            lemma_sin_half_turn_range(m as int - DEG_180 as int);
        }
        let s = sin_half_turn_exec(m - DEG_180);
        -s
    }
}

/// Cosine of an angle in fixed-point degrees.
pub fn cos_deg(d: i64) -> (r: i64)
    ensures
        r as int == cos_spec(d as int),
        -FX_ONE <= r <= FX_ONE,
{
    if d > i64::MAX - DEG_90 {
        // Keep the shifted angle in range by stepping back one full turn,
        // which leaves the specification value unchanged.
        let dd = d - DEG_360;
        let r = sin_deg(dd + DEG_90);
        proof {
            vstd::arithmetic::div_mod::lemma_mod_add_multiples_vanish(
                d as int + DEG_90 as int - DEG_360 as int,
                DEG_360 as int,
            );
        }
        r
    } else {
        sin_deg(d + DEG_90)
    }
}

/// The half-turn sine approximation is exact at its ends and at its peak.
proof fn lemma_sin_half_turn_axes()
    ensures
        sin_half_turn(0) == 0,
        sin_half_turn(DEG_90 as int) == FX_ONE as int,
        sin_half_turn(DEG_180 as int) == 0,
{
    let x = DEG_90 as int;
    let t = x * (DEG_180 as int - x);
    let num = 4 * t * (FX_ONE as int);
    let den = 40500 * (FX_ONE as int) * (FX_ONE as int) - t;
    assert(t == 8100 * (FX_ONE as int) * (FX_ONE as int)) by (nonlinear_arith)
        requires
            t == x * (DEG_180 as int - x),
            x == DEG_90 as int,
    ;
    assert(num == den * (FX_ONE as int)) by (nonlinear_arith)
        requires
            t == 8100 * (FX_ONE as int) * (FX_ONE as int),
            num == 4 * t * (FX_ONE as int),
            den == 40500 * (FX_ONE as int) * (FX_ONE as int) - t,
    ;
    lemma_div_multiples_vanish(FX_ONE as int, den);
    assert(num / den == FX_ONE as int);
    assert(sin_half_turn(DEG_90 as int) == FX_ONE as int);
    assert(0 * (DEG_180 as int - 0) == 0) by (nonlinear_arith);
    assert((DEG_180 as int) * (DEG_180 as int - DEG_180 as int) == 0) by (nonlinear_arith);
    assert(sin_half_turn(0) == 0);
    assert(sin_half_turn(DEG_180 as int) == 0);
}

/// The sine specification at the axes.
pub proof fn lemma_sin_axes()
    ensures
        sin_spec(0) == 0,
        sin_spec(DEG_90 as int) == FX_ONE as int,
        sin_spec(DEG_180 as int) == 0,
        sin_spec(DEG_180 as int + DEG_90 as int) == -(FX_ONE as int),
        cos_spec(0) == FX_ONE as int,
        cos_spec(DEG_90 as int) == 0,
        cos_spec(DEG_180 as int) == -(FX_ONE as int),
{
    lemma_sin_half_turn_axes();
    lemma_fundamental_div_mod_converse_mod(0, DEG_360 as int, 0, 0);
    lemma_fundamental_div_mod_converse_mod(DEG_90 as int, DEG_360 as int, 0, DEG_90 as int);
    lemma_fundamental_div_mod_converse_mod(DEG_180 as int, DEG_360 as int, 0, DEG_180 as int);
    lemma_fundamental_div_mod_converse_mod(
        DEG_180 as int + DEG_90 as int,
        DEG_360 as int,
        0,
        DEG_180 as int + DEG_90 as int,
    );
}

/// Rational arc-tangent approximation on `[0, 1]`, in fixed-point degrees.
pub open spec fn atan_unit(x: int) -> int {
    tdiv(
        32 * (RAD_IN_DEG as int) * x * (FX_ONE as int),
        32 * (FX_ONE as int) * (FX_ONE as int) + 9 * x * x,
    )
}

/// Arc tangent in fixed-point degrees.
pub open spec fn atan_spec(x: int) -> int {
    if x < 0 {
        -atan_spec_pos(-x)
    } else {
        atan_spec_pos(x)
    }
}

/// Arc tangent of a non-negative ratio, in fixed-point degrees.
pub open spec fn atan_spec_pos(x: int) -> int {
    if x <= FX_ONE as int {
        atan_unit(x)
    } else {
        DEG_90 as int - atan_unit(tdiv((FX_ONE as int) * (FX_ONE as int), x))
    }
}

/// The unit arc tangent stays within `[0, DEG_90]` on `[0, FX_ONE]`.
proof fn lemma_atan_unit_range(x: int)
    requires
        0 <= x <= FX_ONE as int,
    ensures
        0 <= atan_unit(x) <= DEG_90 as int,
{
    let num = 32 * (RAD_IN_DEG as int) * x * (FX_ONE as int);
    let den = 32 * (FX_ONE as int) * (FX_ONE as int) + 9 * x * x;
    assert(num >= 0 && den > 0 && num <= (DEG_90 as int) * den) by (nonlinear_arith)
        requires
            0 <= x <= FX_ONE as int,
            num == 32 * (RAD_IN_DEG as int) * x * (FX_ONE as int),
            den == 32 * (FX_ONE as int) * (FX_ONE as int) + 9 * x * x,
    ;
    lemma_div_is_ordered(num, (DEG_90 as int) * den, den);
    assert(((DEG_90 as int) * den) / den == DEG_90 as int) by (nonlinear_arith)
        requires
            den > 0,
    ;
    assert(num / den >= 0) by (nonlinear_arith)
        requires
            num >= 0,
            den > 0,
    ;
}

/// Executable unit arc tangent.
fn atan_unit_exec(x: i64) -> (r: i64)
    requires
        0 <= x <= FX_ONE,
    ensures
        r as int == atan_unit(x as int),
        0 <= r <= DEG_90,
{
    proof {
        lemma_atan_unit_range(x as int);
        assert(0 <= (x as int) * (x as int) <= (FX_ONE as int) * (FX_ONE as int))
            by (nonlinear_arith)
            requires
                0 <= x as int <= FX_ONE as int,
        ;
    }
    let xx: i128 = (x as i128) * (x as i128);
    let num: i128 = 32 * (RAD_IN_DEG as i128) * (x as i128) * (FX_ONE as i128);
    let den: i128 = 32 * (FX_ONE as i128) * (FX_ONE as i128) + 9 * xx;
    proof {
        assert(den as int == 32 * (FX_ONE as int) * (FX_ONE as int) + 9 * (x as int) * (x as int))
            by (nonlinear_arith)
            requires
                den as int == 32 * (FX_ONE as int) * (FX_ONE as int) + 9 * (xx as int),
                xx as int == (x as int) * (x as int),
        ;
    }
    let q = tdiv_i128(num, den);
    q as i64
}

/// Arc tangent of a fixed-point ratio, in fixed-point degrees.
pub fn atan_deg(x: i64) -> (r: i64)
    ensures
        r as int == atan_spec(x as int),
        -DEG_90 <= r <= DEG_90,
{
    if x >= 0 {
        atan_deg_pos(x)
    } else if x == i64::MIN {
        // The magnitude saturates; the reciprocal branch divides by it and the
        // specification agrees because the quotient is unchanged.
        let r = atan_deg_pos(i64::MAX);
        proof {
            lemma_basic_div((FX_ONE as int) * (FX_ONE as int), i64::MAX as int);
            lemma_basic_div((FX_ONE as int) * (FX_ONE as int), mag(i64::MIN as int));
            assert(tdiv((FX_ONE as int) * (FX_ONE as int), i64::MAX as int) == 0);
            assert(tdiv((FX_ONE as int) * (FX_ONE as int), mag(i64::MIN as int)) == 0);
            assert(atan_spec_pos(i64::MAX as int) == atan_spec_pos(mag(i64::MIN as int)));
        }
        -r
    } else {
        let r = atan_deg_pos(-x);
        -r
    }
}

/// Arc tangent of a non-negative fixed-point ratio.
fn atan_deg_pos(x: i64) -> (r: i64)
    requires
        x >= 0,
    ensures
        r as int == atan_spec_pos(x as int),
        0 <= r <= DEG_90,
{
    if x <= FX_ONE {
        atan_unit_exec(x)
    } else {
        let inv = tdiv_i128((FX_ONE as i128) * (FX_ONE as i128), x as i128);
        proof {
            lemma_fundamental_div_mod((FX_ONE as int) * (FX_ONE as int), x as int);
            assert(0 <= inv as int && inv as int <= FX_ONE as int) by (nonlinear_arith)
                requires
                    x as int > FX_ONE as int,
                    inv as int == ((FX_ONE as int) * (FX_ONE as int)) / (x as int),
                    (FX_ONE as int) * (FX_ONE as int) == (x as int) * (inv as int) + ((
                    FX_ONE as int) * (FX_ONE as int)) % (x as int),
                    ((FX_ONE as int) * (FX_ONE as int)) % (x as int) >= 0,
            ;
        }
        let a = atan_unit_exec(inv as i64);
        DEG_90 - a
    }
}

} // verus!
