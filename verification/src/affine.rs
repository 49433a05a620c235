//! Affine transforms over fixed-point coefficients.
//!
//! A transform carries the six coefficients `[a, b, c, d, e, f]` of the
//! matrix `[[a, c, e], [b, d, f]]`: it maps `(x, y)` to
//! `(a x + c y + e, b x + d y + f)`.  The ghost model [`AffS`] carries the
//! same six values as unbounded integers; composition and application are
//! specified exactly, saturation and truncation included.

use vstd::prelude::*;
use crate::fx::{fxm, s_add, fx_mul, sat_add, sat_neg, FX_ONE};
use crate::geom::Point;
use crate::trig::{sin_spec, cos_spec, sin_deg, cos_deg};

verus! {

/// Ghost model of an affine transform.
pub ghost struct AffS {
    /// Coefficient `a`.
    pub a: int,
    /// Coefficient `b`.
    pub b: int,
    /// Coefficient `c`.
    pub c: int,
    /// Coefficient `d`.
    pub d: int,
    /// Coefficient `e`.
    pub e: int,
    /// Coefficient `f`.
    pub f: int,
}

/// Ghost model of a point.
pub ghost struct PtS {
    /// Horizontal coordinate.
    pub x: int,
    /// Vertical coordinate.
    pub y: int,
}

/// The identity transform model.
pub open spec fn aff_identity() -> AffS {
    AffS { a: FX_ONE as int, b: 0, c: 0, d: FX_ONE as int, e: 0, f: 0 }
}

/// Model of composition: `s` applied after `o`.
pub open spec fn aff_mul(s: AffS, o: AffS) -> AffS {
    AffS {
        a: s_add(fxm(s.a, o.a), fxm(s.c, o.b)),
        b: s_add(fxm(s.b, o.a), fxm(s.d, o.b)),
        c: s_add(fxm(s.a, o.c), fxm(s.c, o.d)),
        d: s_add(fxm(s.b, o.c), fxm(s.d, o.d)),
        e: s_add(s_add(fxm(s.a, o.e), fxm(s.c, o.f)), s.e),
        f: s_add(s_add(fxm(s.b, o.e), fxm(s.d, o.f)), s.f),
    }
}

/// Model of applying a transform to a point.
pub open spec fn aff_apply(t: AffS, p: PtS) -> PtS {
    PtS {
        x: s_add(s_add(fxm(t.a, p.x), fxm(t.c, p.y)), t.e),
        y: s_add(s_add(fxm(t.b, p.x), fxm(t.d, p.y)), t.f),
    }
}

/// An affine transform of the model plane.
#[derive(Debug, Clone, Copy, PartialEq, Eq, Structural)]
pub struct Affine {
    /// Coefficient `a`.
    pub a: i64,
    /// Coefficient `b`.
    pub b: i64,
    /// Coefficient `c`.
    pub c: i64,
    /// Coefficient `d`.
    pub d: i64,
    /// Coefficient `e`.
    pub e: i64,
    /// Coefficient `f`.
    pub f: i64,
}

impl View for Affine {
    type V = AffS;

    open spec fn view(&self) -> AffS {
        AffS {
            a: self.a as int,
            b: self.b as int,
            c: self.c as int,
            d: self.d as int,
            e: self.e as int,
            f: self.f as int,
        }
    }
}

impl View for Point {
    type V = PtS;

    open spec fn view(&self) -> PtS {
        PtS { x: self.x as int, y: self.y as int }
    }
}

impl Affine {
    /// The identity transform.
    pub fn identity() -> (r: Affine)
        ensures
            r@ == aff_identity(),
    {
        Affine { a: FX_ONE, b: 0, c: 0, d: FX_ONE, e: 0, f: 0 }
    }

    /// Pure translation by `v`.
    pub fn translate(v: Point) -> (r: Affine)
        ensures
            r@ == (AffS { a: FX_ONE as int, b: 0, c: 0, d: FX_ONE as int, e: v.x as int, f: v.y as int }),
    {
        Affine { a: FX_ONE, b: 0, c: 0, d: FX_ONE, e: v.x, f: v.y }
    }

    /// Uniform scale by the fixed-point factor `s`.
    pub fn scale(s: i64) -> (r: Affine)
        ensures
            r@ == (AffS { a: s as int, b: 0, c: 0, d: s as int, e: 0, f: 0 }),
    {
        Affine { a: s, b: 0, c: 0, d: s, e: 0, f: 0 }
    }

    /// Axis-aligned scale by the fixed-point factors `sx` and `sy`.
    pub fn scale_non_uniform(sx: i64, sy: i64) -> (r: Affine)
        ensures
            r@ == (AffS { a: sx as int, b: 0, c: 0, d: sy as int, e: 0, f: 0 }),
    {
        Affine { a: sx, b: 0, c: 0, d: sy, e: 0, f: 0 }
    }

    /// Rotation about the origin by an angle in fixed-point degrees.
    pub fn rotate_deg(deg: i64) -> (r: Affine)
        ensures
            r@ == (AffS {
                a: cos_spec(deg as int),
                b: sin_spec(deg as int),
                c: -sin_spec(deg as int),
                d: cos_spec(deg as int),
                e: 0,
                f: 0,
            }),
    {
        let s = sin_deg(deg);
        let c = cos_deg(deg);
        Affine { a: c, b: s, c: sat_neg(s), d: c, e: 0, f: 0 }
    }

    /// Composition: `self` applied after `o`.
    pub fn mul(self, o: Affine) -> (r: Affine)
        ensures
            r@ == aff_mul(self@, o@),
    {
        Affine {
            a: sat_add(fx_mul(self.a, o.a), fx_mul(self.c, o.b)),
            b: sat_add(fx_mul(self.b, o.a), fx_mul(self.d, o.b)),
            c: sat_add(fx_mul(self.a, o.c), fx_mul(self.c, o.d)),
            d: sat_add(fx_mul(self.b, o.c), fx_mul(self.d, o.d)),
            e: sat_add(sat_add(fx_mul(self.a, o.e), fx_mul(self.c, o.f)), self.e),
            f: sat_add(sat_add(fx_mul(self.b, o.e), fx_mul(self.d, o.f)), self.f),
        }
    }

    /// Apply the transform to a point.
    pub fn apply(self, p: Point) -> (r: Point)
        ensures
            r@ == aff_apply(self@, p@),
    {
        Point {
            x: sat_add(sat_add(fx_mul(self.a, p.x), fx_mul(self.c, p.y)), self.e),
            y: sat_add(sat_add(fx_mul(self.b, p.x), fx_mul(self.d, p.y)), self.f),
        }
    }

    /// Translate after `self`.
    pub fn then_translate(self, v: Point) -> (r: Affine)
        ensures
            r@ == aff_mul(
                AffS { a: FX_ONE as int, b: 0, c: 0, d: FX_ONE as int, e: v.x as int, f: v.y as int },
                self@,
            ),
    {
        Affine::translate(v).mul(self)
    }

    /// Scale uniformly after `self`.
    pub fn then_scale(self, s: i64) -> (r: Affine)
        ensures
            r@ == aff_mul(AffS { a: s as int, b: 0, c: 0, d: s as int, e: 0, f: 0 }, self@),
    {
        Affine::scale(s).mul(self)
    }

    /// Rotate after `self`.
    pub fn then_rotate_deg(self, deg: i64) -> (r: Affine)
        ensures
            r@ == aff_mul(
                AffS {
                    a: cos_spec(deg as int),
                    b: sin_spec(deg as int),
                    c: -sin_spec(deg as int),
                    d: cos_spec(deg as int),
                    e: 0,
                    f: 0,
                },
                self@,
            ),
    {
        Affine::rotate_deg(deg).mul(self)
    }
}

/// A direct isometry: a rotation at the origin followed by a displacement.
#[derive(Debug, Clone, Copy, PartialEq, Eq, Structural)]
pub struct DirectIsometry {
    /// Angle in fixed-point degrees, applied at the origin.
    pub angle: i64,
    /// Displacement from the origin.
    pub displacement: Point,
}

impl DirectIsometry {
    /// Make a new `DirectIsometry` from an `angle` and a `displacement`.
    pub fn new(angle: i64, displacement: Point) -> (r: DirectIsometry)
        ensures
            r.angle == angle,
            r.displacement == displacement,
    {
        DirectIsometry { angle, displacement }
    }

    /// The equivalent affine transform: rotate, then displace.
    pub fn to_affine(self) -> (r: Affine)
        ensures
            r@ == aff_mul(
                AffS {
                    a: FX_ONE as int,
                    b: 0,
                    c: 0,
                    d: FX_ONE as int,
                    e: self.displacement.x as int,
                    f: self.displacement.y as int,
                },
                AffS {
                    a: cos_spec(self.angle as int),
                    b: sin_spec(self.angle as int),
                    c: -sin_spec(self.angle as int),
                    d: cos_spec(self.angle as int),
                    e: 0,
                    f: 0,
                },
            ),
    {
        Affine::rotate_deg(self.angle).then_translate(self.displacement)
    }
}

} // verus!
