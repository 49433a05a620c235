//! Circular arcs flattened to cubic Béziers, and bulge segments.
//!
//! An arc is split into at most four sub-arcs of at most a quarter turn; each
//! sub-arc becomes one cubic whose control points lie along the tangents,
//! scaled by the classic four-thirds tangent factor.  A polyline segment with
//! a nonzero bulge (the tangent of a quarter of the included angle) becomes
//! such an arc, snapped so that it ends exactly at the given end vertex; a
//! zero bulge, a vanishing included angle or coincident vertices yield a
//! straight segment.

use vstd::prelude::*;
use crate::fx::{
    clamp64, mag, tdiv, tdiv_i128, fxm, fxd, s_add, s_sub, s_mul, sqrtf, fx_mul, fx_div, sat_add,
    sat_sub, sat_mul, sat_neg, hypot_fx,
};
use crate::trig::{sin_spec, cos_spec, atan_spec, sin_deg, cos_deg, atan_deg, DEG_90, DEG_180,
    DEG_360};
use crate::geom::Point;
use crate::path::{BezPath, PathEl, el_endpoint};

verus! {

/// Four thirds, fixed-point (rounded down).
pub const K_FOUR_THIRDS: i64 = 87381;

/// Model x coordinate of the circle point at `deg` degrees.
pub open spec fn arc_x(c: Point, r: int, deg: int) -> int {
    s_add(c.x as int, fxm(r, cos_spec(deg)))
}

/// Model y coordinate of the circle point at `deg` degrees.
pub open spec fn arc_y(c: Point, r: int, deg: int) -> int {
    s_add(c.y as int, fxm(r, sin_spec(deg)))
}

/// Model circle point at `deg` degrees.
pub open spec fn arc_pt(c: Point, r: int, deg: int) -> Point {
    Point { x: arc_x(c, r, deg) as i64, y: arc_y(c, r, deg) as i64 }
}

/// The circle point at `deg` degrees.
pub fn arc_point(c: Point, r: i64, deg: i64) -> (p: Point)
    ensures
        p == arc_pt(c, r as int, deg as int),
{
    let co = cos_deg(deg);
    let si = sin_deg(deg);
    Point { x: sat_add(c.x, fx_mul(r, co)), y: sat_add(c.y, fx_mul(r, si)) }
}

/// How many quarter-turn sub-arcs cover a sweep.
pub open spec fn arc_seg_count(sweep: int) -> int {
    let q = (mag(sweep) + DEG_90 as int - 1) / (DEG_90 as int);
    if q < 1 {
        1
    } else {
        q
    }
}

/// The signed angle of one sub-arc.
pub open spec fn arc_delta(sweep: int) -> int {
    tdiv(sweep, arc_seg_count(sweep))
}

/// The tangent control scale of one sub-arc: four thirds of the tangent of a
/// quarter of its angle.
pub open spec fn arc_k(delta: int) -> int {
    fxm(fxd(sin_spec(tdiv(delta, 4)), cos_spec(tdiv(delta, 4))), K_FOUR_THIRDS as int)
}

/// The `i`-th cubic of the flattened arc.
pub open spec fn arc_curve_el(c: Point, r: int, start: int, sweep: int, i: int) -> PathEl {
    let n = arc_seg_count(sweep);
    let delta = arc_delta(sweep);
    let phi0 = s_add(start, s_mul(i, delta));
    let phi1 = if i == n - 1 {
        s_add(start, sweep)
    } else {
        s_add(start, s_mul(i + 1, delta))
    };
    let kr = fxm(arc_k(delta), r);
    let p0 = arc_pt(c, r, phi0);
    let p3 = arc_pt(c, r, phi1);
    PathEl::CurveTo(
        Point {
            x: s_sub(p0.x as int, fxm(kr, sin_spec(phi0))) as i64,
            y: s_add(p0.y as int, fxm(kr, cos_spec(phi0))) as i64,
        },
        Point {
            x: s_add(p3.x as int, fxm(kr, sin_spec(phi1))) as i64,
            y: s_sub(p3.y as int, fxm(kr, cos_spec(phi1))) as i64,
        },
        p3,
    )
}

/// All cubics of the flattened arc.
pub open spec fn arc_els(c: Point, r: int, start: int, sweep: int) -> Seq<PathEl> {
    Seq::new(arc_seg_count(sweep) as nat, |i: int| arc_curve_el(c, r, start, sweep, i))
}

/// Append the flattened arc to the path.  The path must have an open subpath;
/// the caller is expected to have brought the pen to the arc's start point.
/// The appended elements are exactly the cubics of the model, so the pen ends
/// exactly at the model's arc end point.
pub fn arc_to_cubics(bp: &mut BezPath, c: Point, r: i64, start_deg: i64, sweep_deg: i64)
    requires
        old(bp).wf(),
        old(bp).els@.len() > 0,
        mag(sweep_deg as int) <= DEG_360 as int,
    ensures
        final(bp).els@ =~= old(bp).els@ + arc_els(c, r as int, start_deg as int, sweep_deg as int),
        final(bp).wf(),
        final(bp).els@.len() > old(bp).els@.len(),
        el_endpoint(final(bp).els@.last()) == Some(
            arc_pt(c, r as int, s_add(start_deg as int, sweep_deg as int)),
        ),
        forall|j: int|
            old(bp).els@.len() <= j < final(bp).els@.len() ==> final(bp).els@[j] is CurveTo,
{
    let m: i64 = if sweep_deg < 0 {
        -sweep_deg
    } else {
        sweep_deg
    };
    let q: i64 = (((m as u64) + (DEG_90 as u64) - 1) / (DEG_90 as u64)) as i64;
    let n: i64 = if q < 1 {
        1
    } else {
        q
    };
    proof {
        assert(n as int == arc_seg_count(sweep_deg as int));
    }
    let delta: i64 = tdiv_i128(sweep_deg as i128, n as i128) as i64;
    let d4: i64 = tdiv_i128(delta as i128, 4) as i64;
    let sd = sin_deg(d4);
    let cd = cos_deg(d4);
    let t = fx_div(sd, cd);
    let k = fx_mul(t, K_FOUR_THIRDS);
    let kr = fx_mul(k, r);
    let ghost gels = arc_els(c, r as int, start_deg as int, sweep_deg as int);
    let mut i: i64 = 0;
    while i < n
        invariant
            0 <= i <= n,
            n as int == arc_seg_count(sweep_deg as int),
            delta as int == arc_delta(sweep_deg as int),
            kr as int == fxm(arc_k(delta as int), r as int),
            gels == arc_els(c, r as int, start_deg as int, sweep_deg as int),
            bp.els@ =~= old(bp).els@ + gels.subrange(0, i as int),
            bp.wf(),
            bp.els@.len() > 0,
            forall|j: int| old(bp).els@.len() <= j < bp.els@.len() ==> bp.els@[j] is CurveTo,
        decreases n - i,
    {
        let phi0 = sat_add(start_deg, sat_mul(i, delta));
        let phi1 = if i == n - 1 {
            sat_add(start_deg, sweep_deg)
        } else {
            sat_add(start_deg, sat_mul(i + 1, delta))
        };
        let p0 = arc_point(c, r, phi0);
        let p3 = arc_point(c, r, phi1);
        let s0 = sin_deg(phi0);
        let c0 = cos_deg(phi0);
        let s1 = sin_deg(phi1);
        let c1 = cos_deg(phi1);
        let cp1 = Point { x: sat_sub(p0.x, fx_mul(kr, s0)), y: sat_add(p0.y, fx_mul(kr, c0)) };
        let cp2 = Point { x: sat_add(p3.x, fx_mul(kr, s1)), y: sat_sub(p3.y, fx_mul(kr, c1)) };
        proof {
            assert(gels[i as int] == arc_curve_el(
                c,
                r as int,
                start_deg as int,
                sweep_deg as int,
                i as int,
            ));
            assert(arc_curve_el(c, r as int, start_deg as int, sweep_deg as int, i as int)
                == PathEl::CurveTo(cp1, cp2, p3));
        }
        bp.curve_to(cp1, cp2, p3);
        i = i + 1;
        proof {
            assert(gels.subrange(0, i as int) =~= gels.subrange(0, i as int - 1) + seq![
                gels[i as int - 1],
            ]);
        }
    }
    proof {
        assert(gels.subrange(0, n as int) =~= gels);
        assert(gels[n as int - 1] == arc_curve_el(
            c,
            r as int,
            start_deg as int,
            sweep_deg as int,
            n as int - 1,
        ));
        assert(bp.els@.last() == gels[n as int - 1]);
    }
}

/// The included angle of a bulge: four arc tangents of the bulge value.
pub open spec fn bulge_theta(bulge: int) -> int {
    s_mul(4, atan_spec(bulge))
}

/// The chord length of a segment in the model.
pub open spec fn chord_len(start: Point, end: Point) -> int {
    let dx = s_sub(end.x as int, start.x as int);
    let dy = s_sub(end.y as int, start.y as int);
    clamp64(sqrtf(dx * dx + dy * dy))
}

/// Whether the bulge of a segment degrades to a straight line: a zero bulge,
/// a vanishing included angle, coincident vertices, or a vanishing half-angle
/// sine.
pub open spec fn bulge_is_line(start: Point, end: Point, bulge: int) -> bool {
    bulge == 0 || bulge_theta(bulge) == 0 || chord_len(start, end) == 0 || sin_spec(
        tdiv(bulge_theta(bulge), 2),
    ) == 0
}

/// The center of the bulge arc in the model.
pub open spec fn bulge_center(start: Point, end: Point, bulge: int) -> Point {
    let dx = s_sub(end.x as int, start.x as int);
    let dy = s_sub(end.y as int, start.y as int);
    let d = chord_len(start, end);
    let theta = bulge_theta(bulge);
    let half = tdiv(theta, 2);
    let sa = mag(sin_spec(half));
    let radius = fxd(d, s_mul(2, sa));
    let h = fxm(radius, cos_spec(half));
    let hd = fxd(h, d);
    let px = if bulge > 0 {
        s_neg_sp(dy)
    } else {
        dy
    };
    let py = if bulge > 0 {
        dx
    } else {
        s_neg_sp(dx)
    };
    let mx = tdiv(s_add(start.x as int, end.x as int), 2);
    let my = tdiv(s_add(start.y as int, end.y as int), 2);
    Point { x: s_add(mx, fxm(hd, px)) as i64, y: s_add(my, fxm(hd, py)) as i64 }
}

/// Saturating negation in the model (local shorthand).
pub open spec fn s_neg_sp(a: int) -> int {
    clamp64(-a)
}

/// The radius of the bulge arc in the model.
pub open spec fn bulge_radius(start: Point, end: Point, bulge: int) -> int {
    let d = chord_len(start, end);
    let half = tdiv(bulge_theta(bulge), 2);
    let sa = mag(sin_spec(half));
    fxd(d, s_mul(2, sa))
}

/// The start angle of the bulge arc in the model.
pub open spec fn bulge_start_deg(start: Point, end: Point, bulge: int) -> int {
    let ctr = bulge_center(start, end, bulge);
    atan2_sp(s_sub(start.y as int, ctr.y as int), s_sub(start.x as int, ctr.x as int))
}

/// Model of the two-argument arc tangent, in fixed-point degrees.
pub open spec fn atan2_sp(y: int, x: int) -> int {
    if x == 0 && y == 0 {
        0
    } else if x == 0 {
        if y > 0 {
            DEG_90 as int
        } else {
            -(DEG_90 as int)
        }
    } else {
        let base = atan_spec(fxd(y, x));
        if x > 0 {
            base
        } else if y >= 0 {
            base + DEG_180 as int
        } else {
            base - DEG_180 as int
        }
    }
}

/// Two-argument arc tangent, in fixed-point degrees.
pub fn atan2_deg(y: i64, x: i64) -> (r: i64)
    ensures
        r as int == atan2_sp(y as int, x as int),
        -(DEG_180 + DEG_90) <= r <= DEG_180 + DEG_90,
{
    if x == 0 && y == 0 {
        0
    } else if x == 0 {
        if y > 0 {
            DEG_90
        } else {
            -DEG_90
        }
    } else {
        let base = atan_deg(fx_div(y, x));
        if x > 0 {
            base
        } else if y >= 0 {
            base + DEG_180
        } else {
            base - DEG_180
        }
    }
}

/// The elements a bulge segment appends: one line, or the snapped arc.
pub open spec fn bulge_els(start: Point, end: Point, bulge: int) -> Seq<PathEl> {
    if bulge_is_line(start, end, bulge) {
        seq![PathEl::LineTo(end)]
    } else {
        let c = bulge_center(start, end, bulge);
        let r = bulge_radius(start, end, bulge);
        let a0 = bulge_start_deg(start, end, bulge);
        let theta = bulge_theta(bulge);
        let els = arc_els(c, r, a0, theta);
        els.update(els.len() - 1, snap_end(els.last(), end))
    }
}

/// Replace the end point of a curve element.
pub open spec fn snap_end(e: PathEl, p: Point) -> PathEl {
    match e {
        PathEl::CurveTo(c1, c2, old_p) => PathEl::CurveTo(c1, c2, p),
        _ => e,
    }
}

/// Append a polyline segment, honoring the bulge.  A zero or degenerate
/// bulge appends the straight line to `end`; otherwise the circular arc
/// through `start` and `end` with included angle `4 * atan(bulge)` is
/// flattened to cubics and its last end point is snapped to `end` exactly,
/// so the appended elements always end at `end` and never begin a subpath.
pub fn add_poly_segment(bp: &mut BezPath, start: Point, end: Point, bulge: i64)
    requires
        old(bp).wf(),
        old(bp).els@.len() > 0,
    ensures
        final(bp).els@ =~= old(bp).els@ + bulge_els(start, end, bulge as int),
        final(bp).wf(),
        final(bp).els@.len() > old(bp).els@.len(),
        el_endpoint(final(bp).els@.last()) == Some(end),
        forall|j: int|
            old(bp).els@.len() <= j < final(bp).els@.len() ==> !(final(bp).els@[j] is MoveTo)
                && !(final(bp).els@[j] is ClosePath),
        bulge == 0 ==> final(bp).els@ =~= old(bp).els@ + seq![PathEl::LineTo(end)],
{
    if bulge == 0 {
        bp.line_to(end);
        return ;
    }
    let theta = sat_mul(4, atan_deg(bulge));
    if theta == 0 {
        bp.line_to(end);
        return ;
    }
    let dx = sat_sub(end.x, start.x);
    let dy = sat_sub(end.y, start.y);
    let d = hypot_fx(dx, dy);
    if d == 0 {
        bp.line_to(end);
        return ;
    }
    let half = tdiv_i128(theta as i128, 2) as i64;
    let s = sin_deg(half);
    let sa: i64 = if s < 0 {
        -s
    } else {
        s
    };
    if sa == 0 {
        bp.line_to(end);
        return ;
    }
    let radius = fx_div(d, sat_mul(2, sa));
    let co = cos_deg(half);
    let h = fx_mul(radius, co);
    let hd = fx_div(h, d);
    let px: i64 = if bulge > 0 {
        sat_neg(dy)
    } else {
        dy
    };
    let py: i64 = if bulge > 0 {
        dx
    } else {
        sat_neg(dx)
    };
    let mx = tdiv_i128(sat_add(start.x, end.x) as i128, 2) as i64;
    let my = tdiv_i128(sat_add(start.y, end.y) as i128, 2) as i64;
    let ctr = Point { x: sat_add(mx, fx_mul(hd, px)), y: sat_add(my, fx_mul(hd, py)) };
    proof {
        assert(ctr == bulge_center(start, end, bulge as int));
        assert(radius as int == bulge_radius(start, end, bulge as int));
    }
    let a0 = atan2_deg(sat_sub(start.y, ctr.y), sat_sub(start.x, ctr.x));
    proof {
        assert(a0 as int == bulge_start_deg(start, end, bulge as int));
        assert(mag(theta as int) <= DEG_360 as int);
    }
    arc_to_cubics(bp, ctr, radius, a0, theta);
    // Snap the final end point to the given vertex.
    let last = bp.els.len() - 1;
    let e = bp.els[last];
    match e {
        PathEl::CurveTo(c1, c2, p3) => {
            let ghost before = bp.els@;
            bp.els.set(last, PathEl::CurveTo(c1, c2, end));
            proof {
                assert(bp.els@ =~= before.update(last as int, PathEl::CurveTo(c1, c2, end)));
            }
        },
        _ => {
            proof {
                assert(false);
            }
        },
    }
}

} // verus!
