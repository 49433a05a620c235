//! The geometry codec: one drawing entity in, zero or one path out.
//!
//! Entities are plain-value records in the drawing's own frame (y up);
//! decoding negates y into the model frame (y down).  Unsupported or
//! malformed entities — an unsupported orientation, too few vertices, a
//! spline of degree zero or above three, short knot vectors — decode to
//! none, never to a failure.  Decoding is pinned to a specification
//! function of the record alone, so identical records always decode to
//! identical paths.

use vstd::prelude::*;
use crate::fx::{
    clamp64, fxm, fxd, s_add, s_sub, s_neg, sat_add, sat_sub, sat_neg, sat_mul, fx_mul, fx_div,
    mod_pos, tdiv_i128, tdiv, FX_ONE,
};
use crate::trig::DEG_360;
use crate::geom::Point;
use crate::path::{BezPath, PathEl};
use crate::arcs::{arc_pt, arc_point, arc_els, arc_to_cubics, bulge_els, add_poly_segment};

verus! {

/// A point in the drawing's own frame (y up), fixed-point.
#[derive(Debug, Clone, Copy, PartialEq, Eq, Structural)]
pub struct RawPoint {
    /// Horizontal coordinate.
    pub x: i64,
    /// Vertical coordinate, y up.
    pub y: i64,
}

/// A polyline vertex in the drawing's own frame, with its bulge.
#[derive(Debug, Clone, Copy, PartialEq, Eq, Structural)]
pub struct LwVertex {
    /// Horizontal coordinate.
    pub x: i64,
    /// Vertical coordinate, y up.
    pub y: i64,
    /// Bulge of the segment leaving this vertex (tangent of a quarter of
    /// the included angle), fixed-point.
    pub bulge: i64,
}

/// A block insertion record.
#[derive(Debug, Clone, Copy, PartialEq, Eq, Structural)]
pub struct InsertRec {
    /// Index of the inserted block in the drawing's block table, or none
    /// when the name resolves to no block.
    pub block: Option<usize>,
    /// Horizontal scale factor, fixed-point.
    pub x_scale: i64,
    /// Vertical scale factor, fixed-point.
    pub y_scale: i64,
    /// Insertion point, drawing frame.
    pub location: RawPoint,
    /// Rotation in fixed-point degrees.
    pub rotation_deg: i64,
    /// Number of array rows.
    pub row_count: u32,
    /// Number of array columns.
    pub column_count: u32,
    /// Spacing between rows, fixed-point.
    pub row_spacing: i64,
    /// Spacing between columns, fixed-point.
    pub column_spacing: i64,
    /// The z of the extrusion direction; only one (straight on) is
    /// supported.
    pub extrusion_z: i64,
}

/// A multi-line text record.
#[derive(Debug, Clone)]
pub struct MTextRec {
    /// The raw text, with continuation chunks already joined.
    pub text: Vec<char>,
    /// Insertion point, drawing frame.
    pub insertion: RawPoint,
    /// Rotation in fixed-point degrees.
    pub rotation_deg: i64,
    /// The angle of the x axis direction in fixed-point degrees, already in
    /// the model frame.
    pub x_axis_deg: i64,
    /// Attachment point code, one through nine.
    pub attachment_code: u16,
    /// Index of the named text style, or none.
    pub style: Option<usize>,
    /// Initial text height, fixed-point.
    pub initial_height: i64,
    /// Column type: zero uses the reference rectangle width, one the
    /// column width.
    pub column_type: i16,
    /// Reference rectangle width, fixed-point.
    pub reference_rect_width: i64,
    /// Column width, fixed-point.
    pub column_width: i64,
    /// The z of the extrusion direction.
    pub extrusion_z: i64,
}

/// A single-line text record.
#[derive(Debug, Clone)]
pub struct TextRec {
    /// The raw text.
    pub value: Vec<char>,
    /// Location, drawing frame.
    pub location: RawPoint,
    /// Rotation in fixed-point degrees.
    pub rotation_deg: i64,
    /// Text height, fixed-point.
    pub height: i64,
    /// Oblique angle in fixed-point degrees.
    pub oblique_deg: i64,
    /// Index of the named text style, or none.
    pub style: Option<usize>,
    /// The z of the normal; only one is supported.
    pub normal_z: i64,
}

/// The supported entity kinds, as plain values.
#[derive(Debug, Clone)]
pub enum EntityKind {
    /// A circular arc.
    Arc {
        /// Center, drawing frame.
        center: RawPoint,
        /// Radius, fixed-point.
        radius: i64,
        /// Start angle in fixed-point degrees, counter-clockwise y-up.
        start_deg: i64,
        /// End angle in fixed-point degrees.
        end_deg: i64,
        /// The z of the normal.
        normal_z: i64,
    },
    /// A line segment.
    Line {
        /// First point.
        p1: RawPoint,
        /// Second point.
        p2: RawPoint,
        /// The z of the extrusion direction.
        extrusion_z: i64,
    },
    /// A circle.
    Circle {
        /// Center, drawing frame.
        center: RawPoint,
        /// Radius, fixed-point.
        radius: i64,
        /// The z of the normal.
        normal_z: i64,
    },
    /// A lightweight polyline with bulges.
    LwPolyline {
        /// The vertices in order.
        vertices: Vec<LwVertex>,
        /// Whether the polyline is closed.
        closed: bool,
        /// The z of the extrusion direction.
        extrusion_z: i64,
    },
    /// A classic polyline with bulges.
    Polyline {
        /// The vertices in order.
        vertices: Vec<LwVertex>,
        /// Whether the polyline is closed.
        closed: bool,
        /// Whether the record is a polyface or three-dimensional mesh,
        /// which is not supported.
        mesh: bool,
        /// The z of the normal.
        normal_z: i64,
    },
    /// A B-spline of bounded degree.
    Spline {
        /// Degree of the curve.
        degree: u32,
        /// Control points, drawing frame.
        control_points: Vec<RawPoint>,
        /// Knot values, fixed-point.
        knots: Vec<i64>,
        /// Whether the spline is closed.
        closed: bool,
        /// The z of the normal.
        normal_z: i64,
    },
    /// A block insertion.
    Insert(InsertRec),
    /// Multi-line text.
    MText(MTextRec),
    /// Single-line text.
    Text(TextRec),
    /// Anything else; dropped with a diagnostic, never an error.
    Other,
}

/// One source entity: its stable handle, owning layer, style enumerations
/// and kind.
#[derive(Debug, Clone)]
pub struct EntityRec {
    /// The drawing's handle for this entity; nonzero.
    pub handle: u64,
    /// Index of the owning layer in the drawing's layer table, or none.
    pub layer: Option<usize>,
    /// Color code (see [`crate::style`]).
    pub color_code: i16,
    /// Literal 24-bit color, meaningful when the code is by-entity.
    pub color24: u32,
    /// Transparency byte.
    pub transparency: u32,
    /// Line weight enumeration value.
    pub lineweight: i16,
    /// Whether the entity is visible.
    pub visible: bool,
    /// The kind and its data.
    pub kind: EntityKind,
}

/// Conversion into the model frame: keep x, negate y.
pub open spec fn cv_sp(p: RawPoint) -> Point {
    Point { x: p.x, y: s_neg(p.y as int) as i64 }
}

/// Conversion of a vertex into the model frame.
pub open spec fn cvv_sp(v: LwVertex) -> Point {
    Point { x: v.x, y: s_neg(v.y as int) as i64 }
}

/// Make a model [`Point`] from the x and y of a drawing-frame point.
pub fn point_from_dxf_point(p: RawPoint) -> (r: Point)
    ensures
        r == cv_sp(p),
{
    Point { x: p.x, y: sat_neg(p.y) }
}

/// Convert a vertex into the model frame.
pub fn point_from_vertex(v: LwVertex) -> (r: Point)
    ensures
        r == cvv_sp(v),
{
    Point { x: v.x, y: sat_neg(v.y) }
}

/// The decoded arc path: the sweep is the negated end-minus-start angle
/// reduced into a single turn, compensating the drawing's y-up convention.
pub open spec fn arc_path_sp(center: RawPoint, radius: i64, start_deg: i64, end_deg: i64) -> Seq<
    PathEl,
> {
    let c = cv_sp(center);
    let a0 = s_neg(start_deg as int);
    let m = s_sub(end_deg as int, start_deg as int) % (DEG_360 as int);
    let sweep = -m;
    seq![PathEl::MoveTo(arc_pt(c, radius as int, a0))] + arc_els(c, radius as int, a0, sweep)
}

/// The decoded circle path: a full negative turn from angle zero.
pub open spec fn circle_path_sp(center: RawPoint, radius: i64) -> Seq<PathEl> {
    let c = cv_sp(center);
    seq![PathEl::MoveTo(arc_pt(c, radius as int, 0))] + arc_els(
        c,
        radius as int,
        0,
        -(DEG_360 as int),
    )
}

/// The decoded polyline prefix: the elements of the first `w` windows,
/// each a bulge segment with the bulge negated for the y flip.
pub open spec fn poly_els_upto(vs: Seq<LwVertex>, w: int) -> Seq<PathEl>
    decreases w,
{
    if w <= 0 {
        Seq::empty()
    } else {
        poly_els_upto(vs, w - 1) + bulge_els(
            cvv_sp(vs[w - 1]),
            cvv_sp(vs[w]),
            s_neg(vs[w - 1].bulge as int),
        )
    }
}

/// The decoded polyline path.
pub open spec fn poly_path_sp(vs: Seq<LwVertex>, closed: bool) -> Seq<PathEl> {
    let body = seq![PathEl::MoveTo(cvv_sp(vs[0]))] + poly_els_upto(vs, vs.len() - 1);
    if closed {
        body + seq![PathEl::ClosePath]
    } else {
        body
    }
}

/// First knot index strictly above `u`, from `i` on; the length when none.
pub open spec fn knot_pos(knots: Seq<i64>, u: i64, i: int) -> int
    decreases knots.len() - i,
{
    if i < 0 || i >= knots.len() {
        knots.len() as int
    } else if knots[i] > u {
        i
    } else {
        knot_pos(knots, u, i + 1)
    }
}

/// The span index for evaluation: one before the first knot above `u`,
/// clamped into the vector.
pub open spec fn span_of(knots: Seq<i64>, u: i64) -> int {
    let p = knot_pos(knots, u, 0);
    if p >= knots.len() {
        knots.len() - 2
    } else if p == 0 {
        0
    } else {
        p - 1
    }
}

/// The blending ratio of the triangular de Boor pass at round `r`, entry
/// `i`.
pub open spec fn alpha_sp(knots: Seq<i64>, k: int, degree: int, u: i64, r: int, i: int) -> int {
    let a = knots[k - degree + i];
    let b = knots[k + i + 1 - r];
    fxd(s_sub(u as int, a as int), s_sub(b as int, a as int))
}

/// One affine blend of two points.
pub open spec fn blend_sp(a: Point, b: Point, al: int) -> Point {
    Point {
        x: s_add(fxm(s_sub(FX_ONE as int, al), a.x as int), fxm(al, b.x as int)) as i64,
        y: s_add(fxm(s_sub(FX_ONE as int, al), a.y as int), fxm(al, b.y as int)) as i64,
    }
}

/// The de Boor triangle after `r` rounds: entries below `r` keep their
/// previous value, the rest blend their left neighbour in.
pub open spec fn rounds_sp(
    cps: Seq<Point>,
    knots: Seq<i64>,
    k: int,
    degree: int,
    u: i64,
    r: int,
) -> Seq<Point>
    decreases r,
{
    if r <= 0 {
        Seq::new((degree + 1) as nat, |i: int| cps[k - degree + i])
    } else {
        let prev = rounds_sp(cps, knots, k, degree, u, r - 1);
        Seq::new(
            (degree + 1) as nat,
            |i: int|
                if i < r {
                    prev[i]
                } else {
                    blend_sp(prev[i - 1], prev[i], alpha_sp(knots, k, degree, u, r, i))
                },
        )
    }
}

/// The spline evaluated at `u`: the clamped end points outside the valid
/// span range, the top of the de Boor triangle inside it.
pub open spec fn eval_sp(degree: int, cps: Seq<Point>, knots: Seq<i64>, u: i64) -> Point {
    let n = cps.len() - 1;
    let k = span_of(knots, u);
    if k < degree || k > n {
        if (u as int) < knots[degree] as int {
            cps[0]
        } else {
            cps[n]
        }
    } else {
        rounds_sp(cps, knots, k, degree, u, degree)[degree]
    }
}

/// Evaluate a B-spline at `u`.
pub fn eval_spline(degree: usize, control_points: &Vec<Point>, knots: &Vec<i64>, u: i64) -> (r:
    Point)
    requires
        1 <= degree <= 8,
        control_points@.len() >= degree + 1,
        knots@.len() >= control_points@.len() + degree + 1,
    ensures
        r == eval_sp(degree as int, control_points@, knots@, u),
{
    let n = control_points.len() - 1;
    let len = knots.len();
    let mut j: usize = 0;
    while j < len && knots[j] <= u
        invariant
            j <= len,
            len == knots@.len(),
            forall|t: int| 0 <= t < j ==> (#[trigger] knots@[t]) <= u,
        decreases len - j,
    {
        j += 1;
    }
    let pos: usize = j;
    proof {
        if pos == len {
            lemma_knot_pos_none(knots@, u, 0);
        } else {
            lemma_knot_pos_is(knots@, u, 0, pos as int);
        }
    }
    let k: usize = if pos == len {
        len - 2
    } else if pos == 0 {
        0
    } else {
        pos - 1
    };
    proof {
        assert(k as int == span_of(knots@, u));
    }
    if k < degree || k > n {
        if u < knots[degree] {
            return control_points[0];
        } else {
            return control_points[n];
        }
    }
    // Copy the working window of control points.
    let mut d: Vec<Point> = Vec::new();
    let mut i: usize = 0;
    while i <= degree
        invariant
            i <= degree + 1,
            1 <= degree <= 8,
            degree <= k <= n,
            n + 1 == control_points@.len(),
            knots@.len() >= control_points@.len() + degree + 1,
            d@.len() == i,
            forall|t: int| 0 <= t < i ==> d@[t] == control_points@[k - degree + t],
        decreases degree + 1 - i,
    {
        d.push(control_points[k - degree + i]);
        i += 1;
    }
    proof {
        assert(d@ =~= rounds_sp(control_points@, knots@, k as int, degree as int, u, 0));
    }
    let mut r: usize = 1;
    while r <= degree
        invariant
            1 <= r <= degree + 1,
            1 <= degree <= 8,
            degree <= k <= n,
            n + 1 == control_points@.len(),
            knots@.len() >= control_points@.len() + degree + 1,
            d@.len() == degree + 1,
            d@ =~= rounds_sp(control_points@, knots@, k as int, degree as int, u, r as int - 1),
        decreases degree + 1 - r,
    {
        let ghost prev = d@;
        let mut nd: Vec<Point> = Vec::new();
        let mut i2: usize = 0;
        while i2 <= degree
            invariant
                i2 <= degree + 1,
                1 <= r <= degree,
                1 <= degree <= 8,
                degree <= k <= n,
                n + 1 == control_points@.len(),
                knots@.len() >= control_points@.len() + degree + 1,
                d@ == prev,
                prev.len() == degree + 1,
                nd@.len() == i2,
                forall|t: int|
                    0 <= t < i2 ==> nd@[t] == (if t < r {
                        prev[t]
                    } else {
                        blend_sp(
                            prev[t - 1],
                            prev[t],
                            alpha_sp(knots@, k as int, degree as int, u, r as int, t),
                        )
                    }),
            decreases degree + 1 - i2,
        {
            if i2 < r {
                nd.push(d[i2]);
            } else {
                let klen = knots.len();
                proof {
                    assert(k + i2 + 1 <= n + degree + 1 < klen);
                }
                let ia: usize = k - degree + i2;
                let ib: usize = k + i2 + 1 - r;
                let a = knots[ia];
                let b = knots[ib];
                let al = fx_div(sat_sub(u, a), sat_sub(b, a));
                let one_minus = sat_sub(FX_ONE, al);
                let pa = d[i2 - 1];
                let pb = d[i2];
                let np = Point {
                    x: sat_add(fx_mul(one_minus, pa.x), fx_mul(al, pb.x)),
                    y: sat_add(fx_mul(one_minus, pa.y), fx_mul(al, pb.y)),
                };
                nd.push(np);
            }
            i2 += 1;
        }
        d = nd;
        r += 1;
        proof {
            assert(d@ =~= rounds_sp(
                control_points@,
                knots@,
                k as int,
                degree as int,
                u,
                r as int - 1,
            ));
        }
    }
    d[degree]
}

/// When the scan found no knot above `u`, the search misses everywhere.
proof fn lemma_knot_pos_none(knots: Seq<i64>, u: i64, i: int)
    requires
        0 <= i,
        forall|t: int| i <= t < knots.len() ==> (#[trigger] knots[t]) <= u,
    ensures
        knot_pos(knots, u, i) == knots.len(),
    decreases knots.len() - i,
{
    if i < knots.len() {
        lemma_knot_pos_none(knots, u, i + 1);
    }
}

/// When every knot before `f` is at most `u` and `f` is above it, `f` is
/// the first position.
proof fn lemma_knot_pos_is(knots: Seq<i64>, u: i64, i: int, f: int)
    requires
        0 <= i <= f < knots.len(),
        knots[f] > u,
        forall|t: int| i <= t < f ==> (#[trigger] knots[t]) <= u,
    ensures
        knot_pos(knots, u, i) == f,
    decreases f - i,
{
    if i < f {
        lemma_knot_pos_is(knots, u, i + 1, f);
    }
}

/// The control points of the derivative curve.
pub open spec fn deriv_cps_sp(degree: int, cps: Seq<Point>, knots: Seq<i64>) -> Seq<Point> {
    Seq::new(
        (cps.len() - 1) as nat,
        |i: int|
            {
                let factor = fxd(
                    clamp64(degree * (FX_ONE as int)),
                    s_sub(knots[i + degree + 1] as int, knots[i + 1] as int),
                );
                Point {
                    x: fxm(factor, s_sub(cps[i + 1].x as int, cps[i].x as int)) as i64,
                    y: fxm(factor, s_sub(cps[i + 1].y as int, cps[i].y as int)) as i64,
                }
            },
    )
}

/// The knots of the derivative curve: the interior of the knot vector.
pub open spec fn deriv_knots_sp(knots: Seq<i64>) -> Seq<i64> {
    knots.subrange(1, knots.len() - 1)
}

/// Compute the derivative curve: its degree, control points and knots.
pub fn derivative_control_points(degree: usize, control_points: &Vec<Point>, knots: &Vec<i64>)
    -> (r: (usize, Vec<Point>, Vec<i64>))
    requires
        1 <= degree <= 8,
        control_points@.len() >= 2,
        knots@.len() >= control_points@.len() + degree + 1,
    ensures
        r.0 == degree - 1,
        r.1@ =~= deriv_cps_sp(degree as int, control_points@, knots@),
        r.2@ =~= deriv_knots_sp(knots@),
{
    let n = control_points.len() - 1;
    let mut ncp: Vec<Point> = Vec::new();
    let mut i: usize = 0;
    while i < n
        invariant
            i <= n,
            1 <= degree <= 8,
            n + 1 == control_points@.len(),
            knots@.len() >= control_points@.len() + degree + 1,
            ncp@.len() == i,
            forall|t: int|
                0 <= t < i ==> ncp@[t] == deriv_cps_sp(degree as int, control_points@, knots@)[t],
        decreases n - i,
    {
        let klen = knots.len();
        proof {
            assert(i + degree + 1 <= n + degree < klen);
        }
        let a = knots[i + degree + 1];
        let b = knots[i + 1];
        let factor = fx_div(sat_mul(degree as i64, FX_ONE), sat_sub(a, b));
        let pa = control_points[i];
        let pb = control_points[i + 1];
        let np = Point {
            x: fx_mul(factor, sat_sub(pb.x, pa.x)),
            y: fx_mul(factor, sat_sub(pb.y, pa.y)),
        };
        ncp.push(np);
        i += 1;
    }
    let mut nk: Vec<i64> = Vec::new();
    let mut j: usize = 1;
    while j < knots.len() - 1
        invariant
            1 <= j <= knots@.len() - 1,
            knots@.len() >= 4,
            nk@.len() == j - 1,
            forall|t: int| 0 <= t < j - 1 ==> nk@[t] == knots@[t + 1],
        decreases knots@.len() - 1 - j,
    {
        nk.push(knots[j]);
        j += 1;
    }
    proof {
        assert(ncp@ =~= deriv_cps_sp(degree as int, control_points@, knots@));
        assert(nk@ =~= deriv_knots_sp(knots@));
    }
    (degree - 1, ncp, nk)
}

/// The intersection of the infinite lines through `p0` along `d0` and
/// through `p1` along `d1`, or none when they are effectively parallel.
pub open spec fn line_isect_sp(p0: Point, d0: Point, p1: Point, d1: Point) -> Option<Point> {
    let det = s_sub(fxm(d0.x as int, s_neg(d1.y as int)), fxm(s_neg(d1.x as int), d0.y as int));
    if det == 0 {
        None
    } else {
        let num = s_sub(
            fxm(s_sub(p1.x as int, p0.x as int), s_neg(d1.y as int)),
            fxm(s_sub(p1.y as int, p0.y as int), s_neg(d1.x as int)),
        );
        let t = fxd(num, det);
        Some(
            Point {
                x: s_add(p0.x as int, fxm(t, d0.x as int)) as i64,
                y: s_add(p0.y as int, fxm(t, d0.y as int)) as i64,
            },
        )
    }
}

/// Find the intersection of the infinite lines `p0 + t * d0` and
/// `p1 + t * d1`; none when their directions are effectively parallel.
pub fn line_intersection(p0: Point, d0: Point, p1: Point, d1: Point) -> (r: Option<Point>)
    ensures
        r == line_isect_sp(p0, d0, p1, d1),
{
    let det = sat_sub(fx_mul(d0.x, sat_neg(d1.y)), fx_mul(sat_neg(d1.x), d0.y));
    if det == 0 {
        None
    } else {
        let num = sat_sub(
            fx_mul(sat_sub(p1.x, p0.x), sat_neg(d1.y)),
            fx_mul(sat_sub(p1.y, p0.y), sat_neg(d1.x)),
        );
        let t = fx_div(num, det);
        Some(Point { x: sat_add(p0.x, fx_mul(t, d0.x)), y: sat_add(p0.y, fx_mul(t, d0.y)) })
    }
}


/// First index in a sorted list at or after `i` whose value is at least
/// `x`; the length when none is.
pub open spec fn lb_sp(s: Seq<i64>, x: i64, i: int) -> int
    decreases s.len() - i,
{
    if i < 0 || i >= s.len() {
        s.len() as int
    } else if s[i] >= x {
        i
    } else {
        lb_sp(s, x, i + 1)
    }
}

/// Insertion into a sorted list, keeping values unique.
pub open spec fn ins_sp(s: Seq<i64>, x: i64) -> Seq<i64> {
    let i = lb_sp(s, x, 0);
    if i < s.len() && s[i] == x {
        s
    } else {
        s.insert(i, x)
    }
}

/// The sorted unique values of the first `j` entries of a list.
pub open spec fn uniq_sp(s: Seq<i64>, j: int) -> Seq<i64>
    decreases j,
{
    if j <= 0 {
        Seq::empty()
    } else {
        ins_sp(uniq_sp(s, j - 1), s[j - 1])
    }
}

/// When every entry before `f` is below `x` and `f` is not, `f` is the
/// lower bound.
proof fn lemma_lb_is(s: Seq<i64>, x: i64, i: int, f: int)
    requires
        0 <= i <= f <= s.len(),
        f < s.len() ==> s[f] >= x,
        f == s.len() || s[f] >= x,
        forall|t: int| i <= t < f ==> (#[trigger] s[t]) < x,
    ensures
        lb_sp(s, x, i) == f,
    decreases f - i,
{
    if i < f {
        lemma_lb_is(s, x, i + 1, f);
    } else if f == s.len() {
        lemma_lb_none(s, x, f);
    }
}

/// Past the end, the lower bound is the length.
proof fn lemma_lb_none(s: Seq<i64>, x: i64, i: int)
    requires
        0 <= i,
        forall|t: int| i <= t < s.len() ==> (#[trigger] s[t]) < x,
    ensures
        lb_sp(s, x, i) == s.len(),
    decreases s.len() - i,
{
    if i < s.len() {
        lemma_lb_none(s, x, i + 1);
    }
}

/// Insert a value into a sorted list, keeping values unique.
fn insert_sorted_unique(v: &mut Vec<i64>, x: i64)
    ensures
        final(v)@ =~= ins_sp(old(v)@, x),
{
    let mut i: usize = 0;
    while i < v.len() && v[i] < x
        invariant
            i <= v@.len(),
            v == old(v),
            forall|t: int| 0 <= t < i ==> (#[trigger] v@[t]) < x,
        decreases v@.len() - i,
    {
        i += 1;
    }
    proof {
        if i < v@.len() {
            lemma_lb_is(v@, x, 0, i as int);
        } else {
            lemma_lb_none(v@, x, 0);
        }
    }
    if i < v.len() && v[i] == x {
    } else {
        v.insert(i, x);
    }
}

/// The sorted unique values of `knots[lo..hi]`.
pub open spec fn unique_sp(knots: Seq<i64>, lo: int, hi: int) -> Seq<i64> {
    uniq_sp(knots.subrange(lo, hi), hi - lo)
}

/// Collect the sorted unique knot values of the index range `[lo, hi)`.
fn unique_knot_values(knots: &Vec<i64>, lo: usize, hi: usize) -> (r: Vec<i64>)
    requires
        lo <= hi <= knots@.len(),
    ensures
        r@ =~= unique_sp(knots@, lo as int, hi as int),
{
    let ghost slice = knots@.subrange(lo as int, hi as int);
    let mut out: Vec<i64> = Vec::new();
    let mut j: usize = lo;
    while j < hi
        invariant
            lo <= j <= hi <= knots@.len(),
            slice == knots@.subrange(lo as int, hi as int),
            out@ =~= uniq_sp(slice, j as int - lo as int),
        decreases hi - j,
    {
        insert_sorted_unique(&mut out, knots[j]);
        j += 1;
        proof {
            assert(slice[j as int - 1 - lo as int] == knots@[j as int - 1]);
        }
    }
    out
}

/// The elements one spline window contributes: a straight line for degree
/// one; for degree two a quadratic through the tangent intersection, or a
/// line when the tangents are parallel; for degree three the cubic of the
/// Hermite construction from the end points and scaled end tangents.
pub open spec fn spline_win_sp(
    degree: int,
    cps: Seq<Point>,
    knots: Seq<i64>,
    u0: i64,
    u1: i64,
) -> Seq<PathEl> {
    if degree == 1 {
        seq![PathEl::LineTo(eval_sp(1, cps, knots, u1))]
    } else if degree == 2 {
        let p0 = eval_sp(2, cps, knots, u0);
        let p2 = eval_sp(2, cps, knots, u1);
        let dcp = deriv_cps_sp(2, cps, knots);
        let dk = deriv_knots_sp(knots);
        let d0 = eval_sp(1, dcp, dk, u0);
        let d1 = eval_sp(1, dcp, dk, u1);
        match line_isect_sp(p0, d0, p2, d1) {
            Some(p1) => seq![PathEl::QuadTo(p1, p2)],
            None => seq![PathEl::LineTo(p2)],
        }
    } else {
        let p0 = eval_sp(3, cps, knots, u0);
        let p3 = eval_sp(3, cps, knots, u1);
        let dcp = deriv_cps_sp(3, cps, knots);
        let dk = deriv_knots_sp(knots);
        let d0 = eval_sp(2, dcp, dk, u0);
        let d1 = eval_sp(2, dcp, dk, u1);
        let st = tdiv(s_sub(u1 as int, u0 as int), 3);
        let p1 = Point {
            x: s_add(p0.x as int, fxm(st, d0.x as int)) as i64,
            y: s_add(p0.y as int, fxm(st, d0.y as int)) as i64,
        };
        let p2 = Point {
            x: s_sub(p3.x as int, fxm(st, d1.x as int)) as i64,
            y: s_sub(p3.y as int, fxm(st, d1.y as int)) as i64,
        };
        seq![PathEl::CurveTo(p1, p2, p3)]
    }
}

/// The elements of the first `w` spline windows.
pub open spec fn spline_wins_upto(
    degree: int,
    cps: Seq<Point>,
    knots: Seq<i64>,
    uks: Seq<i64>,
    w: int,
) -> Seq<PathEl>
    decreases w,
{
    if w <= 0 {
        Seq::empty()
    } else {
        spline_wins_upto(degree, cps, knots, uks, w - 1) + spline_win_sp(
            degree,
            cps,
            knots,
            uks[w - 1],
            uks[w],
        )
    }
}

/// The decoded spline path.
pub open spec fn spline_path_sp(
    degree: int,
    cps: Seq<Point>,
    knots: Seq<i64>,
    uks: Seq<i64>,
    closed: bool,
) -> Seq<PathEl> {
    let body = seq![PathEl::MoveTo(eval_sp(degree, cps, knots, uks[0]))] + spline_wins_upto(
        degree,
        cps,
        knots,
        uks,
        uks.len() - 1,
    );
    if closed {
        body + seq![PathEl::ClosePath]
    } else {
        body
    }
}

/// The control points of a spline record, in the model frame.
pub open spec fn model_cps_sp(cps: Seq<RawPoint>) -> Seq<Point> {
    Seq::new(cps.len(), |i: int| cv_sp(cps[i]))
}

/// What an entity decodes to: zero or one element sequence.  Unsupported
/// orientations, meshes, too few vertices or control points, short knot
/// vectors, and degrees outside one through three decode to none; block
/// insertions and text are not paths and decode to none here.
pub open spec fn decode_sp(kind: EntityKind) -> Option<Seq<PathEl>> {
    match kind {
        EntityKind::Arc { center, radius, start_deg, end_deg, normal_z } => {
            if normal_z != FX_ONE {
                None
            } else {
                Some(arc_path_sp(center, radius, start_deg, end_deg))
            }
        },
        EntityKind::Line { p1, p2, extrusion_z } => {
            if extrusion_z != FX_ONE {
                None
            } else {
                Some(seq![PathEl::MoveTo(cv_sp(p1)), PathEl::LineTo(cv_sp(p2))])
            }
        },
        EntityKind::Circle { center, radius, normal_z } => {
            if normal_z != FX_ONE {
                None
            } else {
                Some(circle_path_sp(center, radius))
            }
        },
        EntityKind::LwPolyline { vertices, closed, extrusion_z } => {
            if extrusion_z != FX_ONE {
                None
            } else if vertices@.len() < 2 {
                None
            } else {
                Some(poly_path_sp(vertices@, closed))
            }
        },
        EntityKind::Polyline { vertices, closed, mesh, normal_z } => {
            if normal_z != FX_ONE || mesh {
                None
            } else if vertices@.len() < 2 {
                None
            } else {
                Some(poly_path_sp(vertices@, closed))
            }
        },
        EntityKind::Spline { degree, control_points, knots, closed, normal_z } => {
            if normal_z != FX_ONE {
                None
            } else if degree < 1 || degree > 3 {
                None
            } else if control_points@.len() < degree + 1 {
                None
            } else if knots@.len() < control_points@.len() + degree + 1 {
                None
            } else {
                let uks = unique_sp(knots@, degree as int, knots@.len() - degree as int);
                if uks.len() == 0 {
                    None
                } else {
                    Some(
                        spline_path_sp(
                            degree as int,
                            model_cps_sp(control_points@),
                            knots@,
                            uks,
                            closed,
                        ),
                    )
                }
            }
        },
        EntityKind::Insert(i) => None,
        EntityKind::MText(m) => None,
        EntityKind::Text(t) => None,
        EntityKind::Other => None,
    }
}

/// Convert an entity to a path, or none for entities the codec does not
/// support.  The result is a function of the record alone.
pub fn path_from_entity(e: &EntityRec) -> (r: Option<BezPath>)
    ensures
        (r is Some) == (decode_sp(e.kind) is Some),
        r is Some ==> r->Some_0.els@ =~= decode_sp(e.kind)->Some_0,
        r is Some ==> r->Some_0.wf(),
{
    match &e.kind {
        EntityKind::Arc { center, radius, start_deg, end_deg, normal_z } => {
            if *normal_z != FX_ONE {
                return None;
            }
            let c = point_from_dxf_point(*center);
            let a0 = sat_neg(*start_deg);
            let m = mod_pos(sat_sub(*end_deg, *start_deg), DEG_360);
            let sweep: i64 = -m;
            let mut bp = BezPath::new();
            bp.move_to(arc_point(c, *radius, a0));
            arc_to_cubics(&mut bp, c, *radius, a0, sweep);
            Some(bp)
        },
        EntityKind::Line { p1, p2, extrusion_z } => {
            if *extrusion_z != FX_ONE {
                return None;
            }
            let mut bp = BezPath::new();
            bp.move_to(point_from_dxf_point(*p1));
            bp.line_to(point_from_dxf_point(*p2));
            Some(bp)
        },
        EntityKind::Circle { center, radius, normal_z } => {
            if *normal_z != FX_ONE {
                return None;
            }
            let c = point_from_dxf_point(*center);
            let mut bp = BezPath::new();
            bp.move_to(arc_point(c, *radius, 0));
            arc_to_cubics(&mut bp, c, *radius, 0, -DEG_360);
            Some(bp)
        },
        EntityKind::LwPolyline { vertices, closed, extrusion_z } => {
            if *extrusion_z != FX_ONE {
                return None;
            }
            if vertices.len() < 2 {
                return None;
            }
            Some(decode_polyline(vertices, *closed))
        },
        EntityKind::Polyline { vertices, closed, mesh, normal_z } => {
            if *normal_z != FX_ONE || *mesh {
                return None;
            }
            if vertices.len() < 2 {
                return None;
            }
            Some(decode_polyline(vertices, *closed))
        },
        EntityKind::Spline { degree, control_points, knots, closed, normal_z } => {
            if *normal_z != FX_ONE {
                return None;
            }
            if *degree < 1 || *degree > 3 {
                return None;
            }
            let deg: usize = *degree as usize;
            if control_points.len() < deg + 1 {
                return None;
            }
            if knots.len() < deg + 1 {
                return None;
            }
            if knots.len() - deg - 1 < control_points.len() {
                return None;
            }
            decode_spline(deg, control_points, knots, *closed)
        },
        EntityKind::Insert(i) => None,
        EntityKind::MText(m) => None,
        EntityKind::Text(t) => None,
        EntityKind::Other => None,
    }
}

/// Decode a polyline's vertices, bulges included.
#[verifier::rlimit(100)]
fn decode_polyline(vertices: &Vec<LwVertex>, closed: bool) -> (r: BezPath)
    requires
        vertices@.len() >= 2,
    ensures
        r.els@ =~= poly_path_sp(vertices@, closed),
        r.wf(),
{
    let mut bp = BezPath::new();
    bp.move_to(point_from_vertex(vertices[0]));
    let mut w: usize = 0;
    while w < vertices.len() - 1
        invariant
            w <= vertices@.len() - 1,
            vertices@.len() >= 2,
            bp.wf(),
            bp.els@.len() > 0,
            bp.els@ =~= seq![PathEl::MoveTo(cvv_sp(vertices@[0]))] + poly_els_upto(
                vertices@,
                w as int,
            ),
        decreases vertices@.len() - 1 - w,
    {
        let a = point_from_vertex(vertices[w]);
        let b = point_from_vertex(vertices[w + 1]);
        add_poly_segment(&mut bp, a, b, sat_neg(vertices[w].bulge));
        w += 1;
    }
    if closed {
        bp.close_path();
    }
    bp
}

/// Decode a spline record whose counts were already checked.
fn decode_spline(degree: usize, control_points: &Vec<RawPoint>, knots: &Vec<i64>, closed: bool)
    -> (r: Option<BezPath>)
    requires
        1 <= degree <= 3,
        control_points@.len() >= degree + 1,
        knots@.len() >= control_points@.len() + degree + 1,
    ensures
        (r is Some) == (unique_sp(knots@, degree as int, knots@.len() - degree as int).len() > 0),
        r is Some ==> r->Some_0.els@ =~= spline_path_sp(
            degree as int,
            model_cps_sp(control_points@),
            knots@,
            unique_sp(knots@, degree as int, knots@.len() - degree as int),
            closed,
        ),
        r is Some ==> r->Some_0.wf(),
{
    // Convert the control points into the model frame.
    let mut mcps: Vec<Point> = Vec::new();
    let mut t: usize = 0;
    while t < control_points.len()
        invariant
            t <= control_points@.len(),
            mcps@.len() == t,
            forall|j: int| 0 <= j < t ==> mcps@[j] == cv_sp(control_points@[j]),
        decreases control_points@.len() - t,
    {
        mcps.push(point_from_dxf_point(control_points[t]));
        t += 1;
    }
    proof {
        assert(mcps@ =~= model_cps_sp(control_points@));
    }
    let lo: usize = degree;
    let hi: usize = knots.len() - degree;
    let uks = unique_knot_values(knots, lo, hi);
    if uks.len() == 0 {
        return None;
    }
    let mut bp = BezPath::new();
    bp.move_to(eval_spline(degree, &mcps, knots, uks[0]));
    let mut w: usize = 0;
    while w < uks.len() - 1
        invariant
            w <= uks@.len() - 1,
            uks@.len() >= 1,
            1 <= degree <= 3,
            mcps@.len() == control_points@.len(),
            mcps@ == model_cps_sp(control_points@),
            control_points@.len() >= degree + 1,
            knots@.len() >= control_points@.len() + degree + 1,
            bp.wf(),
            bp.els@.len() > 0,
            bp.els@ =~= seq![
                PathEl::MoveTo(eval_sp(degree as int, mcps@, knots@, uks@[0])),
            ] + spline_wins_upto(degree as int, mcps@, knots@, uks@, w as int),
        decreases uks@.len() - 1 - w,
    {
        let u0 = uks[w];
        let u1 = uks[w + 1];
        if degree == 1 {
            let p1 = eval_spline(1, &mcps, knots, u1);
            bp.line_to(p1);
        } else if degree == 2 {
            let p0 = eval_spline(2, &mcps, knots, u0);
            let p2 = eval_spline(2, &mcps, knots, u1);
            let dr = derivative_control_points(2, &mcps, knots);
            let d0 = eval_spline(1, &dr.1, &dr.2, u0);
            let d1 = eval_spline(1, &dr.1, &dr.2, u1);
            match line_intersection(p0, d0, p2, d1) {
                Some(p1) => {
                    bp.quad_to(p1, p2);
                },
                None => {
                    bp.line_to(p2);
                },
            }
        } else {
            let p0 = eval_spline(3, &mcps, knots, u0);
            let p3 = eval_spline(3, &mcps, knots, u1);
            let dr = derivative_control_points(3, &mcps, knots);
            let d0 = eval_spline(2, &dr.1, &dr.2, u0);
            let d1 = eval_spline(2, &dr.1, &dr.2, u1);
            let st = tdiv_i128(sat_sub(u1, u0) as i128, 3) as i64;
            let p1 = Point { x: sat_add(p0.x, fx_mul(st, d0.x)), y: sat_add(p0.y, fx_mul(st, d0.y)) };
            let p2 = Point { x: sat_sub(p3.x, fx_mul(st, d1.x)), y: sat_sub(p3.y, fx_mul(st, d1.y)) };
            bp.curve_to(p1, p2, p3);
        }
        w += 1;
    }
    if closed {
        bp.close_path();
    }
    Some(bp)
}


/// A degree-one span contributes exactly the straight line to the
/// evaluation at the window's upper knot: degree-one spans reduce to lines
/// between consecutive unique-knot evaluations.
pub proof fn lemma_degree_one_span_is_line(cps: Seq<Point>, knots: Seq<i64>, u0: i64, u1: i64)
    ensures
        spline_win_sp(1, cps, knots, u0, u1) == seq![
            PathEl::LineTo(eval_sp(1, cps, knots, u1)),
        ],
{
}

/// For a degree-one spline over strictly increasing knots, evaluating at
/// the first valid knot reproduces the first control point, and evaluating
/// at the last valid knot reproduces the last control point.
pub proof fn lemma_degree_one_end_knots(cps: Seq<Point>, knots: Seq<i64>)
    requires
        cps.len() >= 2,
        knots.len() >= cps.len() + 2,
        forall|i: int, j: int| 0 <= i < j < knots.len() ==> (#[trigger] knots[i]) < (#[trigger] knots[j]),
    ensures
        eval_sp(1, cps, knots, knots[1]) == cps[0],
        eval_sp(1, cps, knots, knots[knots.len() - 2]) == cps[cps.len() - 1],
{
    let n = cps.len() - 1;
    let len = knots.len();
    // First valid knot: the span is the first interior span and the blend
    // ratio vanishes.
    let u0 = knots[1];
    lemma_knot_pos_is(knots, u0, 0, 2);
    assert(span_of(knots, u0) == 1);
    let prev = rounds_sp(cps, knots, 1, 1, u0, 0);
    assert(prev[0] == cps[0]);
    assert(prev[1] == cps[1]);
    let al = alpha_sp(knots, 1, 1, u0, 1, 1);
    assert(s_sub(u0 as int, knots[1] as int) == 0);
    vstd::arithmetic::div_mod::lemma_div_of0(crate::fx::mag(s_sub(knots[2] as int, knots[1] as int)));
    assert(al == 0) by {
        assert(tdiv(0 * (FX_ONE as int), s_sub(knots[2] as int, knots[1] as int)) == 0) by {
            assert(0 * (FX_ONE as int) == 0) by (nonlinear_arith);
            let d = s_sub(knots[2] as int, knots[1] as int);
            if d != 0 {
                vstd::arithmetic::div_mod::lemma_div_of0(crate::fx::mag(d));
            }
        }
    }
    let b = blend_sp(prev[0], prev[1], 0);
    crate::fx::lemma_fxm_one(prev[0].x as int);
    crate::fx::lemma_fxm_one(prev[0].y as int);
    crate::fx::lemma_fxm_zero(prev[1].x as int);
    crate::fx::lemma_fxm_zero(prev[1].y as int);
    assert(s_sub(FX_ONE as int, 0) == FX_ONE as int);
    assert(b.x == prev[0].x && b.y == prev[0].y);
    assert(rounds_sp(cps, knots, 1, 1, u0, 1)[1] == b);
    assert(eval_sp(1, cps, knots, u0) == cps[0]);
    // Last valid knot: the span index lies past the last control point, so
    // the clamped end applies.
    let u1 = knots[len - 2];
    lemma_knot_pos_is(knots, u1, 0, len - 1);
    assert(span_of(knots, u1) == len - 2);
    assert(len - 2 > n);
    assert(knots[1] < u1);
    assert(eval_sp(1, cps, knots, u1) == cps[n]);
}


/// A vanishing numerator makes the blending ratio zero, whatever the
/// denominator (a zero denominator already divides to zero).
proof fn lemma_fxd_of_zero(b: int)
    ensures
        fxd(0, b) == 0,
{
    assert(0 * (FX_ONE as int) == 0) by (nonlinear_arith);
    if b != 0 {
        vstd::arithmetic::div_mod::lemma_div_of0(crate::fx::mag(b));
    }
}

/// Blending with ratio zero keeps the first point.
proof fn lemma_blend_zero(a: Point, b: Point)
    ensures
        blend_sp(a, b, 0) == a,
{
    crate::fx::lemma_fxm_one(a.x as int);
    crate::fx::lemma_fxm_one(a.y as int);
    crate::fx::lemma_fxm_zero(b.x as int);
    crate::fx::lemma_fxm_zero(b.y as int);
    assert(s_sub(FX_ONE as int, 0) == FX_ONE as int);
}

/// At the first clamped knot every blending ratio vanishes, so each de
/// Boor round shifts the working points down by one.
proof fn lemma_rounds_shift(cps: Seq<Point>, knots: Seq<i64>, degree: int, u: i64, r: int)
    requires
        1 <= degree,
        cps.len() >= degree + 1,
        degree < knots.len(),
        0 <= r <= degree,
        forall|i: int| 0 <= i <= degree ==> (#[trigger] knots[i]) == knots[0],
        u == knots[0],
    ensures
        forall|i: int|
            r <= i <= degree ==> (#[trigger] rounds_sp(cps, knots, degree, degree, u, r)[i])
                == cps[i - r],
    decreases r,
{
    if r == 0 {
        assert forall|i: int|
            0 <= i <= degree implies (#[trigger] rounds_sp(cps, knots, degree, degree, u, 0)[i])
            == cps[i] by {
            assert(rounds_sp(cps, knots, degree, degree, u, 0)[i] == cps[degree - degree + i]);
        }
    } else {
        lemma_rounds_shift(cps, knots, degree, u, r - 1);
        let prev = rounds_sp(cps, knots, degree, degree, u, r - 1);
        assert forall|i: int|
            r <= i <= degree implies (#[trigger] rounds_sp(cps, knots, degree, degree, u, r)[i])
            == cps[i - r] by {
            let al = alpha_sp(knots, degree, degree, u, r, i);
            assert(knots[degree - degree + i] == knots[0]);
            assert(s_sub(u as int, knots[degree - degree + i] as int) == 0);
            lemma_fxd_of_zero(
                s_sub(knots[degree + i + 1 - r] as int, knots[degree - degree + i] as int),
            );
            assert(al == 0);
            lemma_blend_zero(prev[i - 1], prev[i]);
            assert(prev[i - 1] == cps[i - 1 - (r - 1)]);
        }
    }
}

/// For a clamped spline of any supported degree — the first and last
/// `degree + 1` knots repeated — evaluating at the first valid knot
/// reproduces the first control point and evaluating at the last valid
/// knot reproduces the last control point.
pub proof fn lemma_clamped_end_knots(degree: int, cps: Seq<Point>, knots: Seq<i64>)
    requires
        1 <= degree <= 3,
        cps.len() >= degree + 1,
        knots.len() >= cps.len() + degree + 1,
        forall|i: int, j: int| 0 <= i < j < knots.len() ==> (#[trigger] knots[i]) <= (#[trigger] knots[j]),
        forall|i: int| 0 <= i <= degree ==> (#[trigger] knots[i]) == knots[0],
        knots[degree] < knots[degree + 1],
        forall|i: int|
            knots.len() - 1 - degree <= i < knots.len() ==> (#[trigger] knots[i])
                == knots[knots.len() - 1 - degree],
    ensures
        eval_sp(degree, cps, knots, knots[degree]) == cps[0],
        eval_sp(degree, cps, knots, knots[knots.len() - 1 - degree]) == cps[cps.len() - 1],
{
    let n = cps.len() - 1;
    let len = knots.len();
    // First valid knot: the span is the first in range and the triangle
    // collapses onto the first control point.
    let a = knots[degree];
    assert(a == knots[0]);
    lemma_knot_pos_is(knots, a, 0, degree + 1);
    assert(span_of(knots, a) == degree);
    lemma_rounds_shift(cps, knots, degree, a, degree);
    assert(rounds_sp(cps, knots, degree, degree, a, degree)[degree] == cps[0]);
    assert(eval_sp(degree, cps, knots, a) == cps[0]);
    // Last valid knot: the span lies past the last control point, so the
    // clamped end applies.
    let b = knots[len - 1 - degree];
    assert forall|t: int| 0 <= t < len implies (#[trigger] knots[t]) <= b by {
        if t < len - 1 - degree {
            assert(knots[t] <= knots[len - 1 - degree]);
        }
    }
    lemma_knot_pos_none(knots, b, 0);
    assert(span_of(knots, b) == len - 2);
    assert(len - 2 > n);
    assert(knots[degree] <= b);
    assert(eval_sp(degree, cps, knots, b) == cps[n]);
}

} // verus!