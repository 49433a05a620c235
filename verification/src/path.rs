//! Bézier paths.
//!
//! A path is a sequence of elements; a well-formed path begins with a
//! `MoveTo`.  Segments (lines, quadratics, cubics) are derived from the
//! elements by tracking the current point and the start of the current
//! subpath; a `ClosePath` yields the closing line.

use vstd::prelude::*;
use crate::geom::{Point, Rect, min_i, max_i};
use crate::affine::{Affine, aff_apply};

verus! {

/// One path element.
#[derive(Debug, Clone, Copy, PartialEq, Eq, Structural)]
pub enum PathEl {
    /// Begin a new subpath at the point.
    MoveTo(Point),
    /// Straight line to the point.
    LineTo(Point),
    /// Quadratic Bézier through the control point to the end point.
    QuadTo(Point, Point),
    /// Cubic Bézier through the two control points to the end point.
    CurveTo(Point, Point, Point),
    /// Close the current subpath back to its start.
    ClosePath,
}

/// One drawable segment of a path.
#[derive(Debug, Clone, Copy, PartialEq, Eq, Structural)]
pub enum PathSeg {
    /// Line from start to end.
    Line(Point, Point),
    /// Quadratic from start, through a control point, to end.
    Quad(Point, Point, Point),
    /// Cubic from start, through two control points, to end.
    Cubic(Point, Point, Point, Point),
}

/// Segments of the elements from index `i` on, with current point `cur` and
/// subpath start `start`.
pub open spec fn segs_from(els: Seq<PathEl>, i: int, cur: Point, start: Point) -> Seq<PathSeg>
    decreases els.len() - i,
{
    if i < 0 || i >= els.len() {
        Seq::empty()
    } else {
        match els[i] {
            PathEl::MoveTo(p) => segs_from(els, i + 1, p, p),
            PathEl::LineTo(p) => seq![PathSeg::Line(cur, p)] + segs_from(els, i + 1, p, start),
            PathEl::QuadTo(c, p) => seq![PathSeg::Quad(cur, c, p)] + segs_from(
                els,
                i + 1,
                p,
                start,
            ),
            PathEl::CurveTo(c1, c2, p) => seq![PathSeg::Cubic(cur, c1, c2, p)] + segs_from(
                els,
                i + 1,
                p,
                start,
            ),
            PathEl::ClosePath => seq![PathSeg::Line(cur, start)] + segs_from(
                els,
                i + 1,
                start,
                start,
            ),
        }
    }
}

/// The segments of a whole element sequence.
pub open spec fn path_segs(els: Seq<PathEl>) -> Seq<PathSeg> {
    segs_from(els, 0, Point { x: 0, y: 0 }, Point { x: 0, y: 0 })
}

/// A sequence of path elements is well-formed when it is empty or opens with
/// a `MoveTo`.
pub open spec fn els_wf(els: Seq<PathEl>) -> bool {
    els.len() > 0 ==> els[0] is MoveTo
}

/// Image of one element under a transform model.
pub open spec fn el_transformed(t: crate::affine::AffS, e: PathEl) -> PathEl {
    match e {
        PathEl::MoveTo(p) => PathEl::MoveTo(pt_of(aff_apply(t, p@))),
        PathEl::LineTo(p) => PathEl::LineTo(pt_of(aff_apply(t, p@))),
        PathEl::QuadTo(c, p) => PathEl::QuadTo(pt_of(aff_apply(t, c@)), pt_of(aff_apply(t, p@))),
        PathEl::CurveTo(c1, c2, p) => PathEl::CurveTo(
            pt_of(aff_apply(t, c1@)),
            pt_of(aff_apply(t, c2@)),
            pt_of(aff_apply(t, p@)),
        ),
        PathEl::ClosePath => PathEl::ClosePath,
    }
}

/// Rebuild an executable point from a model point whose coordinates are in
/// range (transform application always saturates into range).
pub open spec fn pt_of(p: crate::affine::PtS) -> Point {
    Point { x: p.x as i64, y: p.y as i64 }
}

/// The end point of one element: where the pen rests after drawing it, or
/// `None` for a close, which returns to the subpath start.
pub open spec fn el_endpoint(e: PathEl) -> Option<Point> {
    match e {
        PathEl::MoveTo(p) => Some(p),
        PathEl::LineTo(p) => Some(p),
        PathEl::QuadTo(c, p) => Some(p),
        PathEl::CurveTo(c1, c2, p) => Some(p),
        PathEl::ClosePath => None,
    }
}

/// A path: a growable sequence of elements, kept well-formed.
#[derive(Debug, Clone, PartialEq, Eq)]
pub struct BezPath {
    /// The elements, in drawing order.
    pub els: Vec<PathEl>,
}

impl BezPath {
    /// The path is well-formed.
    pub open spec fn wf(self) -> bool {
        els_wf(self.els@)
    }

    /// An empty path.
    pub fn new() -> (r: BezPath)
        ensures
            r.els@ =~= Seq::<PathEl>::empty(),
            r.wf(),
    {
        BezPath { els: Vec::new() }
    }

    /// Number of elements.
    pub fn len(&self) -> (r: usize)
        ensures
            r == self.els@.len(),
    {
        self.els.len()
    }

    /// Begin a new subpath.
    pub fn move_to(&mut self, p: Point)
        requires
            old(self).wf(),
        ensures
            final(self).els@ =~= old(self).els@ + seq![PathEl::MoveTo(p)],
            final(self).wf(),
    {
        self.els.push(PathEl::MoveTo(p));
    }

    /// Line to `p`.  The path must already have an open subpath.
    pub fn line_to(&mut self, p: Point)
        requires
            old(self).wf(),
            old(self).els@.len() > 0,
        ensures
            final(self).els@ =~= old(self).els@ + seq![PathEl::LineTo(p)],
            final(self).wf(),
    {
        self.els.push(PathEl::LineTo(p));
    }

    /// Quadratic to `p` through `c`.  The path must already have an open
    /// subpath.
    pub fn quad_to(&mut self, c: Point, p: Point)
        requires
            old(self).wf(),
            old(self).els@.len() > 0,
        ensures
            final(self).els@ =~= old(self).els@ + seq![PathEl::QuadTo(c, p)],
            final(self).wf(),
    {
        self.els.push(PathEl::QuadTo(c, p));
    }

    /// Cubic to `p` through `c1` and `c2`.  The path must already have an
    /// open subpath.
    pub fn curve_to(&mut self, c1: Point, c2: Point, p: Point)
        requires
            old(self).wf(),
            old(self).els@.len() > 0,
        ensures
            final(self).els@ =~= old(self).els@ + seq![PathEl::CurveTo(c1, c2, p)],
            final(self).wf(),
    {
        self.els.push(PathEl::CurveTo(c1, c2, p));
    }

    /// Close the current subpath.  The path must already have an open
    /// subpath.
    pub fn close_path(&mut self)
        requires
            old(self).wf(),
            old(self).els@.len() > 0,
        ensures
            final(self).els@ =~= old(self).els@ + seq![PathEl::ClosePath],
            final(self).wf(),
    {
        self.els.push(PathEl::ClosePath);
    }

    /// Move the path's elements out, leaving it empty.
    pub fn take_all(&mut self) -> (r: BezPath)
        ensures
            r.els@ =~= old(self).els@,
            final(self).els@ =~= Seq::<PathEl>::empty(),
            final(self).wf(),
            old(self).wf() ==> r.wf(),
    {
        let mut v: Vec<PathEl> = Vec::new();
        let mut t: usize = 0;
        while t < self.els.len()
            invariant
                t <= self.els@.len(),
                self == old(self),
                v@ =~= self.els@.subrange(0, t as int),
            decreases self.els@.len() - t,
        {
            v.push(self.els[t]);
            t += 1;
            proof {
                assert(self.els@.subrange(0, t as int) =~= self.els@.subrange(0, t as int - 1)
                    + seq![self.els@[t as int - 1]]);
            }
        }
        proof {
            assert(self.els@.subrange(0, self.els@.len() as int) =~= self.els@);
        }
        self.els = Vec::new();
        BezPath { els: v }
    }

    /// Append every element of `other`.
    pub fn extend_path(&mut self, other: &BezPath)
        requires
            old(self).wf(),
            other.wf(),
        ensures
            final(self).els@ =~= old(self).els@ + other.els@,
            final(self).wf(),
    {
        let mut i: usize = 0;
        while i < other.els.len()
            invariant
                i <= other.els@.len(),
                self.els@ =~= old(self).els@ + other.els@.subrange(0, i as int),
                els_wf(old(self).els@),
                els_wf(other.els@),
            decreases other.els@.len() - i,
        {
            self.els.push(other.els[i]);
            i += 1;
            proof {
                assert(other.els@.subrange(0, i as int) =~= other.els@.subrange(0, i as int - 1)
                    + seq![other.els@[i as int - 1]]);
            }
        }
        proof {
            assert(other.els@.subrange(0, other.els@.len() as int) =~= other.els@);
            if old(self).els@.len() == 0 && other.els@.len() > 0 {
                assert(self.els@[0] == other.els@[0]);
            }
        }
    }

    /// The image of the path under a transform: every point is mapped, the
    /// element structure is unchanged.
    pub fn transform(&self, t: &Affine) -> (r: BezPath)
        ensures
            r.els@.len() == self.els@.len(),
            forall|i: int|
                0 <= i < self.els@.len() ==> r.els@[i] == el_transformed(t@, self.els@[i]),
            self.wf() ==> r.wf(),
    {
        let mut out: Vec<PathEl> = Vec::new();
        let mut i: usize = 0;
        while i < self.els.len()
            invariant
                i <= self.els@.len(),
                out@.len() == i,
                forall|j: int| 0 <= j < i ==> out@[j] == el_transformed(t@, self.els@[j]),
            decreases self.els@.len() - i,
        {
            let e = self.els[i];
            let ne = match e {
                PathEl::MoveTo(p) => PathEl::MoveTo(t.apply(p)),
                PathEl::LineTo(p) => PathEl::LineTo(t.apply(p)),
                PathEl::QuadTo(c, p) => PathEl::QuadTo(t.apply(c), t.apply(p)),
                PathEl::CurveTo(c1, c2, p) => PathEl::CurveTo(t.apply(c1), t.apply(c2), t.apply(p)),
                PathEl::ClosePath => PathEl::ClosePath,
            };
            out.push(ne);
            i += 1;
        }
        BezPath { els: out }
    }

    /// The drawable segments of the path.
    pub fn segments(&self) -> (r: Vec<PathSeg>)
        ensures
            r@ =~= path_segs(self.els@),
    {
        let mut out: Vec<PathSeg> = Vec::new();
        let mut cur = Point { x: 0, y: 0 };
        let mut start = Point { x: 0, y: 0 };
        let mut i: usize = 0;
        while i < self.els.len()
            invariant
                i <= self.els@.len(),
                path_segs(self.els@) =~= out@ + segs_from(self.els@, i as int, cur, start),
            decreases self.els@.len() - i,
        {
            let e = self.els[i];
            match e {
                PathEl::MoveTo(p) => {
                    cur = p;
                    start = p;
                },
                PathEl::LineTo(p) => {
                    out.push(PathSeg::Line(cur, p));
                    cur = p;
                },
                PathEl::QuadTo(c, p) => {
                    out.push(PathSeg::Quad(cur, c, p));
                    cur = p;
                },
                PathEl::CurveTo(c1, c2, p) => {
                    out.push(PathSeg::Cubic(cur, c1, c2, p));
                    cur = p;
                },
                PathEl::ClosePath => {
                    out.push(PathSeg::Line(cur, start));
                    cur = start;
                },
            }
            i += 1;
        }
        out
    }

    /// The bounding box of the path's segment control points, or `None` for a
    /// path without segments.
    pub fn bounding_box(&self) -> (r: Option<Rect>)
        ensures
            r == bbox_of_segs(path_segs(self.els@)),
    {
        let segs = self.segments();
        let mut r: Option<Rect> = None;
        let mut i: usize = 0;
        while i < segs.len()
            invariant
                i <= segs@.len(),
                r == bbox_of_segs(segs@.subrange(0, i as int)),
            decreases segs@.len() - i,
        {
            let b = seg_bbox(segs[i]);
            r = match r {
                None => Some(b),
                Some(acc) => {
                    proof {
                        lemma_bbox_wf(segs@.subrange(0, i as int));
                    }
                    Some(acc.union(b))
                },
            };
            i += 1;
            proof {
                assert(segs@.subrange(0, i as int) =~= segs@.subrange(0, i as int - 1) + seq![
                    segs@[i as int - 1],
                ]);
                lemma_bbox_snoc(segs@.subrange(0, i as int - 1), segs@[i as int - 1]);
            }
        }
        proof {
            assert(segs@.subrange(0, segs@.len() as int) =~= segs@);
        }
        r
    }
}

/// Bounding box of one segment: the hull of its control points.
pub open spec fn spec_seg_bbox(s: PathSeg) -> Rect {
    match s {
        PathSeg::Line(a, b) => Rect {
            x0: min_i(a.x as int, b.x as int) as i64,
            y0: min_i(a.y as int, b.y as int) as i64,
            x1: max_i(a.x as int, b.x as int) as i64,
            y1: max_i(a.y as int, b.y as int) as i64,
        },
        PathSeg::Quad(a, c, b) => Rect {
            x0: min_i(c.x as int, min_i(a.x as int, b.x as int)) as i64,
            y0: min_i(c.y as int, min_i(a.y as int, b.y as int)) as i64,
            x1: max_i(c.x as int, max_i(a.x as int, b.x as int)) as i64,
            y1: max_i(c.y as int, max_i(a.y as int, b.y as int)) as i64,
        },
        PathSeg::Cubic(a, c1, c2, b) => Rect {
            x0: min_i(min_i(c1.x as int, c2.x as int), min_i(a.x as int, b.x as int)) as i64,
            y0: min_i(min_i(c1.y as int, c2.y as int), min_i(a.y as int, b.y as int)) as i64,
            x1: max_i(max_i(c1.x as int, c2.x as int), max_i(a.x as int, b.x as int)) as i64,
            y1: max_i(max_i(c1.y as int, c2.y as int), max_i(a.y as int, b.y as int)) as i64,
        },
    }
}

/// Bounding box of a sequence of segments, folded left with union.
pub open spec fn bbox_of_segs(segs: Seq<PathSeg>) -> Option<Rect>
    decreases segs.len(),
{
    if segs.len() == 0 {
        None
    } else {
        match bbox_of_segs(segs.drop_last()) {
            None => Some(spec_seg_bbox(segs.last())),
            Some(acc) => Some(spec_rect_union(acc, spec_seg_bbox(segs.last()))),
        }
    }
}

/// Union of two rectangles, in the model.
pub open spec fn spec_rect_union(a: Rect, b: Rect) -> Rect {
    Rect {
        x0: min_i(a.x0 as int, b.x0 as int) as i64,
        y0: min_i(a.y0 as int, b.y0 as int) as i64,
        x1: max_i(a.x1 as int, b.x1 as int) as i64,
        y1: max_i(a.y1 as int, b.y1 as int) as i64,
    }
}

/// A fold step: the bounding box of `segs + [s]`.
proof fn lemma_bbox_snoc(segs: Seq<PathSeg>, s: PathSeg)
    ensures
        bbox_of_segs(segs + seq![s]) == (match bbox_of_segs(segs) {
            None => Some(spec_seg_bbox(s)),
            Some(acc) => Some(spec_rect_union(acc, spec_seg_bbox(s))),
        }),
{
    let whole = segs + seq![s];
    assert(whole.drop_last() =~= segs);
    assert(whole.last() == s);
}

/// The folded bounding box is well-formed.
pub proof fn lemma_bbox_wf(segs: Seq<PathSeg>)
    ensures
        bbox_of_segs(segs) is Some ==> bbox_of_segs(segs)->Some_0.wf(),
    decreases segs.len(),
{
    if segs.len() > 0 {
        lemma_bbox_wf(segs.drop_last());
    }
}

/// The bounding box of one segment, executable.
pub fn seg_bbox(s: PathSeg) -> (r: Rect)
    ensures
        r == spec_seg_bbox(s),
        r.wf(),
{
    match s {
        PathSeg::Line(a, b) => Rect::from_points(a, b),
        PathSeg::Quad(a, c, b) => {
            let base = Rect::from_points(a, b);
            base.union(Rect::at_point(c))
        },
        PathSeg::Cubic(a, c1, c2, b) => {
            let base = Rect::from_points(a, b);
            let ctrl = Rect::from_points(c1, c2);
            ctrl.union(base)
        },
    }
}

} // verus!
