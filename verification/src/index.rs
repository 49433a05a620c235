//! Spatial indices over flattened geometry: rectangle-overlap queries for
//! culling and nearest-within-radius queries for picking.
//!
//! An index is built once per loaded drawing from the drawing's segments
//! (or measured text boxes) and never mutated.  A cull query returns the
//! handles whose boxes overlap the query rectangle.  A pick query gathers
//! candidates from the square around the point, measures each candidate's
//! squared distance — exact for line segments, the distance to the control
//! polygon for curved segments — and keeps the candidate with the least
//! squared distance within the squared radius; on ties the latest-inserted
//! (visually topmost) candidate wins.

use vstd::prelude::*;
use crate::fx::{clamp64, fxm, fxd, s_add, s_sub, fx_mul, fx_div, sat_add, sat_sub, FX_ONE};
use crate::geom::{Point, Rect, Size, rects_overlap, rect_contains};
use crate::affine::DirectIsometry;
use crate::path::{PathSeg, path_segs, seg_bbox, spec_seg_bbox};
use crate::graphics::{GraphicsBag, GraphicsItem, ItemHandle};
use crate::shape::FatShape;

verus! {

/// A valid handle for an entity present in the drawing.
#[derive(Debug, Clone, Copy, PartialEq, Eq, Structural, PartialOrd, Ord, Hash)]
pub struct EntityHandle(pub u64);

/// A valid handle for a layer present in the drawing.
#[derive(Debug, Clone, Copy, PartialEq, Eq, Structural, PartialOrd, Ord, Hash)]
pub struct LayerHandle(pub u64);

/// One record binding a graphics item to its source entity.
#[derive(Debug, Clone, Copy, PartialEq, Eq, Structural)]
pub struct ItemEntity {
    /// The graphics item.
    pub item: ItemHandle,
    /// The source entity it was derived from.
    pub entity: EntityHandle,
}

/// The squared distance from `p` to the segment from `a` to `b` (fixed
/// point; the result carries twice the scale).
pub open spec fn line_dist_sq_sp(a: Point, b: Point, p: Point) -> int {
    let dx = s_sub(b.x as int, a.x as int);
    let dy = s_sub(b.y as int, a.y as int);
    let pax = s_sub(p.x as int, a.x as int);
    let pay = s_sub(p.y as int, a.y as int);
    let tn = s_add(fxm(pax, dx), fxm(pay, dy));
    let len2 = s_add(fxm(dx, dx), fxm(dy, dy));
    if len2 <= 0 {
        pax * pax + pay * pay
    } else if tn <= 0 {
        pax * pax + pay * pay
    } else if tn >= len2 {
        let pbx = s_sub(p.x as int, b.x as int);
        let pby = s_sub(p.y as int, b.y as int);
        pbx * pbx + pby * pby
    } else {
        let t = fxd(tn, len2);
        let nx = s_add(a.x as int, fxm(t, dx));
        let ny = s_add(a.y as int, fxm(t, dy));
        let ex = s_sub(p.x as int, nx);
        let ey = s_sub(p.y as int, ny);
        ex * ex + ey * ey
    }
}

/// The squared distance from `p` to a segment: exact for a line, the
/// distance to the control polygon for a quadratic or cubic.
pub open spec fn seg_dist_sq_sp(s: PathSeg, p: Point) -> int {
    match s {
        PathSeg::Line(a, b) => line_dist_sq_sp(a, b, p),
        PathSeg::Quad(a, c, b) => {
            let d1 = line_dist_sq_sp(a, c, p);
            let d2 = line_dist_sq_sp(c, b, p);
            if d1 <= d2 {
                d1
            } else {
                d2
            }
        },
        PathSeg::Cubic(a, c1, c2, b) => {
            let d1 = line_dist_sq_sp(a, c1, p);
            let d2 = line_dist_sq_sp(c1, c2, p);
            let d3 = line_dist_sq_sp(c2, b, p);
            let m = if d1 <= d2 {
                d1
            } else {
                d2
            };
            if m <= d3 {
                m
            } else {
                d3
            }
        },
    }
}

/// Squared distance from `p` to the segment from `a` to `b`.
pub fn line_dist_sq(a: Point, b: Point, p: Point) -> (r: u128)
    ensures
        r as int == line_dist_sq_sp(a, b, p),
{
    let dx = sat_sub(b.x, a.x);
    let dy = sat_sub(b.y, a.y);
    let pax = sat_sub(p.x, a.x);
    let pay = sat_sub(p.y, a.y);
    let tn = sat_add(fx_mul(pax, dx), fx_mul(pay, dy));
    let len2 = sat_add(fx_mul(dx, dx), fx_mul(dy, dy));
    proof {
        crate::fx::lemma_i64_prod_fits(pax as int, pax as int);
        crate::fx::lemma_i64_prod_fits(pay as int, pay as int);
        assert((pax as int) * (pax as int) >= 0) by (nonlinear_arith);
        assert((pay as int) * (pay as int) >= 0) by (nonlinear_arith);
    }
    if len2 <= 0 || tn <= 0 {
        let sx = ((pax as i128) * (pax as i128)) as u128;
        let sy = ((pay as i128) * (pay as i128)) as u128;
        sx + sy
    } else if tn >= len2 {
        let pbx = sat_sub(p.x, b.x);
        let pby = sat_sub(p.y, b.y);
        proof {
            crate::fx::lemma_i64_prod_fits(pbx as int, pbx as int);
            crate::fx::lemma_i64_prod_fits(pby as int, pby as int);
            assert((pbx as int) * (pbx as int) >= 0) by (nonlinear_arith);
            assert((pby as int) * (pby as int) >= 0) by (nonlinear_arith);
        }
        let sx = ((pbx as i128) * (pbx as i128)) as u128;
        let sy = ((pby as i128) * (pby as i128)) as u128;
        sx + sy
    } else {
        let t = fx_div(tn, len2);
        let nx = sat_add(a.x, fx_mul(t, dx));
        let ny = sat_add(a.y, fx_mul(t, dy));
        let ex = sat_sub(p.x, nx);
        let ey = sat_sub(p.y, ny);
        proof {
            crate::fx::lemma_i64_prod_fits(ex as int, ex as int);
            crate::fx::lemma_i64_prod_fits(ey as int, ey as int);
            assert((ex as int) * (ex as int) >= 0) by (nonlinear_arith);
            assert((ey as int) * (ey as int) >= 0) by (nonlinear_arith);
        }
        let sx = ((ex as i128) * (ex as i128)) as u128;
        let sy = ((ey as i128) * (ey as i128)) as u128;
        sx + sy
    }
}

/// Squared distance from `p` to a segment.
pub fn seg_dist_sq(s: &PathSeg, p: Point) -> (r: u128)
    ensures
        r as int == seg_dist_sq_sp(*s, p),
{
    match s {
        PathSeg::Line(a, b) => line_dist_sq(*a, *b, p),
        PathSeg::Quad(a, c, b) => {
            let d1 = line_dist_sq(*a, *c, p);
            let d2 = line_dist_sq(*c, *b, p);
            if d1 <= d2 {
                d1
            } else {
                d2
            }
        },
        PathSeg::Cubic(a, c1, c2, b) => {
            let d1 = line_dist_sq(*a, *c1, p);
            let d2 = line_dist_sq(*c1, *c2, p);
            let d3 = line_dist_sq(*c2, *b, p);
            let m = if d1 <= d2 {
                d1
            } else {
                d2
            };
            if m <= d3 {
                m
            } else {
                d3
            }
        },
    }
}

/// Insert a handle into a list kept ascending and unique.
fn insert_handle_sorted(v: &mut Vec<ItemHandle>, h: ItemHandle)
    requires
        forall|i: int, j: int|
            0 <= i < j < old(v)@.len() ==> (#[trigger] old(v)@[i]).0 < (#[trigger] old(v)@[j]).0,
    ensures
        forall|i: int, j: int|
            0 <= i < j < final(v)@.len() ==> (#[trigger] final(v)@[i]).0
                < (#[trigger] final(v)@[j]).0,
        forall|x: ItemHandle| final(v)@.contains(x) <==> (old(v)@.contains(x) || x == h),
{
    let mut i: usize = 0;
    while i < v.len() && v[i].0 < h.0
        invariant
            i <= v@.len(),
            v == old(v),
            forall|t: int| 0 <= t < i ==> (#[trigger] v@[t]).0 < h.0,
        decreases v@.len() - i,
    {
        i += 1;
    }
    if i < v.len() && v[i].0 == h.0 {
        proof {
            assert(v@[i as int] == h);
            assert(v@.contains(h));
        }
        return ;
    }
    let ghost before = v@;
    v.insert(i, h);
    proof {
        assert(v@ =~= before.insert(i as int, h));
        assert(v@[i as int] == h);
        assert forall|x: ItemHandle| v@.contains(x) implies (before.contains(x) || x == h) by {
            let w = choose|w: int| 0 <= w < v@.len() && v@[w] == x;
            if w < i {
                assert(before[w] == x);
            } else if w > i {
                assert(before[w - 1] == x);
            }
        }
        assert forall|x: ItemHandle| before.contains(x) || x == h implies v@.contains(x) by {
            if x == h {
                assert(v@[i as int] == x);
            } else if before.contains(x) {
                let w = choose|w: int| 0 <= w < before.len() && before[w] == x;
                if w < i {
                    assert(v@[w] == x);
                } else {
                    assert(v@[w + 1] == x);
                }
            }
        }
        assert forall|a: int, b: int| 0 <= a < b < v@.len() implies (#[trigger] v@[a]).0 < (
        #[trigger] v@[b]).0 by {
            if a < i && b == i {
                assert(v@[a] == before[a]);
            } else if a == i && b > i {
                assert(v@[b] == before[b - 1]);
            }
        }
    }
}

/// The left fold of the first `k` boxes under union.
pub open spec fn boxes_hull(boxes: Seq<Rect>, k: int) -> Rect
    decreases k,
{
    if k <= 1 {
        boxes[0]
    } else {
        crate::path::spec_rect_union(boxes_hull(boxes, k - 1), boxes[k - 1])
    }
}

/// One row of the entity index: a segment with its source handles.
pub ghost struct RowS {
    /// The flattened segment.
    pub seg: PathSeg,
    /// The entity it came from.
    pub entity: EntityHandle,
    /// The graphics item it came from.
    pub item: ItemHandle,
}

/// The rows one item-entity record contributes: one row per segment of the
/// named item's path when it is a shape in the bag, none otherwise.
pub open spec fn pair_rows(items: Seq<GraphicsItem>, pe: ItemEntity) -> Seq<RowS> {
    if (pe.item.0 as int) < items.len() && items[pe.item.0 as int] is FatShape {
        let segs = path_segs(items[pe.item.0 as int]->FatShape_0.path.els@);
        Seq::new(
            segs.len(),
            |i: int| RowS { seg: segs[i], entity: pe.entity, item: pe.item },
        )
    } else {
        Seq::empty()
    }
}

/// The rows of the first `k` item-entity records, in order.
pub open spec fn all_rows(items: Seq<GraphicsItem>, pairs: Seq<ItemEntity>, k: int) -> Seq<RowS>
    decreases k,
{
    if k <= 0 {
        Seq::empty()
    } else {
        all_rows(items, pairs, k - 1) + pair_rows(items, pairs[k - 1])
    }
}

/// The parallel lists spell out exactly the given rows.
pub open spec fn lists_are_rows(
    ss: Seq<PathSeg>,
    es: Seq<EntityHandle>,
    hs: Seq<ItemHandle>,
    rows: Seq<RowS>,
) -> bool {
    &&& ss.len() == rows.len()
    &&& es.len() == rows.len()
    &&& hs.len() == rows.len()
    &&& forall|i: int|
        0 <= i < rows.len() ==> ss[i] == (#[trigger] rows[i]).seg && es[i] == rows[i].entity
            && hs[i] == rows[i].item
}

/// The handles among the first `k` rows whose boxes overlap the rectangle.
pub open spec fn culled(boxes: Seq<Rect>, mapping: Seq<ItemHandle>, q: Rect, k: int, x: ItemHandle)
    -> bool {
    exists|j: int| 0 <= j < k && mapping[j] == x && rects_overlap(#[trigger] boxes[j], q)
}

/// Collect, ascending and without repetition, the handles whose boxes
/// overlap the query rectangle.
fn cull_query(boxes: &Vec<Rect>, mapping: &Vec<ItemHandle>, q: Rect) -> (r: Vec<ItemHandle>)
    requires
        boxes@.len() == mapping@.len(),
    ensures
        forall|x: ItemHandle|
            r@.contains(x) <==> culled(boxes@, mapping@, q, boxes@.len() as int, x),
        forall|i: int, j: int|
            0 <= i < j < r@.len() ==> (#[trigger] r@[i]).0 < (#[trigger] r@[j]).0,
{
    let mut out: Vec<ItemHandle> = Vec::new();
    let mut k: usize = 0;
    while k < boxes.len()
        invariant
            k <= boxes@.len(),
            boxes@.len() == mapping@.len(),
            forall|x: ItemHandle| out@.contains(x) <==> culled(boxes@, mapping@, q, k as int, x),
            forall|i: int, j: int|
                0 <= i < j < out@.len() ==> (#[trigger] out@[i]).0 < (#[trigger] out@[j]).0,
        decreases boxes@.len() - k,
    {
        let ghost out_before = out@;
        if boxes[k].overlaps(q) {
            insert_handle_sorted(&mut out, mapping[k]);
        }
        k += 1;
        proof {
            assert forall|x: ItemHandle|
                out@.contains(x) <==> culled(boxes@, mapping@, q, k as int, x) by {
                if out@.contains(x) {
                    if out_before.contains(x) {
                        assert(culled(boxes@, mapping@, q, k as int - 1, x));
                    } else {
                        assert(rects_overlap(boxes@[k as int - 1], q));
                        assert(mapping@[k as int - 1] == x);
                    }
                }
                if culled(boxes@, mapping@, q, k as int, x) {
                    let j = choose|j: int|
                        0 <= j < k as int && mapping@[j] == x && rects_overlap(
                            #[trigger] boxes@[j],
                            q,
                        );
                    if j < k as int - 1 {
                        assert(culled(boxes@, mapping@, q, k as int - 1, x));
                        assert(out_before.contains(x));
                    }
                }
            }
        }
    }
    out
}

/// The best candidate among the first `k` rows: its index, or none.  A
/// candidate overlaps the search square and lies within the squared
/// radius; among candidates the least squared distance wins and the
/// latest-inserted wins ties.
pub open spec fn pick_idx(
    boxes: Seq<Rect>,
    segs: Seq<PathSeg>,
    p: Point,
    search: Rect,
    rsq: int,
    k: int,
) -> int
    decreases k,
{
    if k <= 0 {
        -1
    } else {
        let prev = pick_idx(boxes, segs, p, search, rsq, k - 1);
        let d = seg_dist_sq_sp(segs[k - 1], p);
        if rects_overlap(boxes[k - 1], search) && d <= rsq && (prev < 0 || d <= seg_dist_sq_sp(
            segs[prev],
            p,
        )) {
            k - 1
        } else {
            prev
        }
    }
}

/// Bounding box index for entities: one row per flattened segment.
#[derive(Debug)]
pub struct EntityIndex {
    /// The segments' bounding boxes.
    pub boxes: Vec<Rect>,
    /// The flattened segments.
    pub segs: Vec<PathSeg>,
    /// The source entity of each row.
    pub entity_mapping: Vec<EntityHandle>,
    /// The graphics item of each row.
    pub item_mapping: Vec<ItemHandle>,
}

impl EntityIndex {
    /// The four lists are parallel and every box is its segment's box.
    pub open spec fn wf(self) -> bool {
        &&& self.boxes@.len() == self.segs@.len()
        &&& self.boxes@.len() == self.entity_mapping@.len()
        &&& self.boxes@.len() == self.item_mapping@.len()
        &&& forall|k: int|
            0 <= k < self.segs@.len() ==> (#[trigger] self.boxes@[k]) == spec_seg_bbox(
                self.segs@[k],
            )
    }

    /// Build the index from a drawing's shape geometry.  The rows are
    /// exactly the flattened segments of every shape item named by the
    /// item-entity records, in record order, each carrying that record's
    /// entity and item handles; text items and dangling handles contribute
    /// nothing.
    pub fn build(bag: &GraphicsBag, pairs: &Vec<ItemEntity>) -> (r: EntityIndex)
        ensures
            r.wf(),
            lists_are_rows(
                r.segs@,
                r.entity_mapping@,
                r.item_mapping@,
                all_rows(bag.items@, pairs@, pairs@.len() as int),
            ),
    {
        let ghost items = bag.items@;
        let mut boxes: Vec<Rect> = Vec::new();
        let mut segs: Vec<PathSeg> = Vec::new();
        let mut entity_mapping: Vec<EntityHandle> = Vec::new();
        let mut item_mapping: Vec<ItemHandle> = Vec::new();
        let mut k: usize = 0;
        while k < pairs.len()
            invariant
                k <= pairs@.len(),
                items == bag.items@,
                boxes@.len() == segs@.len(),
                forall|t: int|
                    0 <= t < segs@.len() ==> (#[trigger] boxes@[t]) == spec_seg_bbox(segs@[t]),
                lists_are_rows(
                    segs@,
                    entity_mapping@,
                    item_mapping@,
                    all_rows(items, pairs@, k as int),
                ),
            decreases pairs@.len() - k,
        {
            let pe = pairs[k];
            let ghost rows_before = all_rows(items, pairs@, k as int);
            match bag.get(pe.item) {
                Some(item) => {
                    match item {
                        GraphicsItem::FatShape(fs) => {
                            proof {
                                assert(items[pe.item.0 as int] is FatShape);
                                assert(items[pe.item.0 as int]->FatShape_0 == *fs);
                            }
                            let ss = fs.path.segments();
                            let ghost prows = pair_rows(items, pe);
                            proof {
                                assert(prows.len() == ss@.len());
                            }
                            let mut t: usize = 0;
                            while t < ss.len()
                                invariant
                                    t <= ss@.len(),
                                    items == bag.items@,
                                    prows == pair_rows(items, pe),
                                    prows.len() == ss@.len(),
                                    ss@ == path_segs(items[pe.item.0 as int]->FatShape_0.path.els@),
                                    (pe.item.0 as int) < items.len(),
                                    items[pe.item.0 as int] is FatShape,
                                    rows_before == all_rows(items, pairs@, k as int),
                                    boxes@.len() == segs@.len(),
                                    forall|u: int|
                                        0 <= u < segs@.len() ==> (#[trigger] boxes@[u])
                                            == spec_seg_bbox(segs@[u]),
                                    lists_are_rows(
                                        segs@,
                                        entity_mapping@,
                                        item_mapping@,
                                        rows_before + prows.subrange(0, t as int),
                                    ),
                                decreases ss@.len() - t,
                            {
                                let sg = ss[t];
                                proof {
                                    assert(prows[t as int] == (RowS {
                                        seg: ss@[t as int],
                                        entity: pe.entity,
                                        item: pe.item,
                                    }));
                                }
                                let ghost s0 = segs@;
                                let ghost e0 = entity_mapping@;
                                let ghost h0 = item_mapping@;
                                boxes.push(seg_bbox(sg));
                                segs.push(sg);
                                entity_mapping.push(pe.entity);
                                item_mapping.push(pe.item);
                                t += 1;
                                proof {
                                    let prev = rows_before + prows.subrange(0, t as int - 1);
                                    let next = rows_before + prows.subrange(0, t as int);
                                    assert(prows.subrange(0, t as int) =~= prows.subrange(
                                        0,
                                        t as int - 1,
                                    ) + seq![prows[t as int - 1]]);
                                    assert(next =~= prev + seq![prows[t as int - 1]]);
                                    assert(segs@ =~= s0.push(sg));
                                    assert(entity_mapping@ =~= e0.push(pe.entity));
                                    assert(item_mapping@ =~= h0.push(pe.item));
                                    assert forall|i: int| 0 <= i < next.len() implies segs@[i]
                                        == (#[trigger] next[i]).seg && entity_mapping@[i]
                                        == next[i].entity && item_mapping@[i] == next[i].item by {
                                        if i < prev.len() {
                                            assert(next[i] == prev[i]);
                                            assert(segs@[i] == s0[i]);
                                            assert(entity_mapping@[i] == e0[i]);
                                            assert(item_mapping@[i] == h0[i]);
                                        } else {
                                            assert(next[i] == prows[t as int - 1]);
                                        }
                                    }
                                }
                            }
                            proof {
                                assert(prows.subrange(0, prows.len() as int) =~= prows);
                            }
                        },
                        GraphicsItem::FatText(ft) => {
                            proof {
                                assert(pair_rows(items, pe) =~= Seq::<RowS>::empty());
                                assert(rows_before + pair_rows(items, pe) =~= rows_before);
                            }
                        },
                    }
                },
                None => {
                    proof {
                        assert(pair_rows(items, pe) =~= Seq::<RowS>::empty());
                        assert(rows_before + pair_rows(items, pe) =~= rows_before);
                    }
                },
            }
            k += 1;
            proof {
                assert(all_rows(items, pairs@, k as int) == rows_before + pair_rows(
                    items,
                    pairs@[k as int - 1],
                ));
            }
        }
        EntityIndex { boxes, segs, entity_mapping, item_mapping }
    }

    /// The handles of the items whose geometry's boxes overlap the bounds,
    /// ascending, without repetition.
    pub fn query_items(&self, q: Rect) -> (r: Vec<ItemHandle>)
        requires
            self.wf(),
        ensures
            forall|x: ItemHandle|
                r@.contains(x) <==> culled(
                    self.boxes@,
                    self.item_mapping@,
                    q,
                    self.boxes@.len() as int,
                    x,
                ),
            forall|i: int, j: int|
                0 <= i < j < r@.len() ==> (#[trigger] r@[i]).0 < (#[trigger] r@[j]).0,
    {
        cull_query(&self.boxes, &self.item_mapping, q)
    }

    /// The union of all boxes (folded left), or a degenerate rectangle at
    /// the origin for an empty index.
    pub fn bounds(&self) -> (r: Rect)
        requires
            self.wf(),
        ensures
            self.boxes@.len() == 0 ==> r == (Rect { x0: 0, y0: 0, x1: 0, y1: 0 }),
            self.boxes@.len() > 0 ==> r == boxes_hull(self.boxes@, self.boxes@.len() as int),
            r.wf(),
    {
        let mut r = Rect { x0: 0, y0: 0, x1: 0, y1: 0 };
        let mut k: usize = 0;
        let mut started = false;
        while k < self.boxes.len()
            invariant
                k <= self.boxes@.len(),
                self.wf(),
                r.wf(),
                started == (k > 0),
                !started ==> r == (Rect { x0: 0, y0: 0, x1: 0, y1: 0 }),
                started ==> r == boxes_hull(self.boxes@, k as int),
            decreases self.boxes@.len() - k,
        {
            let b = self.boxes[k];
            proof {
                assert(b == spec_seg_bbox(self.segs@[k as int]));
                assert(spec_seg_bbox(self.segs@[k as int]).wf());
            }
            if started {
                let u = r.union(b);
                proof {
                    assert(u == crate::path::spec_rect_union(r, b));
                }
                r = u;
            } else {
                r = b;
                started = true;
            }
            k += 1;
        }
        r
    }

    /// Pick the entity nearest to `p` within `radius`: candidates come
    /// from the square around the point, the least squared distance wins,
    /// and the latest-inserted candidate wins exact ties.
    pub fn pick(&self, p: Point, radius: i64) -> (r: Option<EntityHandle>)
        requires
            self.wf(),
            radius >= 0,
        ensures
            ({
                let search = spec_search_rect(p, radius);
                let rsq = (radius as int) * (radius as int);
                let w = pick_idx(self.boxes@, self.segs@, p, search, rsq, self.boxes@.len() as int);
                ((r is Some) == (w >= 0)) && (w >= 0 ==> r == Some(self.entity_mapping@[w]))
            }),
    {
        let search = Rect::at_point(p).inflate(radius);
        proof {
            crate::fx::lemma_i64_prod_fits(radius as int, radius as int);
            assert((radius as int) * (radius as int) >= 0) by (nonlinear_arith);
        }
        let rsq: u128 = ((radius as i128) * (radius as i128)) as u128;
        let mut found = false;
        let mut bidx: usize = 0;
        let mut best_d: u128 = 0;
        let mut k: usize = 0;
        let ghost gsearch = spec_search_rect(p, radius);
        while k < self.boxes.len()
            invariant
                k <= self.boxes@.len(),
                self.wf(),
                search == gsearch,
                rsq as int == (radius as int) * (radius as int),
                found == (pick_idx(self.boxes@, self.segs@, p, gsearch, rsq as int, k as int)
                    >= 0),
                found ==> bidx as int == pick_idx(
                    self.boxes@,
                    self.segs@,
                    p,
                    gsearch,
                    rsq as int,
                    k as int,
                ),
                found ==> bidx < k && best_d as int == seg_dist_sq_sp(self.segs@[bidx as int], p),
            decreases self.boxes@.len() - k,
        {
            if self.boxes[k].overlaps(search) {
                let d = seg_dist_sq(&self.segs[k], p);
                if d <= rsq && (!found || d <= best_d) {
                    found = true;
                    bidx = k;
                    best_d = d;
                }
            }
            k += 1;
        }
        if !found {
            None
        } else {
            Some(self.entity_mapping[bidx])
        }
    }
}

/// A segment's control-point box is well-formed.
pub open spec fn seg_bbox_wf(sg: PathSeg) -> bool {
    spec_seg_bbox(sg).wf()
}

/// The search square of a pick: the point, inflated by the radius.
pub open spec fn spec_search_rect(p: Point, radius: i64) -> Rect {
    Rect {
        x0: clamp64(p.x - radius) as i64,
        y0: clamp64(p.y - radius) as i64,
        x1: clamp64(p.x + radius) as i64,
        y1: clamp64(p.y + radius) as i64,
    }
}

/// A measured text item: its handle, placement and laid-out size.
#[derive(Debug, Clone, Copy, PartialEq, Eq, Structural)]
pub struct TextMeasure {
    /// The text item.
    pub item: ItemHandle,
    /// Its insertion isometry, already compensated for the attachment
    /// point.
    pub insertion: DirectIsometry,
    /// The laid-out size.
    pub size: Size,
}

/// The bounding box of a measured text item: the hull of its corner
/// points under the insertion isometry.
pub open spec fn text_bbox_sp(m: TextMeasure) -> Rect {
    let t = crate::affine::aff_mul(
        crate::affine::AffS {
            a: FX_ONE as int,
            b: 0,
            c: 0,
            d: FX_ONE as int,
            e: m.insertion.displacement.x as int,
            f: m.insertion.displacement.y as int,
        },
        crate::affine::AffS {
            a: crate::trig::cos_spec(m.insertion.angle as int),
            b: crate::trig::sin_spec(m.insertion.angle as int),
            c: -crate::trig::sin_spec(m.insertion.angle as int),
            d: crate::trig::cos_spec(m.insertion.angle as int),
            e: 0,
            f: 0,
        },
    );
    let c0 = crate::path::pt_of(crate::affine::aff_apply(t, (Point { x: 0, y: 0 })@));
    let c1 = crate::path::pt_of(crate::affine::aff_apply(t, (Point { x: m.size.w, y: 0 })@));
    let c2 = crate::path::pt_of(crate::affine::aff_apply(t, (Point { x: 0, y: m.size.h })@));
    let c3 = crate::path::pt_of(
        crate::affine::aff_apply(t, (Point { x: m.size.w, y: m.size.h })@),
    );
    spec_corner_hull(c0, c1, c2, c3)
}

/// The hull of four points.
pub open spec fn spec_corner_hull(c0: Point, c1: Point, c2: Point, c3: Point) -> Rect {
    crate::path::spec_rect_union(
        crate::path::spec_rect_union(
            Rect { x0: c0.x, y0: c0.y, x1: c0.x, y1: c0.y },
            Rect { x0: c1.x, y0: c1.y, x1: c1.x, y1: c1.y },
        ),
        crate::path::spec_rect_union(
            Rect { x0: c2.x, y0: c2.y, x1: c2.x, y1: c2.y },
            Rect { x0: c3.x, y0: c3.y, x1: c3.x, y1: c3.y },
        ),
    )
}

/// Index for culling text items.
#[derive(Debug)]
pub struct TextCullIndex {
    /// The measured boxes.
    pub boxes: Vec<Rect>,
    /// The text item of each row.
    pub item_mapping: Vec<ItemHandle>,
}

impl TextCullIndex {
    /// The two lists are parallel.
    pub open spec fn wf(self) -> bool {
        self.boxes@.len() == self.item_mapping@.len()
    }

    /// Build the index from measured text items.
    #[verifier::rlimit(100)]
    pub fn build(measures: &Vec<TextMeasure>) -> (r: TextCullIndex)
        ensures
            r.wf(),
            r.boxes@.len() == measures@.len(),
            forall|k: int|
                0 <= k < measures@.len() ==> (#[trigger] r.boxes@[k]) == text_bbox_sp(
                    measures@[k],
                ) && r.item_mapping@[k] == measures@[k].item,
    {
        let mut boxes: Vec<Rect> = Vec::new();
        let mut item_mapping: Vec<ItemHandle> = Vec::new();
        let mut k: usize = 0;
        while k < measures.len()
            invariant
                k <= measures@.len(),
                boxes@.len() == k,
                item_mapping@.len() == k,
                forall|t: int|
                    0 <= t < k ==> (#[trigger] boxes@[t]) == text_bbox_sp(measures@[t])
                        && item_mapping@[t] == measures@[t].item,
            decreases measures@.len() - k,
        {
            let m = measures[k];
            let t = m.insertion.to_affine();
            let c0 = t.apply(Point { x: 0, y: 0 });
            let c1 = t.apply(Point { x: m.size.w, y: 0 });
            let c2 = t.apply(Point { x: 0, y: m.size.h });
            let c3 = t.apply(Point { x: m.size.w, y: m.size.h });
            let b01 = Rect::at_point(c0).union(Rect::at_point(c1));
            let b23 = Rect::at_point(c2).union(Rect::at_point(c3));
            let b = b01.union(b23);
            proof {
                assert(b01 == crate::path::spec_rect_union(
                    Rect { x0: c0.x, y0: c0.y, x1: c0.x, y1: c0.y },
                    Rect { x0: c1.x, y0: c1.y, x1: c1.x, y1: c1.y },
                ));
                assert(b23 == crate::path::spec_rect_union(
                    Rect { x0: c2.x, y0: c2.y, x1: c2.x, y1: c2.y },
                    Rect { x0: c3.x, y0: c3.y, x1: c3.x, y1: c3.y },
                ));
                assert(b == spec_corner_hull(c0, c1, c2, c3));
                assert(b == text_bbox_sp(m));
            }
            boxes.push(b);
            item_mapping.push(m.item);
            k += 1;
        }
        TextCullIndex { boxes, item_mapping }
    }

    /// The handles of the text items whose measured boxes overlap the
    /// bounds, ascending, without repetition.
    pub fn query_items(&self, q: Rect) -> (r: Vec<ItemHandle>)
        requires
            self.wf(),
        ensures
            forall|x: ItemHandle|
                r@.contains(x) <==> culled(
                    self.boxes@,
                    self.item_mapping@,
                    q,
                    self.boxes@.len() as int,
                    x,
                ),
            forall|i: int, j: int|
                0 <= i < j < r@.len() ==> (#[trigger] r@[i]).0 < (#[trigger] r@[j]).0,
    {
        cull_query(&self.boxes, &self.item_mapping, q)
    }
}

/// Every inserted box is returned by a cull query whose rectangle fully
/// contains it: containment implies overlap, and an overlapping row's
/// handle is in the query's answer.
pub proof fn lemma_cull_round_trip(
    boxes: Seq<Rect>,
    mapping: Seq<ItemHandle>,
    q: Rect,
    k: int,
)
    requires
        0 <= k < boxes.len(),
        boxes[k].wf(),
        rect_contains(q, boxes[k]),
    ensures
        culled(boxes, mapping, q, boxes.len() as int, mapping[k]),
{
    assert(rects_overlap(boxes[k], q));
}

} // verus!
