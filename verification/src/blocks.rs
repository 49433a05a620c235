//! The block expander: named blocks of entities, expanded under
//! per-instance transforms with row and column arrays, resolved by a
//! fixed-point iteration.
//!
//! A block's geometry is chunked by the runs of one (line weight, color)
//! style; by-block values inside a block are deferred (left as their
//! sentinels) and substituted with the inserting instance's resolved values
//! at expansion time.  A block resolves once every block it inserts has
//! resolved; each pass resolves what it can, and a pass that resolves
//! nothing ends the iteration, leaving cyclic or missing references
//! unresolved rather than failing the load.

use vstd::prelude::*;
use crate::fx::{s_neg, s_mul, sat_mul, sat_neg};
use crate::geom::Point;
use crate::affine::{Affine, AffS, aff_mul};
use crate::trig::{sin_spec, cos_spec};
use crate::path::{BezPath, PathEl, el_transformed};
use crate::codec::{EntityRec, EntityKind, InsertRec, decode_sp, path_from_entity, cv_sp,
    point_from_dxf_point};

verus! {

/// A drawing layer's attributes, as plain values.
#[derive(Debug, Clone)]
pub struct LayerRec {
    /// The drawing's handle for this layer; nonzero.
    pub handle: u64,
    /// The layer's name.
    pub name: String,
    /// Whether the layer is on.
    pub on: bool,
    /// The layer's indexed color, when it has a resolvable one.
    pub color_index: Option<u8>,
    /// The layer's raw line weight value.
    pub raw_line_weight: i16,
}

/// A named block: a sequence of entities.
#[derive(Debug, Clone)]
pub struct BlockRec {
    /// The block's entities, in drawing order.
    pub entities: Vec<EntityRec>,
}

/// A run of geometry sharing one pending style inside a block.
#[derive(Debug, Clone)]
pub struct Chunk {
    /// Pending line weight value (by-block left as its sentinel).
    pub lw: i16,
    /// Pending color code (by-block left as its sentinel).
    pub color: i16,
    /// The run's geometry.
    pub path: BezPath,
}

/// Ghost model of a chunk.
pub ghost struct ChunkS {
    /// Pending line weight value.
    pub lw: i16,
    /// Pending color code.
    pub color: i16,
    /// The run's elements.
    pub els: Seq<PathEl>,
}

impl View for Chunk {
    type V = ChunkS;

    open spec fn view(&self) -> ChunkS {
        ChunkS { lw: self.lw, color: self.color, els: self.path.els@ }
    }
}

/// The view of a chunk list.
pub open spec fn chunks_view(cs: Seq<Chunk>) -> Seq<ChunkS> {
    Seq::new(cs.len(), |i: int| cs[i]@)
}

/// The view of a resolution table.
pub open spec fn table_view(t: Seq<Option<Vec<Chunk>>>) -> Seq<Option<Seq<ChunkS>>> {
    Seq::new(
        t.len(),
        |i: int|
            match t[i] {
                Some(cs) => Some(chunks_view(cs@)),
                None => None,
            },
    )
}

/// A pending style inside a block.
#[derive(Debug, Clone, Copy, PartialEq, Eq, Structural)]
pub struct BlockStyle {
    /// Pending line weight value.
    pub lw: i16,
    /// Pending color code.
    pub color: i16,
}

/// The pending style of a block entity: a by-layer line weight takes the
/// layer's raw weight (25 when the layer has none below zero), a by-layer
/// color takes the layer's indexed color (white, 7, when the layer has no
/// resolvable one); other values stay as they are, by-block sentinels
/// included.  A missing layer counts as one without usable values.
pub open spec fn block_style_sp(layers: Seq<LayerRec>, layer: Option<usize>, lw: i16, ce: i16)
    -> BlockStyle {
    let lraw: int = match layer {
        Some(li) => if li < layers.len() {
            layers[li as int].raw_line_weight as int
        } else {
            -1
        },
        None => -1,
    };
    let lcolor: Option<u8> = match layer {
        Some(li) => if li < layers.len() {
            layers[li as int].color_index
        } else {
            None
        },
        None => None,
    };
    let rlw: i16 = if lw == -2 {
        if lraw < 0 {
            25
        } else {
            lraw as i16
        }
    } else {
        lw
    };
    let rce: i16 = if ce == 256 {
        match lcolor {
            Some(i) => i as i16,
            None => 7,
        }
    } else {
        ce
    };
    BlockStyle { lw: rlw, color: rce }
}

/// Resolve the pending style of a block entity against its layer.
pub fn resolve_block_style(layers: &Vec<LayerRec>, layer: Option<usize>, lw: i16, ce: i16) -> (r:
    BlockStyle)
    ensures
        r == block_style_sp(layers@, layer, lw, ce),
{
    let lraw: i16 = match layer {
        Some(li) => if li < layers.len() {
            layers[li].raw_line_weight
        } else {
            -1
        },
        None => -1,
    };
    let lcolor: Option<u8> = match layer {
        Some(li) => if li < layers.len() {
            layers[li].color_index
        } else {
            None
        },
        None => None,
    };
    let rlw: i16 = if lw == -2 {
        if lraw < 0 {
            25
        } else {
            lraw
        }
    } else {
        lw
    };
    let rce: i16 = if ce == 256 {
        match lcolor {
            Some(i) => i as i16,
            None => 7,
        }
    } else {
        ce
    };
    BlockStyle { lw: rlw, color: rce }
}

/// The transform of one array cell: scale, then translate by the cell's
/// column and row offsets, then rotate by the negated insertion rotation,
/// then translate to the insertion point.
pub open spec fn cell_transform_sp(ins: InsertRec, row: int, col: int) -> AffS {
    let s = AffS { a: ins.x_scale as int, b: 0, c: 0, d: ins.y_scale as int, e: 0, f: 0 };
    let cellv = Point {
        x: s_mul(col, ins.column_spacing as int) as i64,
        y: s_mul(row, ins.row_spacing as int) as i64,
    };
    let t1 = AffS {
        a: crate::fx::FX_ONE as int,
        b: 0,
        c: 0,
        d: crate::fx::FX_ONE as int,
        e: cellv.x as int,
        f: cellv.y as int,
    };
    let nr = s_neg(ins.rotation_deg as int);
    let rot = AffS {
        a: cos_spec(nr),
        b: sin_spec(nr),
        c: -sin_spec(nr),
        d: cos_spec(nr),
        e: 0,
        f: 0,
    };
    let loc = cv_sp(ins.location);
    let t2 = AffS {
        a: crate::fx::FX_ONE as int,
        b: 0,
        c: 0,
        d: crate::fx::FX_ONE as int,
        e: loc.x as int,
        f: loc.y as int,
    };
    aff_mul(t2, aff_mul(rot, aff_mul(t1, s)))
}

/// The transform of one array cell of an insertion.
pub fn cell_transform(ins: &InsertRec, row: i64, col: i64) -> (r: Affine)
    ensures
        r@ == cell_transform_sp(*ins, row as int, col as int),
{
    let base = Affine::scale_non_uniform(ins.x_scale, ins.y_scale);
    let cellv = Point {
        x: sat_mul(col, ins.column_spacing),
        y: sat_mul(row, ins.row_spacing),
    };
    base.then_translate(cellv).then_rotate_deg(sat_neg(ins.rotation_deg)).then_translate(
        point_from_dxf_point(ins.location),
    )
}

/// The elements of a path under a transform.
pub open spec fn els_transformed(t: AffS, els: Seq<PathEl>) -> Seq<PathEl> {
    Seq::new(els.len(), |i: int| el_transformed(t, els[i]))
}

/// The pending style an expanded chunk carries: a by-block sentinel is
/// replaced by the inserting instance's value, anything else stays.
pub open spec fn local_lw_sp(chunk_lw: i16, cur_lw: i16) -> i16 {
    if chunk_lw == -1 {
        cur_lw
    } else {
        chunk_lw
    }
}

/// The pending color an expanded chunk carries.
pub open spec fn local_color_sp(chunk_color: i16, cur_color: i16) -> i16 {
    if chunk_color == 0 {
        cur_color
    } else {
        chunk_color
    }
}

/// The expanded cells of one chunk's row, columns zero through `col`
/// exclusive.
pub open spec fn row_cells_sp(ch: ChunkS, ins: InsertRec, lw: i16, color: i16, row: int, col: int)
    -> Seq<ChunkS>
    decreases col,
{
    if col <= 0 {
        Seq::empty()
    } else {
        row_cells_sp(ch, ins, lw, color, row, col - 1) + seq![
            ChunkS {
                lw,
                color,
                els: els_transformed(cell_transform_sp(ins, row, col - 1), ch.els),
            },
        ]
    }
}

/// The expanded cells of one chunk, rows zero through `row` exclusive.
pub open spec fn chunk_cells_sp(ch: ChunkS, ins: InsertRec, lw: i16, color: i16, row: int) -> Seq<
    ChunkS,
>
    decreases row,
{
    if row <= 0 {
        Seq::empty()
    } else {
        chunk_cells_sp(ch, ins, lw, color, row - 1) + row_cells_sp(
            ch,
            ins,
            lw,
            color,
            row - 1,
            ins.column_count as int,
        )
    }
}

/// The expansion of an insertion: every chunk of the target block, under
/// every array cell's transform, carrying the locally substituted style.
pub open spec fn insert_chunks_sp(
    target: Seq<ChunkS>,
    ins: InsertRec,
    cur_lw: i16,
    cur_color: i16,
    ci: int,
) -> Seq<ChunkS>
    decreases ci,
{
    if ci <= 0 {
        Seq::empty()
    } else {
        insert_chunks_sp(target, ins, cur_lw, cur_color, ci - 1) + chunk_cells_sp(
            target[ci - 1],
            ins,
            local_lw_sp(target[ci - 1].lw, cur_lw),
            local_color_sp(target[ci - 1].color, cur_color),
            ins.row_count as int,
        )
    }
}

/// Expand an insertion of a resolved block: one output chunk per target
/// chunk and array cell, in chunk-major, then row-major, then column order.
pub fn expand_insert(target: &Vec<Chunk>, ins: &InsertRec, cur_lw: i16, cur_color: i16) -> (r:
    Vec<Chunk>)
    requires
        forall|i: int| 0 <= i < target@.len() ==> (#[trigger] target@[i]).path.wf(),
    ensures
        chunks_view(r@) =~= insert_chunks_sp(
            chunks_view(target@),
            *ins,
            cur_lw,
            cur_color,
            target@.len() as int,
        ),
        forall|i: int| 0 <= i < r@.len() ==> (#[trigger] r@[i]).path.wf(),
{
    let ghost tv = chunks_view(target@);
    let mut out: Vec<Chunk> = Vec::new();
    let mut ci: usize = 0;
    while ci < target.len()
        invariant
            ci <= target@.len(),
            tv == chunks_view(target@),
            forall|i: int| 0 <= i < target@.len() ==> (#[trigger] target@[i]).path.wf(),
            chunks_view(out@) =~= insert_chunks_sp(tv, *ins, cur_lw, cur_color, ci as int),
            forall|i: int| 0 <= i < out@.len() ==> (#[trigger] out@[i]).path.wf(),
        decreases target@.len() - ci,
    {
        let ch = &target[ci];
        let llw = if ch.lw == -1 {
            cur_lw
        } else {
            ch.lw
        };
        let lcolor = if ch.color == 0 {
            cur_color
        } else {
            ch.color
        };
        let mut row: u32 = 0;
        while row < ins.row_count
            invariant
                row <= ins.row_count,
                tv == chunks_view(target@),
                ci < target@.len(),
                forall|i: int| 0 <= i < target@.len() ==> (#[trigger] target@[i]).path.wf(),
                ch == &target@[ci as int],
                llw == local_lw_sp(tv[ci as int].lw, cur_lw),
                lcolor == local_color_sp(tv[ci as int].color, cur_color),
                chunks_view(out@) =~= insert_chunks_sp(tv, *ins, cur_lw, cur_color, ci as int)
                    + chunk_cells_sp(tv[ci as int], *ins, llw, lcolor, row as int),
                forall|i: int| 0 <= i < out@.len() ==> (#[trigger] out@[i]).path.wf(),
            decreases ins.row_count - row,
        {
            let mut col: u32 = 0;
            while col < ins.column_count
                invariant
                    col <= ins.column_count,
                    row < ins.row_count,
                    tv == chunks_view(target@),
                    ci < target@.len(),
                    forall|i: int| 0 <= i < target@.len() ==> (#[trigger] target@[i]).path.wf(),
                    ch == &target@[ci as int],
                    llw == local_lw_sp(tv[ci as int].lw, cur_lw),
                    lcolor == local_color_sp(tv[ci as int].color, cur_color),
                    chunks_view(out@) =~= insert_chunks_sp(tv, *ins, cur_lw, cur_color, ci as int)
                        + chunk_cells_sp(tv[ci as int], *ins, llw, lcolor, row as int)
                        + row_cells_sp(tv[ci as int], *ins, llw, lcolor, row as int, col as int),
                    forall|i: int| 0 <= i < out@.len() ==> (#[trigger] out@[i]).path.wf(),
                decreases ins.column_count - col,
            {
                let t = cell_transform(ins, row as i64, col as i64);
                let np = ch.path.transform(&t);
                proof {
                    assert(np.els@ =~= els_transformed(t@, ch.path.els@));
                }
                let ghost out_before = out@;
                let nc = Chunk { lw: llw, color: lcolor, path: np };
                let ghost ncs = (ChunkS {
                    lw: llw,
                    color: lcolor,
                    els: els_transformed(cell_transform_sp(*ins, row as int, col as int), tv[ci as int].els),
                });
                proof {
                    assert(tv[ci as int].els == target@[ci as int].path.els@);
                    assert(nc@ == ncs);
                }
                out.push(nc);
                col += 1;
                proof {
                    assert(out@ =~= out_before.push(nc));
                    assert(chunks_view(out@) =~= chunks_view(out_before) + seq![ncs]);
                    assert(row_cells_sp(tv[ci as int], *ins, llw, lcolor, row as int, col as int)
                        =~= row_cells_sp(tv[ci as int], *ins, llw, lcolor, row as int, col as int - 1)
                        + seq![ncs]);
                }
            }
            row += 1;
        }
        ci += 1;
    }
    out
}


/// The fold state of chunking one block.
pub ghost struct BState {
    /// Current pending line weight.
    pub lw: i16,
    /// Current pending color code.
    pub color: i16,
    /// Geometry collected since the last flush.
    pub lines: Seq<PathEl>,
    /// Finished chunks, in drawing order.
    pub out: Seq<ChunkS>,
    /// Whether the block is blocked on an unresolved or missing insertion.
    pub blocked: bool,
}

/// One step of the chunking fold: resolve the entity's pending style,
/// flush the current run on a style change, then expand an insertion or
/// append the entity's decoded geometry.
pub open spec fn bstep(
    st: BState,
    e: EntityRec,
    layers: Seq<LayerRec>,
    table: Seq<Option<Seq<ChunkS>>>,
) -> BState {
    if st.blocked {
        st
    } else {
        let sty = block_style_sp(layers, e.layer, e.lineweight, e.color_code);
        let st1 = if sty.lw != st.lw || sty.color != st.color {
            BState {
                lw: sty.lw,
                color: sty.color,
                lines: Seq::empty(),
                out: st.out + seq![ChunkS { lw: st.lw, color: st.color, els: st.lines }],
                blocked: false,
            }
        } else {
            st
        };
        match e.kind {
            EntityKind::Insert(ins) => {
                match ins.block {
                    None => BState { blocked: true, ..st1 },
                    Some(j) => {
                        if j >= table.len() || table[j as int] is None {
                            BState { blocked: true, ..st1 }
                        } else if ins.extrusion_z != crate::fx::FX_ONE {
                            st1
                        } else {
                            let st2 = if st1.lines.len() > 0 {
                                BState {
                                    lines: Seq::empty(),
                                    out: st1.out + seq![
                                        ChunkS { lw: st1.lw, color: st1.color, els: st1.lines },
                                    ],
                                    ..st1
                                }
                            } else {
                                st1
                            };
                            let target = table[j as int]->Some_0;
                            BState {
                                lines: Seq::empty(),
                                out: st2.out + insert_chunks_sp(
                                    target,
                                    ins,
                                    st2.lw,
                                    st2.color,
                                    target.len() as int,
                                ),
                                ..st2
                            }
                        }
                    },
                }
            },
            _ => {
                match decode_sp(e.kind) {
                    Some(els) => BState { lines: st1.lines + els, ..st1 },
                    None => st1,
                }
            },
        }
    }
}

/// The chunking fold over the first `i` entities.
pub open spec fn bfold(
    entities: Seq<EntityRec>,
    layers: Seq<LayerRec>,
    table: Seq<Option<Seq<ChunkS>>>,
    i: int,
) -> BState
    decreases i,
{
    if i <= 0 {
        let sty = block_style_sp(
            layers,
            entities[0].layer,
            entities[0].lineweight,
            entities[0].color_code,
        );
        BState { lw: sty.lw, color: sty.color, lines: Seq::empty(), out: Seq::empty(), blocked: false }
    } else {
        bstep(bfold(entities, layers, table, i - 1), entities[i - 1], layers, table)
    }
}

/// The chunks of one block against a resolution table, or none while an
/// insertion in it is missing or unresolved.
pub open spec fn block_chunks_sp(
    entities: Seq<EntityRec>,
    layers: Seq<LayerRec>,
    table: Seq<Option<Seq<ChunkS>>>,
) -> Option<Seq<ChunkS>> {
    if entities.len() == 0 {
        Some(Seq::empty())
    } else {
        let f = bfold(entities, layers, table, entities.len() as int);
        if f.blocked {
            None
        } else if f.lines.len() > 0 {
            Some(f.out + seq![ChunkS { lw: f.lw, color: f.color, els: f.lines }])
        } else {
            Some(f.out)
        }
    }
}

/// A blocked fold stays blocked.
proof fn lemma_bfold_blocked(
    entities: Seq<EntityRec>,
    layers: Seq<LayerRec>,
    table: Seq<Option<Seq<ChunkS>>>,
    i: int,
    j: int,
)
    requires
        0 <= i <= j,
        bfold(entities, layers, table, i).blocked,
    ensures
        bfold(entities, layers, table, j).blocked,
    decreases j - i,
{
    if i < j {
        lemma_bfold_blocked(entities, layers, table, i, j - 1);
    }
}

/// A table that keeps every resolved entry keeps every unblocked step.
pub open spec fn table_extends(t2: Seq<Option<Seq<ChunkS>>>, t1: Seq<Option<Seq<ChunkS>>>) -> bool {
    &&& t1.len() == t2.len()
    &&& forall|j: int| 0 <= j < t1.len() && t1[j] is Some ==> t2[j] == t1[j]
}

/// One unblocked step is unchanged under a table extension.
proof fn lemma_bstep_stable(
    st: BState,
    e: EntityRec,
    layers: Seq<LayerRec>,
    t1: Seq<Option<Seq<ChunkS>>>,
    t2: Seq<Option<Seq<ChunkS>>>,
)
    requires
        table_extends(t2, t1),
        !st.blocked,
        !bstep(st, e, layers, t1).blocked,
    ensures
        bstep(st, e, layers, t2) == bstep(st, e, layers, t1),
{
}

/// An unblocked fold is unchanged under a table extension.
proof fn lemma_bfold_stable(
    entities: Seq<EntityRec>,
    layers: Seq<LayerRec>,
    t1: Seq<Option<Seq<ChunkS>>>,
    t2: Seq<Option<Seq<ChunkS>>>,
    i: int,
)
    requires
        table_extends(t2, t1),
        0 <= i,
        !bfold(entities, layers, t1, i).blocked,
    ensures
        bfold(entities, layers, t2, i) == bfold(entities, layers, t1, i),
    decreases i,
{
    if i > 0 {
        if bfold(entities, layers, t1, i - 1).blocked {
            lemma_bfold_blocked(entities, layers, t1, i - 1, i);
            assert(false);
        }
        lemma_bfold_stable(entities, layers, t1, t2, i - 1);
        lemma_bstep_stable(bfold(entities, layers, t1, i - 1), entities[i - 1], layers, t1, t2);
    }
}

/// A resolved block's chunks are unchanged under a table extension.
pub proof fn lemma_block_chunks_stable(
    entities: Seq<EntityRec>,
    layers: Seq<LayerRec>,
    t1: Seq<Option<Seq<ChunkS>>>,
    t2: Seq<Option<Seq<ChunkS>>>,
)
    requires
        table_extends(t2, t1),
        block_chunks_sp(entities, layers, t1) is Some,
    ensures
        block_chunks_sp(entities, layers, t2) == block_chunks_sp(entities, layers, t1),
{
    if entities.len() > 0 {
        lemma_bfold_stable(entities, layers, t1, t2, entities.len() as int);
    }
}

/// Every chunk of every resolved table entry has a well-formed path.
pub open spec fn table_wf(t: Seq<Option<Vec<Chunk>>>) -> bool {
    forall|i: int, j: int|
        0 <= i < t.len() && t[i] is Some && 0 <= j < t[i]->Some_0@.len() ==> (#[trigger] t[i]->Some_0@[j]).path.wf()
}

/// Append the expanded chunks to the output list.
fn append_chunks(out: &mut Vec<Chunk>, expanded: Vec<Chunk>)
    requires
        forall|j: int| 0 <= j < old(out)@.len() ==> (#[trigger] old(out)@[j]).path.wf(),
        forall|j: int| 0 <= j < expanded@.len() ==> (#[trigger] expanded@[j]).path.wf(),
    ensures
        chunks_view(final(out)@) =~= chunks_view(old(out)@) + chunks_view(expanded@),
        forall|j: int| 0 <= j < final(out)@.len() ==> (#[trigger] final(out)@[j]).path.wf(),
{
    let ghost orig = expanded@;
    let mut rest = expanded;
    while rest.len() > 0
        invariant
            rest@.len() <= orig.len(),
            rest@ =~= orig.subrange(orig.len() - rest@.len(), orig.len() as int),
            chunks_view(out@) =~= chunks_view(old(out)@) + chunks_view(orig).subrange(
                0,
                orig.len() - rest@.len(),
            ),
            forall|j: int| 0 <= j < out@.len() ==> (#[trigger] out@[j]).path.wf(),
            forall|j: int| 0 <= j < orig.len() ==> (#[trigger] orig[j]).path.wf(),
        decreases rest@.len(),
    {
        let ghost done = orig.len() - rest@.len();
        let ghost rest_before = rest@;
        let ghost out_before = out@;
        let c = rest.remove(0);
        proof {
            assert(rest_before[0] == orig[done]);
            assert(c == orig[done]);
            assert(rest@ =~= rest_before.remove(0));
            assert(rest@ =~= orig.subrange(done + 1, orig.len() as int));
        }
        out.push(c);
        proof {
            let base = chunks_view(old(out)@);
            let cvo = chunks_view(orig);
            assert(out@ =~= out_before.push(c));
            assert(chunks_view(out@) =~= chunks_view(out_before) + seq![c@]);
            assert(c@ == cvo[done]);
            assert(chunks_view(out_before) =~= base + cvo.subrange(0, done));
            assert(cvo.subrange(0, done + 1) =~= cvo.subrange(0, done) + seq![cvo[done]]);
            assert(chunks_view(out@) =~= base + cvo.subrange(0, done + 1));
            assert(orig.len() - rest@.len() == done + 1);
        }
    }
    proof {
        assert(chunks_view(orig).subrange(0, orig.len() as int) =~= chunks_view(orig));
    }
}

/// Run one entity through the chunking state: flush on a style change,
/// expand or block on an insertion, append decoded geometry otherwise.
/// The state afterwards is one fold step of the model; a false result
/// means the step blocked on a missing or unresolved insertion.
#[verifier::rlimit(100)]
fn chunk_step(
    lw: &mut i16,
    color: &mut i16,
    lines: &mut BezPath,
    out: &mut Vec<Chunk>,
    e: &EntityRec,
    layers: &Vec<LayerRec>,
    table: &Vec<Option<Vec<Chunk>>>,
) -> (ok: bool)
    requires
        old(lines).wf(),
        table_wf(table@),
        forall|j: int| 0 <= j < old(out)@.len() ==> (#[trigger] old(out)@[j]).path.wf(),
    ensures
        ({
            let st = BState {
                lw: *old(lw),
                color: *old(color),
                lines: old(lines).els@,
                out: chunks_view(old(out)@),
                blocked: false,
            };
            let st2 = bstep(st, *e, layers@, table_view(table@));
            &&& ok == !st2.blocked
            &&& *final(lw) == st2.lw
            &&& *final(color) == st2.color
            &&& final(lines).els@ =~= st2.lines
            &&& chunks_view(final(out)@) =~= st2.out
        }),
        final(lines).wf(),
        forall|j: int| 0 <= j < final(out)@.len() ==> (#[trigger] final(out)@[j]).path.wf(),
{
    let ghost tv = table_view(table@);
    let sty = resolve_block_style(layers, e.layer, e.lineweight, e.color_code);
    if sty.lw != *lw || sty.color != *color {
        let run = lines.take_all();
        out.push(Chunk { lw: *lw, color: *color, path: run });
        *lw = sty.lw;
        *color = sty.color;
        proof {
            assert(chunks_view(out@) =~= chunks_view(out@.drop_last()) + seq![out@.last()@]);
        }
    }
    match &e.kind {
        EntityKind::Insert(ins) => {
            match ins.block {
                None => false,
                Some(j) => {
                    if j >= table.len() {
                        proof {
                            assert(tv[j as int] is None || j >= tv.len());
                        }
                        false
                    } else {
                        let is_unresolved = match &table[j] {
                            None => true,
                            Some(t0) => false,
                        };
                        if is_unresolved {
                            proof {
                                assert(tv[j as int] is None);
                            }
                            false
                        } else if ins.extrusion_z != crate::fx::FX_ONE {
                            true
                        } else {
                            if lines.len() > 0 {
                                let run = lines.take_all();
                                out.push(Chunk { lw: *lw, color: *color, path: run });
                                proof {
                                    assert(chunks_view(out@) =~= chunks_view(out@.drop_last())
                                        + seq![out@.last()@]);
                                }
                            }
                            let expanded = match &table[j] {
                                Some(target) => expand_insert(target, ins, *lw, *color),
                                None => Vec::new(),
                            };
                            proof {
                                assert(tv[j as int]->Some_0 =~= chunks_view(
                                    table@[j as int]->Some_0@,
                                ));
                            }
                            append_chunks(out, expanded);
                            true
                        }
                    }
                },
            }
        },
        _ => {
            match path_from_entity(e) {
                Some(p) => {
                    lines.extend_path(&p);
                    true
                },
                None => true,
            }
        },
    }
}

/// Chunk one block against the current resolution table: its runs of one
/// style, with insertions of resolved blocks expanded in place; none while
/// an insertion is missing or unresolved.
pub fn chunk_block(
    entities: &Vec<EntityRec>,
    layers: &Vec<LayerRec>,
    table: &Vec<Option<Vec<Chunk>>>,
) -> (r: Option<Vec<Chunk>>)
    requires
        table_wf(table@),
    ensures
        (r is Some) == (block_chunks_sp(entities@, layers@, table_view(table@)) is Some),
        r is Some ==> chunks_view(r->Some_0@) =~= block_chunks_sp(
            entities@,
            layers@,
            table_view(table@),
        )->Some_0,
        r is Some ==> forall|j: int|
            0 <= j < r->Some_0@.len() ==> (#[trigger] r->Some_0@[j]).path.wf(),
{
    let ghost tv = table_view(table@);
    let mut out: Vec<Chunk> = Vec::new();
    if entities.len() == 0 {
        return Some(out);
    }
    let first_sty = resolve_block_style(
        layers,
        entities[0].layer,
        entities[0].lineweight,
        entities[0].color_code,
    );
    let mut lw = first_sty.lw;
    let mut color = first_sty.color;
    let mut lines = BezPath::new();
    let mut i: usize = 0;
    while i < entities.len()
        invariant
            i <= entities@.len(),
            entities@.len() > 0,
            tv == table_view(table@),
            table_wf(table@),
            lines.wf(),
            !bfold(entities@, layers@, tv, i as int).blocked,
            lw == bfold(entities@, layers@, tv, i as int).lw,
            color == bfold(entities@, layers@, tv, i as int).color,
            lines.els@ =~= bfold(entities@, layers@, tv, i as int).lines,
            chunks_view(out@) =~= bfold(entities@, layers@, tv, i as int).out,
            forall|j: int| 0 <= j < out@.len() ==> (#[trigger] out@[j]).path.wf(),
        decreases entities@.len() - i,
    {
        let e = &entities[i];
        let ok = chunk_step(&mut lw, &mut color, &mut lines, &mut out, e, layers, table);
        if !ok {
            proof {
                assert(bfold(entities@, layers@, tv, i as int + 1).blocked);
                lemma_bfold_blocked(entities@, layers@, tv, i as int + 1, entities@.len() as int);
            }
            return None;
        }
        i += 1;
    }
    if lines.len() > 0 {
        out.push(Chunk { lw, color, path: lines });
        proof {
            assert(chunks_view(out@) =~= chunks_view(out@.drop_last()) + seq![out@.last()@]);
        }
    }
    Some(out)
}


/// The number of unresolved entries of a table.
pub open spec fn none_count(t: Seq<Option<Seq<ChunkS>>>) -> int
    decreases t.len(),
{
    if t.len() == 0 {
        0
    } else {
        none_count(t.drop_last()) + (if t.last() is None {
            1int
        } else {
            0
        })
    }
}

/// The count is never negative.
proof fn lemma_none_count_nonneg(t: Seq<Option<Seq<ChunkS>>>)
    ensures
        none_count(t) >= 0,
    decreases t.len(),
{
    if t.len() > 0 {
        lemma_none_count_nonneg(t.drop_last());
    }
}

/// Resolving one entry lowers the count by one.
proof fn lemma_none_count_set(t: Seq<Option<Seq<ChunkS>>>, i: int, v: Seq<ChunkS>)
    requires
        0 <= i < t.len(),
        t[i] is None,
    ensures
        none_count(t.update(i, Some(v))) == none_count(t) - 1,
    decreases t.len(),
{
    let t2 = t.update(i, Some(v));
    if i == t.len() - 1 {
        assert(t2.drop_last() =~= t.drop_last());
        assert(t2.last() == Some(v));
    } else {
        assert(t2.drop_last() =~= t.drop_last().update(i, Some(v)));
        assert(t2.last() == t.last());
        lemma_none_count_set(t.drop_last(), i, v);
    }
}

/// A resolution table is consistent when every resolved entry equals the
/// chunks of its block against the table itself.
pub open spec fn table_consistent(
    blocks: Seq<BlockRec>,
    layers: Seq<LayerRec>,
    t: Seq<Option<Vec<Chunk>>>,
) -> bool {
    forall|j: int|
        0 <= j < t.len() && t[j] is Some ==> block_chunks_sp(
            (#[trigger] blocks[j]).entities@,
            layers,
            table_view(t),
        ) == Some(chunks_view(t[j]->Some_0@))
}

/// Resolve every block of the library by repeated passes: a pass chunks
/// every block whose insertions all point at already resolved blocks, and
/// a pass that resolves nothing ends the iteration.  In the result, every
/// resolved entry holds exactly its block's chunks against the final
/// table, and every unresolved entry is one whose block still cannot be
/// chunked against it — a cyclic or missing reference, left unresolved
/// rather than failing.
pub fn resolve_blocks(blocks: &Vec<BlockRec>, layers: &Vec<LayerRec>) -> (r: Vec<
    Option<Vec<Chunk>>,
>)
    ensures
        r@.len() == blocks@.len(),
        table_wf(r@),
        table_consistent(blocks@, layers@, r@),
        forall|i: int|
            0 <= i < r@.len() && r@[i] is None ==> block_chunks_sp(
                (#[trigger] blocks@[i]).entities@,
                layers@,
                table_view(r@),
            ) is None,
{
    let mut table: Vec<Option<Vec<Chunk>>> = Vec::new();
    let mut z: usize = 0;
    while z < blocks.len()
        invariant
            z <= blocks@.len(),
            table@.len() == z,
            forall|j: int| 0 <= j < z ==> (#[trigger] table@[j]) is None,
        decreases blocks@.len() - z,
    {
        table.push(None);
        z += 1;
    }
    let mut progress = true;
    while progress
        invariant
            table@.len() == blocks@.len(),
            table_wf(table@),
            table_consistent(blocks@, layers@, table@),
            !progress ==> forall|i: int|
                0 <= i < table@.len() && table@[i] is None ==> block_chunks_sp(
                    (#[trigger] blocks@[i]).entities@,
                    layers@,
                    table_view(table@),
                ) is None,
        decreases none_count(table_view(table@)) + (if progress {
            1int
        } else {
            0
        }),
    {
        proof {
            lemma_none_count_nonneg(table_view(table@));
        }
        let ghost count0 = none_count(table_view(table@));
        progress = false;
        let mut i: usize = 0;
        while i < table.len()
            invariant
                i <= table@.len(),
                table@.len() == blocks@.len(),
                table_wf(table@),
                table_consistent(blocks@, layers@, table@),
                none_count(table_view(table@)) <= count0,
                progress ==> none_count(table_view(table@)) <= count0 - 1,
                !progress ==> forall|j: int|
                    0 <= j < i && table@[j] is None ==> block_chunks_sp(
                        (#[trigger] blocks@[j]).entities@,
                        layers@,
                        table_view(table@),
                    ) is None,
            decreases table@.len() - i,
        {
            let is_none = match &table[i] {
                None => true,
                Some(x) => false,
            };
            if is_none {
                let res = chunk_block(&blocks[i].entities, layers, &table);
                match res {
                    Some(chs) => {
                        let ghost tv_old = table_view(table@);
                        let ghost cvs = chunks_view(chs@);
                        let ghost t_old = table@;
                        table.set(i, Some(chs));
                        progress = true;
                        proof {
                            let tv_new = table_view(table@);
                            assert(tv_new =~= tv_old.update(i as int, Some(cvs)));
                            lemma_none_count_set(tv_old, i as int, cvs);
                            assert(table_extends(tv_new, tv_old));
                            assert forall|j: int|
                                0 <= j < table@.len() && table@[j] is Some implies block_chunks_sp(
                                (#[trigger] blocks@[j]).entities@,
                                layers@,
                                tv_new,
                            ) == Some(chunks_view(table@[j]->Some_0@)) by {
                                if j == i as int {
                                    lemma_block_chunks_stable(
                                        blocks@[j].entities@,
                                        layers@,
                                        tv_old,
                                        tv_new,
                                    );
                                } else {
                                    assert(t_old[j] is Some);
                                    assert(table@[j] == t_old[j]);
                                    lemma_block_chunks_stable(
                                        blocks@[j].entities@,
                                        layers@,
                                        tv_old,
                                        tv_new,
                                    );
                                }
                            }
                        }
                    },
                    None => {
                    },
                }
            }
            i += 1;
        }
        proof {
            lemma_none_count_nonneg(table_view(table@));
        }
    }
    table
}

} // verus!