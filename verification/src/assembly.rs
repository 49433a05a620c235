//! Drawing assembly: one pass over the source entities that resolves
//! styles, decodes or expands geometry, records items and hands back the
//! assembled drawing with its back-references.

use vstd::prelude::*;
use crate::fx::{sat_add, sat_neg, FX_ONE};
use crate::affine::DirectIsometry;
use crate::graphics::{GraphicsBag, GraphicsItem, ItemHandle, TransformHandle};
use crate::render_layer::RenderLayer;
use crate::shape::{FatPaint, FatShape};
use crate::text::{AttachmentPoint, FatText, FontClass, TextAlignment, TextStyle};
use crate::style::{PaintInterner, RestrokePaint, resolve_color, resolve_line_weight};
use crate::codec::{EntityKind, EntityRec, path_from_entity, point_from_dxf_point};
use crate::blocks::{BlockRec, LayerRec, expand_insert, resolve_blocks, table_wf};
use crate::index::{EntityHandle, ItemEntity, LayerHandle};

verus! {

/// A named text style record, as plain values.
#[derive(Debug, Clone)]
pub struct StyleRec {
    /// The style's name.
    pub name: String,
    /// Fixed text height; zero lets the entity's own height apply.
    pub text_height: i64,
    /// Width factor, fixed-point.
    pub width_factor: i64,
    /// Oblique angle, fixed-point degrees.
    pub oblique_deg: i64,
    /// The primary font file name the style asks for.
    pub primary_font_file: String,
}

/// The generic family a font file name maps to: the named stroke fonts
/// map to their closest generic families, everything else is sans-serif.
pub open spec fn font_class_sp(f: Seq<char>) -> FontClass {
    if f == "monotxt"@ || f == "monotxt.shx"@ {
        FontClass::Monospace
    } else if f == "italic"@ || f == "italic.shx"@ || f == "romans"@ || f == "romans.shx"@
        || f == "romanc"@ || f == "romanc.shx"@ || f == "romand"@ || f == "romand.shx"@ || f
        == "romant"@ || f == "romant.shx"@ {
        FontClass::Serif
    } else if f == "script"@ || f == "script.shx"@ {
        FontClass::Cursive
    } else {
        FontClass::SansSerif
    }
}

/// Whether a font file name means an italic face.
pub open spec fn font_italic_sp(f: Seq<char>) -> bool {
    f == "italic"@ || f == "italic.shx"@
}

/// The weight a font file name means: bold for the doubly lined roman,
/// extra bold for the triply lined one, regular otherwise.
pub open spec fn font_weight_sp(f: Seq<char>) -> u32 {
    if f == "romand"@ || f == "romand.shx"@ {
        700
    } else if f == "romant"@ || f == "romant.shx"@ {
        800
    } else {
        400
    }
}

/// Whether the executable string equals the literal.
fn str_is(s: &String, lit: &str) -> (r: bool)
    ensures
        r == (s@ == lit@),
{
    let other: String = lit.to_owned();
    s.eq(&other)
}

/// The resolved text style of a style record: its height, width and
/// oblique angle as given, and the family, weight and slant its font file
/// name maps to.
pub fn text_style_from_rec(rec: &StyleRec) -> (r: TextStyle)
    ensures
        r.font_size == rec.text_height,
        r.width_ratio == rec.width_factor,
        r.oblique_deg == rec.oblique_deg,
        r.family == font_class_sp(rec.primary_font_file@),
        r.italic == font_italic_sp(rec.primary_font_file@),
        r.weight == font_weight_sp(rec.primary_font_file@),
{
    let f = &rec.primary_font_file;
    let family = if str_is(f, "monotxt") || str_is(f, "monotxt.shx") {
        FontClass::Monospace
    } else if str_is(f, "italic") || str_is(f, "italic.shx") || str_is(f, "romans") || str_is(
        f,
        "romans.shx",
    ) || str_is(f, "romanc") || str_is(f, "romanc.shx") || str_is(f, "romand") || str_is(
        f,
        "romand.shx",
    ) || str_is(f, "romant") || str_is(f, "romant.shx") {
        FontClass::Serif
    } else if str_is(f, "script") || str_is(f, "script.shx") {
        FontClass::Cursive
    } else {
        FontClass::SansSerif
    };
    let italic = str_is(f, "italic") || str_is(f, "italic.shx");
    let weight: u32 = if str_is(f, "romand") || str_is(f, "romand.shx") {
        700
    } else if str_is(f, "romant") || str_is(f, "romant.shx") {
        800
    } else {
        400
    };
    TextStyle {
        font_size: rec.text_height,
        width_ratio: rec.width_factor,
        oblique_deg: rec.oblique_deg,
        family,
        weight,
        italic,
    }
}

/// The alignment an attachment point decides: centers align middle, left
/// points align left, right points align right.
pub open spec fn alignment_sp(ap: AttachmentPoint) -> TextAlignment {
    match ap {
        AttachmentPoint::TopCenter => TextAlignment::Middle,
        AttachmentPoint::MiddleCenter => TextAlignment::Middle,
        AttachmentPoint::BottomCenter => TextAlignment::Middle,
        AttachmentPoint::TopLeft => TextAlignment::Left,
        AttachmentPoint::MiddleLeft => TextAlignment::Left,
        AttachmentPoint::BottomLeft => TextAlignment::Left,
        AttachmentPoint::TopRight => TextAlignment::Right,
        AttachmentPoint::MiddleRight => TextAlignment::Right,
        AttachmentPoint::BottomRight => TextAlignment::Right,
    }
}

/// The alignment an attachment point decides.
pub fn alignment_for_attachment(ap: AttachmentPoint) -> (r: TextAlignment)
    ensures
        r == alignment_sp(ap),
{
    match ap {
        AttachmentPoint::TopCenter => TextAlignment::Middle,
        AttachmentPoint::MiddleCenter => TextAlignment::Middle,
        AttachmentPoint::BottomCenter => TextAlignment::Middle,
        AttachmentPoint::TopLeft => TextAlignment::Left,
        AttachmentPoint::MiddleLeft => TextAlignment::Left,
        AttachmentPoint::BottomLeft => TextAlignment::Left,
        AttachmentPoint::TopRight => TextAlignment::Right,
        AttachmentPoint::MiddleRight => TextAlignment::Right,
        AttachmentPoint::BottomRight => TextAlignment::Right,
    }
}

/// One step of the text code scan: how many characters the pattern at the
/// front consumes, and what it emits.
pub open spec fn decode_codes_sp(s: Seq<char>, mtext: bool) -> Seq<char>
    decreases s.len(),
{
    if s.len() == 0 {
        Seq::empty()
    } else if s.len() >= 3 && s[0] == '%' && s[1] == '%' && (s[2] == 'c' || s[2] == 'C') {
        seq!['\u{2205}'] + decode_codes_sp(s.skip(3), mtext)
    } else if s.len() >= 3 && s[0] == '%' && s[1] == '%' && (s[2] == 'd' || s[2] == 'D') {
        seq!['\u{00B0}'] + decode_codes_sp(s.skip(3), mtext)
    } else if s.len() >= 3 && s[0] == '%' && s[1] == '%' && (s[2] == 'p' || s[2] == 'P') {
        seq!['\u{00B1}'] + decode_codes_sp(s.skip(3), mtext)
    } else if s.len() >= 3 && s[0] == '%' && s[1] == '%' && s[2] == '%' {
        seq!['%'] + decode_codes_sp(s.skip(3), mtext)
    } else if !mtext && s.len() >= 3 && s[0] == '%' && s[1] == '%' && (s[2] == 'u' || s[2]
        == 'o') {
        decode_codes_sp(s.skip(3), mtext)
    } else if mtext && s.len() >= 4 && s[0] == '\\' && s[1] == 'A' && (s[2] == '0' || s[2] == '1')
        && s[3] == ';' {
        decode_codes_sp(s.skip(4), mtext)
    } else if mtext && s.len() >= 2 && s[0] == '\\' && (s[1] == 'L' || s[1] == 'l' || s[1] == 'O'
        || s[1] == 'o' || s[1] == 'S' || s[1] == 's') {
        decode_codes_sp(s.skip(2), mtext)
    } else if mtext && s.len() >= 2 && s[0] == '\\' && s[1] == 'P' {
        seq!['\n'] + decode_codes_sp(s.skip(2), mtext)
    } else {
        seq![s[0]] + decode_codes_sp(s.skip(1), mtext)
    }
}

/// Decode the drawing format's inline text codes in one left-to-right
/// pass: the percent codes become their symbols, a tripled percent a
/// literal one; for multi-line text the backslash codes are folded (a
/// paragraph break becomes a newline, the formatting toggles vanish), for
/// single-line text the underline and overline toggles vanish.
#[verifier::rlimit(100)]
pub fn decode_text_codes(s: &Vec<char>, mtext: bool) -> (r: Vec<char>)
    ensures
        r@ =~= decode_codes_sp(s@, mtext),
{
    let mut out: Vec<char> = Vec::new();
    let mut i: usize = 0;
    proof {
        assert(s@.skip(0) =~= s@);
    }
    while i < s.len()
        invariant
            i <= s@.len(),
            decode_codes_sp(s@, mtext) =~= out@ + decode_codes_sp(s@.skip(i as int), mtext),
        decreases s@.len() - i,
    {
        let ghost suf = s@.skip(i as int);
        let rem = s.len() - i;
        let c0 = s[i];
        proof {
            assert(suf.len() == rem);
            assert(suf[0] == s@[i as int]);
            if rem >= 2 {
                assert(suf[1] == s@[i as int + 1]);
            }
            if rem >= 3 {
                assert(suf[2] == s@[i as int + 2]);
            }
            if rem >= 4 {
                assert(suf[3] == s@[i as int + 3]);
            }
        }
        if rem >= 3 && c0 == '%' && s[i + 1] == '%' && (s[i + 2] == 'c' || s[i + 2] == 'C') {
            out.push('\u{2205}');
            i += 3;
            proof {
                assert(suf.skip(3) =~= s@.skip(i as int));
                assert(decode_codes_sp(suf, mtext) =~= seq!['\u{2205}'] + decode_codes_sp(
                    suf.skip(3),
                    mtext,
                ));
            }
        } else if rem >= 3 && c0 == '%' && s[i + 1] == '%' && (s[i + 2] == 'd' || s[i + 2] == 'D') {
            out.push('\u{00B0}');
            i += 3;
            proof {
                assert(suf.skip(3) =~= s@.skip(i as int));
                assert(decode_codes_sp(suf, mtext) =~= seq!['\u{00B0}'] + decode_codes_sp(
                    suf.skip(3),
                    mtext,
                ));
            }
        } else if rem >= 3 && c0 == '%' && s[i + 1] == '%' && (s[i + 2] == 'p' || s[i + 2] == 'P') {
            out.push('\u{00B1}');
            i += 3;
            proof {
                assert(suf.skip(3) =~= s@.skip(i as int));
                assert(decode_codes_sp(suf, mtext) =~= seq!['\u{00B1}'] + decode_codes_sp(
                    suf.skip(3),
                    mtext,
                ));
            }
        } else if rem >= 3 && c0 == '%' && s[i + 1] == '%' && s[i + 2] == '%' {
            out.push('%');
            i += 3;
            proof {
                assert(suf.skip(3) =~= s@.skip(i as int));
                assert(decode_codes_sp(suf, mtext) =~= seq!['%'] + decode_codes_sp(
                    suf.skip(3),
                    mtext,
                ));
            }
        } else if !mtext && rem >= 3 && c0 == '%' && s[i + 1] == '%' && (s[i + 2] == 'u' || s[i + 2]
            == 'o') {
            i += 3;
            proof {
                assert(suf.skip(3) =~= s@.skip(i as int));
                assert(decode_codes_sp(suf, mtext) =~= decode_codes_sp(suf.skip(3), mtext));
            }
        } else if mtext && rem >= 4 && c0 == '\\' && s[i + 1] == 'A' && (s[i + 2] == '0' || s[i + 2]
            == '1') && s[i + 3] == ';' {
            i += 4;
            proof {
                assert(suf.skip(4) =~= s@.skip(i as int));
                assert(decode_codes_sp(suf, mtext) =~= decode_codes_sp(suf.skip(4), mtext));
            }
        } else if mtext && rem >= 2 && c0 == '\\' && (s[i + 1] == 'L' || s[i + 1] == 'l' || s[i + 1]
            == 'O' || s[i + 1] == 'o' || s[i + 1] == 'S' || s[i + 1] == 's') {
            i += 2;
            proof {
                assert(suf.skip(2) =~= s@.skip(i as int));
                assert(decode_codes_sp(suf, mtext) =~= decode_codes_sp(suf.skip(2), mtext));
            }
        } else if mtext && rem >= 2 && c0 == '\\' && s[i + 1] == 'P' {
            out.push('\n');
            i += 2;
            proof {
                assert(suf.skip(2) =~= s@.skip(i as int));
                assert(decode_codes_sp(suf, mtext) =~= seq!['\n'] + decode_codes_sp(
                    suf.skip(2),
                    mtext,
                ));
            }
        } else {
            out.push(c0);
            i += 1;
            proof {
                assert(suf.skip(1) =~= s@.skip(i as int));
                assert(decode_codes_sp(suf, mtext) =~= seq![suf[0]] + decode_codes_sp(
                    suf.skip(1),
                    mtext,
                ));
            }
        }

    }
    proof {
        assert(s@.skip(s@.len() as int) =~= Seq::<char>::empty());
    }
    out
}

/// The whole source drawing, as plain values.
#[derive(Debug, Clone)]
pub struct DrawingModel {
    /// The layer table.
    pub layers: Vec<LayerRec>,
    /// The named text styles.
    pub styles: Vec<StyleRec>,
    /// The named blocks; insertions refer to them by index.
    pub blocks: Vec<BlockRec>,
    /// The entities, in drawing order.
    pub entities: Vec<EntityRec>,
}

/// Provide information about a drawing after loading it: the original
/// entity records, for on-demand detail lookup.
#[derive(Debug, Clone)]
pub struct DrawingInfo {
    /// The source entity records.
    pub entities: Vec<EntityRec>,
}

impl DrawingInfo {
    /// Get an entity of the drawing by its handle: the first record
    /// carrying it, or none when the drawing has no such record.
    pub fn get_entity(&self, eh: EntityHandle) -> (r: Option<&EntityRec>)
        ensures
            (r is Some) == (exists|j: int|
                0 <= j < self.entities@.len() && (#[trigger] self.entities@[j]).handle == eh.0),
            r is Some ==> exists|j: int|
                0 <= j < self.entities@.len() && (#[trigger] self.entities@[j]).handle == eh.0
                    && r == Some(&self.entities@[j]),
    {
        let mut j: usize = 0;
        while j < self.entities.len()
            invariant
                j <= self.entities@.len(),
                forall|t: int| 0 <= t < j ==> (#[trigger] self.entities@[t]).handle != eh.0,
            decreases self.entities@.len() - j,
        {
            if self.entities[j].handle == eh.0 {
                return Some(&self.entities[j]);
            }
            j += 1;
        }
        None
    }
}

/// One record binding an entity to its owning layer.
#[derive(Debug, Clone, Copy, PartialEq, Eq, Structural)]
pub struct EntityLayer {
    /// The entity.
    pub entity: EntityHandle,
    /// Its owning layer.
    pub layer: LayerHandle,
}

/// One record naming a layer.
#[derive(Debug, Clone)]
pub struct LayerName {
    /// The layer.
    pub handle: LayerHandle,
    /// Its name.
    pub name: String,
}

/// The assembled drawing.
#[derive(Debug)]
pub struct TDDrawing {
    /// `GraphicsBag` containing drawn items.
    pub graphics: GraphicsBag,
    /// Mapping from graphics items to entity handles, ascending by item.
    pub item_entity_map: Vec<ItemEntity>,
    /// Owning layers of the drawn entities, in drawing order, one record
    /// per entity.
    pub entity_layer_map: Vec<EntityLayer>,
    /// Render layer in drawing order.
    pub render_layer: RenderLayer,
    /// The handles of the layers that are on, in table order.
    pub enabled_layers: Vec<LayerHandle>,
    /// Layer names, in table order.
    pub layer_names: Vec<LayerName>,
    /// Drawing information object.
    pub info: DrawingInfo,
    /// Paints that need stroke widths computed relative to the view; see
    /// [`RestrokePaint`].
    pub restroke_paints: Vec<RestrokePaint>,
    /// The palette interner the assembly used: one (packed color, line
    /// weight) key per interned paint, parallel to `restroke_paints`.
    pub paints: PaintInterner,
}

/// Every item of the bag names the root transform and a registered paint.
pub open spec fn items_valid(bag: GraphicsBag) -> bool {
    forall|k: int|
        0 <= k < bag.items@.len() ==> match #[trigger] bag.items@[k] {
            GraphicsItem::FatShape(fs) => fs.transform.0 == 0 && (fs.paint.0 as int)
                < bag.palette@.len(),
            GraphicsItem::FatText(ft) => ft.transform.0 == 0 && (ft.paint.0 as int)
                < bag.palette@.len(),
        }
}

/// The drawing has a record carrying this handle that is visible and lies
/// on a known, enabled layer: only such entities are drawn.
pub open spec fn entity_admitted(layers: Seq<LayerRec>, entities: Seq<EntityRec>, eh: u64) -> bool {
    exists|j: int|
        0 <= j < entities.len() && (#[trigger] entities[j]).handle == eh && entities[j].visible
            && match entities[j].layer {
                Some(l) => l < layers.len() && layers[l as int].on,
                None => false,
            }
}

/// The record binds an admitted entity to the handle of its owning layer.
pub open spec fn entity_layer_ok(
    layers: Seq<LayerRec>,
    entities: Seq<EntityRec>,
    el: EntityLayer,
) -> bool {
    exists|j: int|
        0 <= j < entities.len() && (#[trigger] entities[j]).handle == el.entity.0
            && match entities[j].layer {
                Some(l) => l < layers.len() && layers[l as int].handle == el.layer.0,
                None => false,
            }
}

/// The assembled drawing is well-shaped: the transform table is finalized,
/// the render layer lists every item once in push order, the item-entity
/// records parallel the items, and every item names valid handles.
pub open spec fn drawing_wf(d: TDDrawing) -> bool {
    &&& d.graphics.wf()
    &&& d.graphics.finalized()
    &&& items_valid(d.graphics)
    &&& d.render_layer.indices@.len() == d.graphics.items@.len()
    &&& forall|k: int|
        0 <= k < d.render_layer.indices@.len() ==> (#[trigger] d.render_layer.indices@[k]).0 == k
    &&& d.item_entity_map@.len() == d.graphics.items@.len()
    &&& forall|k: int|
        0 <= k < d.item_entity_map@.len() ==> (#[trigger] d.item_entity_map@[k]).item.0 == k
}


/// The handles of the layers that are on, among the first `j` layers.
pub open spec fn enabled_upto(layers: Seq<LayerRec>, j: int) -> Seq<LayerHandle>
    decreases j,
{
    if j <= 0 {
        Seq::empty()
    } else {
        enabled_upto(layers, j - 1) + (if layers[j - 1].on {
            seq![LayerHandle(layers[j - 1].handle)]
        } else {
            Seq::empty()
        })
    }
}

/// Push one graphics item, record it in the render layer and in the
/// item-entity map.  Every parallel-structure property of the drawing is
/// preserved; the item must name the root transform and a registered
/// paint.
fn record_item(
    bag: &mut GraphicsBag,
    rl: &mut RenderLayer,
    iem: &mut Vec<ItemEntity>,
    item: GraphicsItem,
    eh: u64,
)
    requires
        old(bag).items@.len() < u32::MAX as int,
        old(bag).wf(),
        old(bag).finalized(),
        items_valid(*old(bag)),
        match item {
            GraphicsItem::FatShape(fs) => fs.transform.0 == 0 && (fs.paint.0 as int) < old(
                bag,
            ).palette@.len(),
            GraphicsItem::FatText(ft) => ft.transform.0 == 0 && (ft.paint.0 as int) < old(
                bag,
            ).palette@.len(),
        },
        old(rl).indices@.len() == old(bag).items@.len(),
        forall|k: int|
            0 <= k < old(rl).indices@.len() ==> (#[trigger] old(rl).indices@[k]).0 == k,
        old(iem)@.len() == old(bag).items@.len(),
        forall|k: int| 0 <= k < old(iem)@.len() ==> (#[trigger] old(iem)@[k]).item.0 == k,
    ensures
        final(bag).wf(),
        final(bag).finalized(),
        items_valid(*final(bag)),
        final(bag).items@.len() == old(bag).items@.len() + 1,
        final(bag).palette == old(bag).palette,
        final(bag).managed_transforms == old(bag).managed_transforms,
        final(bag).final_transforms == old(bag).final_transforms,
        final(rl).indices@.len() == final(bag).items@.len(),
        forall|k: int|
            0 <= k < final(rl).indices@.len() ==> (#[trigger] final(rl).indices@[k]).0 == k,
        final(iem)@.len() == final(bag).items@.len(),
        forall|k: int| 0 <= k < final(iem)@.len() ==> (#[trigger] final(iem)@[k]).item.0 == k,
        final(iem)@ =~= old(iem)@.push(
            ItemEntity {
                item: ItemHandle(old(bag).items@.len() as u32),
                entity: EntityHandle(eh),
            },
        ),
{
    let ih = rl.push_with_bag(bag, item);
    iem.push(ItemEntity { item: ih, entity: EntityHandle(eh) });
}

/// Assemble a drawing model: resolve blocks, intern paints, decode or
/// expand every visible entity on an enabled layer into graphics items,
/// and return the drawing with its back-references.  Entities that are
/// invisible, on an unknown or disabled layer, or that the codec does not
/// support are skipped, never an error; so is anything beyond the arena's
/// capacity.
#[verifier::rlimit(100)]
pub fn assemble_drawing(model: DrawingModel) -> (r: TDDrawing)
    ensures
        drawing_wf(r),
        r.info.entities@ == model.entities@,
        r.layer_names@.len() == model.layers@.len(),
        forall|k: int|
            0 <= k < model.layers@.len() ==> (#[trigger] r.layer_names@[k]).handle.0
                == model.layers@[k].handle && r.layer_names@[k].name@ == model.layers@[k].name@,
        r.enabled_layers@ =~= enabled_upto(model.layers@, model.layers@.len() as int),
        forall|k: int|
            0 <= k < r.item_entity_map@.len() ==> entity_admitted(
                model.layers@,
                model.entities@,
                (#[trigger] r.item_entity_map@[k]).entity.0,
            ),
        forall|k: int|
            0 <= k < r.entity_layer_map@.len() ==> entity_layer_ok(
                model.layers@,
                model.entities@,
                #[trigger] r.entity_layer_map@[k],
            ),
        r.paints.wf(),
        forall|k: int|
            0 <= k < r.graphics.items@.len() ==> match #[trigger] r.graphics.items@[k] {
                GraphicsItem::FatShape(fs) => fs.paint.0 == 0 || (1 <= fs.paint.0 && (
                fs.paint.0 as int) <= r.paints.handles@.len() && r.paints.handles@[fs.paint.0
                    as int - 1] == fs.paint),
                GraphicsItem::FatText(ft) => ft.paint.0 == 0 || (1 <= ft.paint.0 && (
                ft.paint.0 as int) <= r.paints.handles@.len() && r.paints.handles@[ft.paint.0
                    as int - 1] == ft.paint),
            },
        r.paints.key_weights@.len() == r.restroke_paints@.len(),
        r.paints.handles@.len() == r.restroke_paints@.len(),
        forall|k: int|
            0 <= k < r.restroke_paints@.len() ==> (#[trigger] r.restroke_paints@[k]).handle
                == r.paints.handles@[k] && r.restroke_paints@[k].weight == r.paints.key_weights@[k],
        r.restroke_paints@.len() + 1 == r.graphics.palette@.len(),
        forall|k: int|
            0 <= k < r.restroke_paints@.len() ==> (#[trigger] r.restroke_paints@[k]).handle.0 == k
                + 1,
{
    let mut gb = GraphicsBag::new();
    let mut rl = RenderLayer::new();
    let mut iem: Vec<ItemEntity> = Vec::new();
    let mut elm: Vec<EntityLayer> = Vec::new();

    // The default paint at slot zero: a black stroke with no width yet.
    let _default = gb.register_paint(
        FatPaint { stroke_width: 0, stroke_paint: Some(0x000000FF), fill_paint: None },
    );

    // Layer tables.
    let mut enabled: Vec<LayerHandle> = Vec::new();
    let mut names: Vec<LayerName> = Vec::new();
    let mut li: usize = 0;
    while li < model.layers.len()
        invariant
            li <= model.layers@.len(),
            names@.len() == li,
            forall|k: int|
                0 <= k < li ==> (#[trigger] names@[k]).handle.0 == model.layers@[k].handle
                    && names@[k].name@ == model.layers@[k].name@,
            enabled@ =~= enabled_upto(model.layers@, li as int),
        decreases model.layers@.len() - li,
    {
        let l = &model.layers[li];
        names.push(LayerName { handle: LayerHandle(l.handle), name: l.name.clone() });
        if l.on {
            enabled.push(LayerHandle(l.handle));
        }
        li += 1;
    }

    // Resolve the block library.
    let table = resolve_blocks(&model.blocks, &model.layers);

    // Walk the entities.
    let mut inter = PaintInterner::new();
    let mut ei: usize = 0;
    while ei < model.entities.len()
        invariant
            ei <= model.entities@.len(),
            gb.wf(),
            gb.finalized(),
            items_valid(gb),
            gb.palette@.len() >= 1,
            rl.indices@.len() == gb.items@.len(),
            forall|k: int| 0 <= k < rl.indices@.len() ==> (#[trigger] rl.indices@[k]).0 == k,
            iem@.len() == gb.items@.len(),
            forall|k: int| 0 <= k < iem@.len() ==> (#[trigger] iem@[k]).item.0 == k,
            inter.wf(),
            inter.handles@.len() == inter.key_colors@.len(),
            gb.palette@.len() == inter.handles@.len() + 1,
            forall|k: int|
                0 <= k < inter.handles@.len() ==> (#[trigger] inter.handles@[k]).0 == k + 1,
            forall|k: int|
                0 <= k < iem@.len() ==> entity_admitted(
                    model.layers@,
                    model.entities@,
                    (#[trigger] iem@[k]).entity.0,
                ),
            forall|k: int|
                0 <= k < elm@.len() ==> entity_layer_ok(
                    model.layers@,
                    model.entities@,
                    #[trigger] elm@[k],
                ),
            crate::blocks::table_wf(table@),
        decreases model.entities@.len() - ei,
    {
        let e = &model.entities[ei];
        let skip: bool = !e.visible || match e.layer {
            None => true,
            Some(l) => l >= model.layers.len() || !model.layers[l].on,
        };
        if !skip && inter.key_colors.len() < (u32::MAX as usize) - 1 {
            let l = match e.layer {
                Some(l) => l,
                None => 0,
            };
            let lh = LayerHandle(model.layers[l].handle);
            let lcolor_idx = model.layers[l].color_index;
            let lraw = model.layers[l].raw_line_weight;
            let color = resolve_color(e.color_code, lcolor_idx, e.color24, e.transparency);
            let weight = resolve_line_weight(e.lineweight, lraw);
            let ghost pre_keys = inter.key_colors@;
            let ghost pre_ws = inter.key_weights@;
            let entity_paint = inter.intern(&mut gb, color, weight);
            proof {
                if crate::style::find_from(pre_keys, pre_ws, color, weight, 0) >= 0 {
                    crate::style::lemma_find_from_range(pre_keys, pre_ws, color, weight, 0);
                }
                assert((entity_paint.0 as int) < gb.palette@.len());
                assert(model.entities@[ei as int] == *e);
                assert(entity_admitted(model.layers@, model.entities@, e.handle));
                assert(entity_layer_ok(
                    model.layers@,
                    model.entities@,
                    (EntityLayer { entity: EntityHandle(e.handle), layer: lh }),
                ));
            }
            let mut recorded = false;
            match &e.kind {
                EntityKind::Insert(ins) => {
                    if ins.extrusion_z == FX_ONE {
                        match ins.block {
                            Some(bj) => {
                                if bj < table.len() {
                                    match &table[bj] {
                                        Some(target) => {
                                            proof {
                                                assert(forall|t: int|
                                                    0 <= t < target@.len() ==> (
                                                    #[trigger] target@[t]).path.wf());
                                            }
                                            // Every chunk of the block, under every
                                            // array cell's transform, with by-block
                                            // styles substituted from this insertion.
                                            let mut expanded = expand_insert(
                                                target,
                                                ins,
                                                e.lineweight,
                                                e.color_code,
                                            );
                                            while expanded.len() > 0
                                                invariant
                                                    forall|t: int|
                                                        0 <= t < expanded@.len() ==> (
                                                        #[trigger] expanded@[t]).path.wf(),
                                                    gb.wf(),
                                                    gb.finalized(),
                                                    items_valid(gb),
                                                    gb.palette@.len() >= 1,
                                                    rl.indices@.len() == gb.items@.len(),
                                                    forall|k: int|
                                                        0 <= k < rl.indices@.len() ==> (
                                                        #[trigger] rl.indices@[k]).0 == k,
                                                    iem@.len() == gb.items@.len(),
                                                    forall|k: int|
                                                        0 <= k < iem@.len() ==> (
                                                        #[trigger] iem@[k]).item.0 == k,
                                                    inter.wf(),
                                                    inter.handles@.len()
                                                        == inter.key_colors@.len(),
                                                    gb.palette@.len() == inter.handles@.len()
                                                        + 1,
                                                    forall|k: int|
                                                        0 <= k < inter.handles@.len() ==> (
                                                        #[trigger] inter.handles@[k]).0 == k + 1,
                                                    entity_admitted(
                                                        model.layers@,
                                                        model.entities@,
                                                        e.handle,
                                                    ),
                                                    forall|k: int|
                                                        0 <= k < iem@.len() ==> entity_admitted(
                                                            model.layers@,
                                                            model.entities@,
                                                            (#[trigger] iem@[k]).entity.0,
                                                        ),
                                                decreases expanded@.len(),
                                            {
                                                let ghost exp_before = expanded@;
                                                let ch = expanded.remove(0);
                                                proof {
                                                    assert(ch == exp_before[0]);
                                                    assert(expanded@ =~= exp_before.remove(0));
                                                    assert forall|t: int|
                                                        0 <= t < expanded@.len() implies (
                                                    #[trigger] expanded@[t]).path.wf() by {
                                                        assert(expanded@[t] == exp_before[t + 1]);
                                                    }
                                                }
                                                if inter.key_colors.len() < (u32::MAX as usize)
                                                    - 1 && gb.items.len() < (u32::MAX as usize) {
                                                    let ccolor = resolve_color(
                                                        ch.color,
                                                        lcolor_idx,
                                                        e.color24,
                                                        e.transparency,
                                                    );
                                                    let cweight = resolve_line_weight(
                                                        ch.lw,
                                                        lraw,
                                                    );
                                                    let ghost ck = inter.key_colors@;
                                                    let ghost cw = inter.key_weights@;
                                                    let chunk_paint = inter.intern(
                                                        &mut gb,
                                                        ccolor,
                                                        cweight,
                                                    );
                                                    proof {
                                                        if crate::style::find_from(
                                                            ck,
                                                            cw,
                                                            ccolor,
                                                            cweight,
                                                            0,
                                                        ) >= 0 {
                                                            crate::style::lemma_find_from_range(
                                                                ck,
                                                                cw,
                                                                ccolor,
                                                                cweight,
                                                                0,
                                                            );
                                                        }
                                                        assert((chunk_paint.0 as int)
                                                            < gb.palette@.len());
                                                    }
                                                    record_item(
                                                        &mut gb,
                                                        &mut rl,
                                                        &mut iem,
                                                        GraphicsItem::FatShape(
                                                            FatShape {
                                                                transform:
                                                                    TransformHandle::root(),
                                                                paint: chunk_paint,
                                                                path: ch.path,
                                                            },
                                                        ),
                                                        e.handle,
                                                    );
                                                    recorded = true;
                                                }
                                            }
                                        },
                                        None => {
                                        },
                                    }
                                }
                            },
                            None => {
                            },
                        }
                    }
                },
                EntityKind::MText(mt) => {
                    if mt.extrusion_z == FX_ONE && gb.items.len() < (u32::MAX as usize) {
                        let decoded = decode_text_codes(&mt.text, true);
                        let ap = match AttachmentPoint::from_code(mt.attachment_code) {
                            Some(a) => a,
                            None => AttachmentPoint::TopLeft,
                        };
                        let alignment = alignment_for_attachment(ap);
                        let is_middle = match alignment {
                            TextAlignment::Middle => true,
                            _ => false,
                        };
                        let max_inline: Option<i64> = if is_middle {
                            None
                        } else if mt.column_type == 0 {
                            if mt.reference_rect_width != 0 {
                                Some(mt.reference_rect_width)
                            } else {
                                None
                            }
                        } else if mt.column_type == 1 {
                            if mt.column_width != 0 {
                                Some(mt.column_width)
                            } else {
                                None
                            }
                        } else {
                            None
                        };
                        let style = match mt.style {
                            Some(si) => {
                                if si < model.styles.len() {
                                    let ts = text_style_from_rec(&model.styles[si]);
                                    if ts.size_is_zero() {
                                        ts.with_size(mt.initial_height)
                                    } else {
                                        ts
                                    }
                                } else {
                                    TextStyle::plain(mt.initial_height)
                                }
                            },
                            None => TextStyle::plain(mt.initial_height),
                        };
                        let angle = sat_add(sat_neg(mt.rotation_deg), mt.x_axis_deg);
                        let insertion = DirectIsometry::new(
                            angle,
                            point_from_dxf_point(mt.insertion),
                        );
                        record_item(
                            &mut gb,
                            &mut rl,
                            &mut iem,
                            GraphicsItem::FatText(
                                FatText {
                                    transform: TransformHandle::root(),
                                    paint: entity_paint,
                                    text: decoded,
                                    style,
                                    alignment,
                                    max_inline_size: max_inline,
                                    insertion,
                                    attachment_point: ap,
                                },
                            ),
                            e.handle,
                        );
                        recorded = true;
                    }
                },
                EntityKind::Text(t) => {
                    if t.normal_z == FX_ONE && gb.items.len() < (u32::MAX as usize) {
                        let decoded = decode_text_codes(&t.value, false);
                        let style = match t.style {
                            Some(si) => {
                                if si < model.styles.len() {
                                    let ts = text_style_from_rec(&model.styles[si]);
                                    let sized = if ts.size_is_zero() {
                                        ts.with_size(t.height)
                                    } else {
                                        ts
                                    };
                                    if t.oblique_deg != 0 {
                                        TextStyle { oblique_deg: t.oblique_deg, ..sized }
                                    } else {
                                        sized
                                    }
                                } else {
                                    TextStyle::plain(t.height)
                                }
                            },
                            None => TextStyle::plain(t.height),
                        };
                        let insertion = DirectIsometry::new(
                            sat_neg(t.rotation_deg),
                            point_from_dxf_point(t.location),
                        );
                        record_item(
                            &mut gb,
                            &mut rl,
                            &mut iem,
                            GraphicsItem::FatText(
                                FatText {
                                    transform: TransformHandle::root(),
                                    paint: entity_paint,
                                    text: decoded,
                                    style,
                                    alignment: TextAlignment::Left,
                                    max_inline_size: None,
                                    insertion,
                                    attachment_point: AttachmentPoint::TopLeft,
                                },
                            ),
                            e.handle,
                        );
                        recorded = true;
                    }
                },
                _ => {
                    match path_from_entity(e) {
                        Some(p) => {
                            if gb.items.len() < (u32::MAX as usize) {
                                record_item(
                                    &mut gb,
                                    &mut rl,
                                    &mut iem,
                                    GraphicsItem::FatShape(
                                        FatShape {
                                            transform: TransformHandle::root(),
                                            paint: entity_paint,
                                            path: p,
                                        },
                                    ),
                                    e.handle,
                                );
                                recorded = true;
                            }
                        },
                        None => {
                        },
                    }
                },
            }
            if recorded {
                elm.push(EntityLayer { entity: EntityHandle(e.handle), layer: lh });
            }
        }
        ei += 1;
    }

    // One restroke binding per interned paint, in registration order.
    let mut restrokes: Vec<RestrokePaint> = Vec::new();
    let mut ri: usize = 0;
    while ri < inter.handles.len()
        invariant
            ri <= inter.handles@.len(),
            inter.key_weights@.len() == inter.key_colors@.len(),
            inter.handles@.len() == inter.key_colors@.len(),
            forall|k: int|
                0 <= k < inter.handles@.len() ==> (#[trigger] inter.handles@[k]).0 == k + 1,
            restrokes@.len() == ri,
            forall|k: int|
                0 <= k < ri ==> (#[trigger] restrokes@[k]).handle == inter.handles@[k]
                    && restrokes@[k].weight == inter.key_weights@[k],
        decreases inter.handles@.len() - ri,
    {
        restrokes.push(RestrokePaint { weight: inter.key_weights[ri], handle: inter.handles[ri] });
        ri += 1;
    }
    proof {
        assert(restrokes@.len() + 1 == gb.palette@.len());
    }

    TDDrawing {
        graphics: gb,
        item_entity_map: iem,
        entity_layer_map: elm,
        render_layer: rl,
        enabled_layers: enabled,
        layer_names: names,
        info: DrawingInfo { entities: model.entities },
        restroke_paints: restrokes,
        paints: inter,
    }
}

} // verus!