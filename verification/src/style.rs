//! Style resolution: concrete colors and line weights from the drawing's
//! style enumerations, and an interned paint palette.
//!
//! Color codes follow the drawing format's sentinels: 256 inherits from the
//! owning layer, 257 uses the entity's literal 24-bit color, 0 inherits from
//! the instantiating block insertion, 1 through 255 name indexed palette
//! entries; anything else is unresolvable and falls back to opaque white.
//! Line weights are physical lengths in iota (see [`micrometer`]); the
//! sentinels -2 (by layer), -1 (by block, invalid at entity level) and -3
//! (default) and any out-of-range value resolve against the layer default or
//! the fixed default.

use vstd::prelude::*;
use crate::fx::{clamp64, fxd, fx_div, FX_ONE};
use crate::graphics::{GraphicsBag, PaintHandle};
use crate::shape::FatPaint;

verus! {

/// The by-layer color sentinel.
pub const COLOR_BY_LAYER: i16 = 256;

/// The by-entity color sentinel.
pub const COLOR_BY_ENTITY: i16 = 257;

/// The by-block color sentinel.
pub const COLOR_BY_BLOCK: i16 = 0;

/// Relies on `joto_constants::length::u64::MICROMETER`: one micrometer is 9000 iota
/// (an iota is one ninth of a nanometer).
#[verifier::external_body]
pub fn micrometer() -> (r: u64)
    ensures
        r == 9000,
{
    joto_constants::length::u64::MICROMETER
}

/// The default line weight: a quarter millimeter, in iota.
pub open spec fn lw_default() -> int {
    2250000
}

/// The color code recovered from the format's color field, given what its
/// accessors report: 256 by layer, 257 by entity, 0 by block, the palette
/// index when one is set, and -1 otherwise.
pub open spec fn color_code_sp(
    by_layer: bool,
    by_entity: bool,
    by_block: bool,
    index: Option<u8>,
) -> int {
    if by_layer {
        256
    } else if by_entity {
        257
    } else if by_block {
        0
    } else {
        match index {
            Some(i) => i as int,
            None => -1,
        }
    }
}

/// Recover the color code from the accessor results of a drawing color
/// field.
pub fn color_code_from_flags(by_layer: bool, by_entity: bool, by_block: bool, index: Option<u8>)
    -> (r: i16)
    ensures
        r as int == color_code_sp(by_layer, by_entity, by_block, index),
{
    if by_layer {
        256
    } else if by_entity {
        257
    } else if by_block {
        0
    } else {
        match index {
            Some(i) => i as i16,
            None => -1,
        }
    }
}

/// The indexed palette: the nine named base colors, the grayscale tail, and
/// opaque white for every other index.
pub open spec fn aci_sp(i: int) -> int {
    if i == 1 {
        0xFF0000
    } else if i == 2 {
        0xFFFF00
    } else if i == 3 {
        0x00FF00
    } else if i == 4 {
        0x00FFFF
    } else if i == 5 {
        0x0000FF
    } else if i == 6 {
        0xFF00FF
    } else if i == 7 {
        0xFFFFFF
    } else if i == 8 {
        0x808080
    } else if i == 9 {
        0xC0C0C0
    } else if i == 250 {
        0x333333
    } else if i == 251 {
        0x505050
    } else if i == 252 {
        0x696969
    } else if i == 253 {
        0x828282
    } else if i == 254 {
        0xBEBEBE
    } else if i == 255 {
        0xFFFFFF
    } else {
        0xFFFFFF
    }
}

/// Look up an indexed palette color, `0xRRGGBB`.
pub fn aci_color(i: i16) -> (r: u32)
    ensures
        r as int == aci_sp(i as int),
{
    match i {
        1 => 0xFF0000,
        2 => 0xFFFF00,
        3 => 0x00FF00,
        4 => 0x00FFFF,
        5 => 0x0000FF,
        6 => 0xFF00FF,
        7 => 0xFFFFFF,
        8 => 0x808080,
        9 => 0xC0C0C0,
        250 => 0x333333,
        251 => 0x505050,
        252 => 0x696969,
        253 => 0x828282,
        254 => 0xBEBEBE,
        255 => 0xFFFFFF,
        _ => 0xFFFFFF,
    }
}

/// The opaque color of an entity: its literal color when by-entity, the
/// layer's indexed color when by-layer (opaque white when the layer has no
/// resolvable color), an indexed color for 1 through 255, and opaque white
/// for every other code.
pub open spec fn opaque_color_sp(code: int, layer_index: Option<u8>, color24: u32) -> int {
    if code == 257 {
        color24 as int
    } else if code == 256 {
        match layer_index {
            Some(i) => aci_sp(i as int),
            None => u32::MAX as int,
        }
    } else if 1 <= code <= 255 {
        aci_sp(code)
    } else {
        u32::MAX as int
    }
}

/// The packed `0xRRGGBBAA` color: the opaque color's low three bytes over
/// the alpha derived from the transparency byte.
pub open spec fn combined_color_sp(
    code: int,
    layer_index: Option<u8>,
    color24: u32,
    transparency: u32,
) -> int {
    (opaque_color_sp(code, layer_index, color24) % 0x1000000) * 256 + (255 - (transparency as int)
        % 256)
}

/// Resolve an entity's packed color.
pub fn resolve_color(code: i16, layer_index: Option<u8>, color24: u32, transparency: u32) -> (r:
    u32)
    ensures
        r as int == combined_color_sp(code as int, layer_index, color24, transparency),
{
    let opaque: u32 = if code == 257 {
        color24
    } else if code == 256 {
        match layer_index {
            Some(i) => aci_color(i as i16),
            None => u32::MAX,
        }
    } else if 1 <= code && code <= 255 {
        aci_color(code)
    } else {
        u32::MAX
    };
    let alpha: u32 = 255 - (transparency % 256);
    (opaque % 0x1000000) * 256 + alpha
}

/// The concrete line weight in iota: the explicit weight when non-negative,
/// the layer's weight when by-layer (falling back to the default when the
/// layer has none), and the default for by-block, the default sentinel and
/// every out-of-range value.
pub open spec fn line_weight_sp(lw: int, layer_raw: int) -> int {
    if lw >= 0 {
        lw * 90000
    } else if lw == -2 {
        if layer_raw <= 0 {
            lw_default()
        } else {
            layer_raw * 90000
        }
    } else {
        lw_default()
    }
}

/// Resolve an entity's concrete line weight against its layer's raw weight.
pub fn resolve_line_weight(lw: i16, layer_raw: i16) -> (r: u64)
    ensures
        r as int == line_weight_sp(lw as int, layer_raw as int),
{
    let um = micrometer();
    if lw >= 0 {
        (lw as u64) * 10 * um
    } else if lw == -2 {
        if layer_raw <= 0 {
            250 * um
        } else {
            (layer_raw as u64) * 10 * um
        }
    } else {
        250 * um
    }
}

/// First index at or after `i` holding the (color, weight) key, or -1.
pub open spec fn find_from(cs: Seq<u32>, ws: Seq<u64>, c: u32, w: u64, i: int) -> int
    decreases cs.len() - i,
{
    if i < 0 || i >= cs.len() || cs.len() != ws.len() {
        -1
    } else if cs[i] == c && ws[i] == w {
        i
    } else {
        find_from(cs, ws, c, w, i + 1)
    }
}

/// A found key's index lies within the list.
pub proof fn lemma_find_from_range(cs: Seq<u32>, ws: Seq<u64>, c: u32, w: u64, i: int)
    requires
        0 <= i,
        find_from(cs, ws, c, w, i) >= 0,
    ensures
        i <= find_from(cs, ws, c, w, i) < cs.len(),
    decreases cs.len() - i,
{
    if !(i >= cs.len() || cs.len() != ws.len()) && !(cs[i] == c && ws[i] == w) {
        lemma_find_from_range(cs, ws, c, w, i + 1);
    }
}

/// A missing key is missing at every later index.
pub proof fn lemma_find_from_none(cs: Seq<u32>, ws: Seq<u64>, c: u32, w: u64, i: int, j: int)
    requires
        cs.len() == ws.len(),
        find_from(cs, ws, c, w, i) == -1,
        i <= j < cs.len(),
        0 <= i,
    ensures
        !(cs[j] == c && ws[j] == w),
    decreases j - i,
{
    if i < j {
        lemma_find_from_none(cs, ws, c, w, i + 1, j);
    }
}

/// Pushing a missing key puts its first occurrence at the end.
pub proof fn lemma_find_from_push(cs: Seq<u32>, ws: Seq<u64>, c: u32, w: u64, i: int)
    requires
        cs.len() == ws.len(),
        0 <= i <= cs.len(),
        forall|j: int| i <= j < cs.len() ==> !((#[trigger] cs[j]) == c && ws[j] == w),
    ensures
        find_from(cs.push(c), ws.push(w), c, w, i) == cs.len(),
    decreases cs.len() - i,
{
    if i < cs.len() {
        lemma_find_from_push(cs, ws, c, w, i + 1);
    }
}

/// The shared paint palette index: one handle per distinct (packed color,
/// line weight) pair.
#[derive(Debug)]
pub struct PaintInterner {
    /// The packed colors of the keys, in registration order.
    pub key_colors: Vec<u32>,
    /// The line weights of the keys, parallel to `key_colors`.
    pub key_weights: Vec<u64>,
    /// The handle registered for each key, parallel to `key_colors`.
    pub handles: Vec<PaintHandle>,
}

impl PaintInterner {
    /// The three lists are parallel and the (color, weight) keys are
    /// distinct.
    pub open spec fn wf(self) -> bool {
        &&& self.key_colors@.len() == self.key_weights@.len()
        &&& self.key_colors@.len() == self.handles@.len()
        &&& forall|i: int, j: int|
            0 <= i < j < self.key_colors@.len() ==> !((#[trigger] self.key_colors@[i])
                == (#[trigger] self.key_colors@[j]) && self.key_weights@[i]
                == self.key_weights@[j])
    }

    /// An empty interner.
    pub fn new() -> (r: PaintInterner)
        ensures
            r.wf(),
            r.key_colors@.len() == 0,
    {
        PaintInterner { key_colors: Vec::new(), key_weights: Vec::new(), handles: Vec::new() }
    }

    /// Intern a (packed color, line weight) pair: return the existing handle
    /// for an identical pair, or register a fresh paint carrying the color
    /// as its stroke, no fill and no stroke width yet, and return its new
    /// handle.  Interning the same pair twice yields the same handle.
    pub fn intern(&mut self, bag: &mut GraphicsBag, color: u32, weight: u64) -> (r: PaintHandle)
        requires
            old(self).wf(),
            old(bag).palette@.len() < u32::MAX as int,
        ensures
            final(self).wf(),
            ({
                let f = find_from(old(self).key_colors@, old(self).key_weights@, color, weight, 0);
                if f >= 0 {
                    &&& r == old(self).handles@[f]
                    &&& final(self).key_colors@ =~= old(self).key_colors@
                    &&& final(self).key_weights@ =~= old(self).key_weights@
                    &&& final(self).handles@ =~= old(self).handles@
                    &&& final(bag).palette@ =~= old(bag).palette@
                } else {
                    &&& r.0 as int == old(bag).palette@.len()
                    &&& final(self).key_colors@ =~= old(self).key_colors@.push(color)
                    &&& final(self).key_weights@ =~= old(self).key_weights@.push(weight)
                    &&& final(self).handles@ =~= old(self).handles@.push(r)
                    &&& final(bag).palette@ =~= old(bag).palette@.push(
                        FatPaint { stroke_width: 0, stroke_paint: Some(color), fill_paint: None },
                    )
                    &&& find_from(final(self).key_colors@, final(self).key_weights@, color, weight, 0)
                        == old(self).key_colors@.len()
                }
            }),
            final(bag).items == old(bag).items,
            final(bag).final_transforms == old(bag).final_transforms,
            final(bag).managed_transforms == old(bag).managed_transforms,
    {
        let mut i: usize = 0;
        while i < self.key_colors.len()
            invariant
                i <= self.key_colors@.len(),
                self.wf(),
                forall|j: int|
                    0 <= j < i ==> !((#[trigger] self.key_colors@[j]) == color
                        && self.key_weights@[j] == weight),
            decreases self.key_colors@.len() - i,
        {
            if self.key_colors[i] == color && self.key_weights[i] == weight {
                proof {
                    lemma_find_first_is(
                        self.key_colors@,
                        self.key_weights@,
                        color,
                        weight,
                        0,
                        i as int,
                    );
                }
                return self.handles[i];
            }
            i += 1;
        }
        proof {
            lemma_find_none_whole(self.key_colors@, self.key_weights@, color, weight, 0);
        }
        let paint = FatPaint { stroke_width: 0, stroke_paint: Some(color), fill_paint: None };
        let h = bag.register_paint(paint);
        self.key_colors.push(color);
        self.key_weights.push(weight);
        self.handles.push(h);
        proof {
            assert forall|j: int| 0 <= j < old(self).key_colors@.len() implies !((
            #[trigger] old(self).key_colors@[j]) == color && old(self).key_weights@[j] == weight)
                by {
                lemma_find_from_none(
                    old(self).key_colors@,
                    old(self).key_weights@,
                    color,
                    weight,
                    0,
                    j,
                );
            }
            lemma_find_from_push(old(self).key_colors@, old(self).key_weights@, color, weight, 0);
        }
        h
    }
}

/// When every index before `f` misses the key and `f` holds it, `f` is the
/// first occurrence.
proof fn lemma_find_first_is(cs: Seq<u32>, ws: Seq<u64>, c: u32, w: u64, i: int, f: int)
    requires
        cs.len() == ws.len(),
        0 <= i <= f < cs.len(),
        cs[f] == c && ws[f] == w,
        forall|j: int| i <= j < f ==> !((#[trigger] cs[j]) == c && ws[j] == w),
    ensures
        find_from(cs, ws, c, w, i) == f,
    decreases f - i,
{
    if i < f {
        lemma_find_first_is(cs, ws, c, w, i + 1, f);
    }
}

/// When every index misses the key, the search misses.
proof fn lemma_find_none_whole(cs: Seq<u32>, ws: Seq<u64>, c: u32, w: u64, i: int)
    requires
        cs.len() == ws.len(),
        0 <= i,
        forall|j: int| i <= j < cs.len() ==> !((#[trigger] cs[j]) == c && ws[j] == w),
    ensures
        find_from(cs, ws, c, w, i) == -1,
    decreases cs.len() - i,
{
    if i < cs.len() {
        lemma_find_none_whole(cs, ws, c, w, i + 1);
    }
}

/// Interning two paints with identical (color, weight) pairs yields the
/// same handle: once a pair was interned at some index, a later intern of
/// the same pair finds that index and returns the handle stored there,
/// changing neither the interner nor the palette.
pub proof fn lemma_intern_idempotent(cs: Seq<u32>, ws: Seq<u64>, c: u32, w: u64)
    requires
        cs.len() == ws.len(),
        find_from(cs, ws, c, w, 0) == -1,
    ensures
        find_from(cs.push(c), ws.push(w), c, w, 0) == cs.len(),
{
    assert forall|j: int| 0 <= j < cs.len() implies !((#[trigger] cs[j]) == c && ws[j] == w) by {
        lemma_find_from_none(cs, ws, c, w, 0, j);
    }
    lemma_find_from_push(cs, ws, c, w, 0);
}

/// Adapt line weights to [`FatPaint`] strokes for rendering.
///
/// The stored weight is a physical length in iota; at adaptation time it is
/// divided by the device pixel pitch, clamped between the given minimum and
/// maximum stroke widths, and divided by the view scale, because stroke
/// widths live in view space.
#[derive(Debug, Clone, Copy, PartialEq, Eq, Structural)]
pub struct RestrokePaint {
    /// Physical line weight in iota.
    pub weight: u64,
    /// The target paint handle.
    pub handle: PaintHandle,
}

/// The adapted stroke width: the weight over the pitch, clamped, over the
/// view scale.
pub open spec fn restroke_width_sp(
    weight: u64,
    pitch: u64,
    view_scale: int,
    min_stroke: int,
    max_stroke: int,
) -> int {
    let ratio = clamp64((weight as int) * (FX_ONE as int) / (pitch as int));
    let clamped = if ratio < min_stroke {
        min_stroke
    } else if ratio > max_stroke {
        max_stroke
    } else {
        ratio
    };
    fxd(clamped, view_scale)
}

impl RestrokePaint {
    /// A binding of a physical weight to the paint handle it adapts.
    pub fn new(weight: u64, handle: PaintHandle) -> (r: RestrokePaint)
        ensures
            r.weight == weight,
            r.handle == handle,
    {
        RestrokePaint { weight, handle }
    }

    /// Adapt this binding's paint to the device: replace its stroke width by
    /// the adapted width, keeping its brushes.
    pub fn adapt(
        &self,
        graphics: &mut GraphicsBag,
        pitch: u64,
        view_scale: i64,
        min_stroke: i64,
        max_stroke: i64,
    )
        requires
            (self.handle.0 as int) < old(graphics).palette@.len(),
            pitch > 0,
            min_stroke <= max_stroke,
        ensures
            final(graphics).palette@.len() == old(graphics).palette@.len(),
            ({
                let p = final(graphics).palette@[self.handle.0 as int];
                let q = old(graphics).palette@[self.handle.0 as int];
                &&& p.stroke_width as int == restroke_width_sp(
                    self.weight,
                    pitch,
                    view_scale as int,
                    min_stroke as int,
                    max_stroke as int,
                )
                &&& p.stroke_paint == q.stroke_paint
                &&& p.fill_paint == q.fill_paint
            }),
            forall|i: int|
                0 <= i < old(graphics).palette@.len() && i != self.handle.0 as int ==> (
                #[trigger] final(graphics).palette@[i]) == old(graphics).palette@[i],
            final(graphics).items == old(graphics).items,
            final(graphics).final_transforms == old(graphics).final_transforms,
            final(graphics).managed_transforms == old(graphics).managed_transforms,
    {
        let num: u128 = (self.weight as u128) * (FX_ONE as u128);
        let ratio128: u128 = num / (pitch as u128);
        let ratio: i64 = if ratio128 > i64::MAX as u128 {
            i64::MAX
        } else {
            ratio128 as i64
        };
        let clamped: i64 = if ratio < min_stroke {
            min_stroke
        } else if ratio > max_stroke {
            max_stroke
        } else {
            ratio
        };
        let sw = fx_div(clamped, view_scale);
        let old_paint = graphics.get_paint(self.handle);
        let stroke_paint = old_paint.stroke_paint;
        let fill_paint = old_paint.fill_paint;
        graphics.update_paint(
            self.handle,
            FatPaint { stroke_width: sw, stroke_paint, fill_paint },
        );
    }
}

} // verus!
