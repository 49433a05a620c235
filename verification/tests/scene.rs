//! Scene graph: transform hierarchy, batch updates, palette interning and
//! shared-paint updates.

use tabulon::FX_ONE;
use tabulon::{Affine, GraphicsBag, TransformHandle};
use tabulon::geom::Point;
use tabulon::shape::FatPaint;
use tabulon::style::{PaintInterner, RestrokePaint};

fn translate(x: i64, y: i64) -> Affine {
    Affine::translate(Point { x, y })
}

#[test]
fn world_transform_is_parent_world_times_local() {
    let mut bag = GraphicsBag::new();
    // A five-deep chain of unit translations.
    let mut parent = TransformHandle::root();
    let mut handles = vec![parent];
    for _ in 0..5 {
        let h = bag.register_transform(parent, translate(FX_ONE, 0));
        handles.push(h);
        parent = h;
    }
    // The leaf sits five units right of the root.
    let leaf = bag.get_transform(handles[5]);
    assert_eq!(leaf.e, 5 * FX_ONE);
    assert_eq!(leaf.f, 0);
    // Every node's world transform is its parent's world times its local.
    for d in 1..=5usize {
        let w = bag.get_transform(handles[d]);
        let pw = bag.get_transform(handles[d - 1]);
        let composed = pw.mul(translate(FX_ONE, 0));
        assert_eq!(w, composed);
    }
}

#[test]
fn single_update_rederives_descendants() {
    let mut bag = GraphicsBag::new();
    let a = bag.register_transform(TransformHandle::root(), translate(FX_ONE, 0));
    let b = bag.register_transform(a, translate(0, FX_ONE));
    bag.update_transform(a, translate(10 * FX_ONE, 0));
    let wb = bag.get_transform(b);
    assert_eq!(wb.e, 10 * FX_ONE);
    assert_eq!(wb.f, FX_ONE);
    // Updating the root reaches everything.
    bag.update_transform(TransformHandle::root(), translate(0, 7 * FX_ONE));
    let wb2 = bag.get_transform(b);
    assert_eq!(wb2.e, 10 * FX_ONE);
    assert_eq!(wb2.f, 8 * FX_ONE);
}

#[test]
fn batch_update_equals_sequential_updates() {
    let build = || {
        let mut bag = GraphicsBag::new();
        let a = bag.register_transform(TransformHandle::root(), translate(FX_ONE, 0));
        let b = bag.register_transform(a, translate(0, FX_ONE));
        let c = bag.register_transform(b, translate(FX_ONE, FX_ONE));
        (bag, a, b, c)
    };
    let (mut seq_bag, a1, b1, c1) = build();
    seq_bag.update_transform(a1, translate(2 * FX_ONE, 0));
    seq_bag.update_transform(c1, translate(0, 3 * FX_ONE));
    let (mut batch_bag, a2, b2, c2) = build();
    let pairs = vec![(a2, translate(2 * FX_ONE, 0)), (c2, translate(0, 3 * FX_ONE))];
    batch_bag.update_transforms(&pairs);
    for (h1, h2) in [(a1, a2), (b1, b2), (c1, c2)] {
        assert_eq!(seq_bag.get_transform(h1), batch_bag.get_transform(h2));
    }
    // The root included in a batch re-derives from slot zero.
    let root_pairs = vec![(TransformHandle::root(), translate(0, FX_ONE)), (a2, translate(
        5 * FX_ONE,
        0,
    ))];
    batch_bag.update_transforms(&root_pairs);
    let wa = batch_bag.get_transform(a2);
    assert_eq!(wa.e, 5 * FX_ONE);
    assert_eq!(wa.f, FX_ONE);
}

#[test]
fn empty_batch_changes_nothing() {
    let mut bag = GraphicsBag::new();
    let a = bag.register_transform(TransformHandle::root(), translate(FX_ONE, FX_ONE));
    let before = bag.get_transform(a);
    let pairs: Vec<(TransformHandle, Affine)> = vec![];
    bag.update_transforms(&pairs);
    assert_eq!(bag.get_transform(a), before);
}

#[test]
fn interning_identical_pairs_yields_one_handle() {
    let mut bag = GraphicsBag::new();
    let mut inter = PaintInterner::new();
    let h1 = inter.intern(&mut bag, 0xFF0000FF, 2_250_000);
    let h2 = inter.intern(&mut bag, 0xFF0000FF, 2_250_000);
    let h3 = inter.intern(&mut bag, 0x00FF00FF, 2_250_000);
    assert_eq!(h1, h2);
    assert_ne!(h1, h3);
    assert_eq!(bag.get_paint(h1).stroke_paint, Some(0xFF0000FF));
    assert_eq!(bag.get_paint(h3).stroke_paint, Some(0x00FF00FF));
}

#[test]
fn updating_a_shared_paint_is_visible_through_every_reference() {
    let mut bag = GraphicsBag::new();
    let shared = bag.register_paint(FatPaint {
        stroke_width: 0,
        stroke_paint: Some(0x112233FF),
        fill_paint: None,
    });
    let other = bag.register_paint(FatPaint {
        stroke_width: 0,
        stroke_paint: Some(0x445566FF),
        fill_paint: None,
    });
    // A zoom-driven restroke: weight 2250000 iota over a 9000-iota pitch is
    // 250 device units; clamped to the maximum of 4, over a view scale of 2
    // that is a 2-unit stroke.
    let rp = RestrokePaint::new(2_250_000, shared);
    rp.adapt(&mut bag, 9_000, 2 * FX_ONE, FX_ONE, 4 * FX_ONE);
    assert_eq!(bag.get_paint(shared).stroke_width, 2 * FX_ONE);
    assert_eq!(bag.get_paint(shared).stroke_paint, Some(0x112233FF));
    assert_eq!(bag.get_paint(other).stroke_width, 0);
    // A second reference to the same handle sees the same paint.
    assert_eq!(bag.get_paint(shared).stroke_width, 2 * FX_ONE);
}

#[test]
fn restroke_clamps_to_the_minimum_stroke() {
    let mut bag = GraphicsBag::new();
    let h = bag.register_paint(FatPaint {
        stroke_width: 0,
        stroke_paint: Some(0xFFFFFFFF),
        fill_paint: None,
    });
    // A zero weight clamps up to the minimum stroke of one device unit.
    let rp = RestrokePaint::new(0, h);
    rp.adapt(&mut bag, 9_000, FX_ONE, FX_ONE, 100 * FX_ONE);
    assert_eq!(bag.get_paint(h).stroke_width, FX_ONE);
}
