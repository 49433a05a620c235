//! End-to-end drawing assembly, culling, picking, style fallback and
//! shared-paint adaptation.

use tabulon::FX_ONE;
use tabulon::{GraphicsItem, PaintHandle};
use tabulon::assembly::{assemble_drawing, decode_text_codes, DrawingModel};
use tabulon::blocks::{BlockRec, LayerRec};
use tabulon::codec::{path_from_entity, EntityKind, EntityRec, InsertRec, MTextRec, RawPoint};
use tabulon::geom::{Point, Rect, Size};
use tabulon::index::{EntityHandle, EntityIndex};
use tabulon::path::PathEl;
use tabulon::style::{micrometer, resolve_line_weight, RestrokePaint};
use tabulon::text::{AttachmentPoint, TextAlignment};

fn layer0() -> LayerRec {
    LayerRec {
        handle: 16,
        name: String::from("0"),
        on: true,
        color_index: Some(7),
        raw_line_weight: -3,
    }
}

fn entity(handle: u64, kind: EntityKind) -> EntityRec {
    EntityRec {
        handle,
        layer: Some(0),
        color_code: 7,
        color24: 0,
        transparency: 0,
        lineweight: -3,
        visible: true,
        kind,
    }
}

fn line_kind(x0: i64, y0: i64, x1: i64, y1: i64) -> EntityKind {
    EntityKind::Line {
        p1: RawPoint { x: x0, y: y0 },
        p2: RawPoint { x: x1, y: y1 },
        extrusion_z: FX_ONE,
    }
}

fn one_line_model() -> DrawingModel {
    DrawingModel {
        layers: vec![layer0()],
        styles: vec![],
        blocks: vec![],
        entities: vec![entity(1, line_kind(0, 0, 10 * FX_ONE, 0))],
    }
}

#[test]
fn line_decodes_into_the_model_frame() {
    let e = entity(1, line_kind(0, FX_ONE, 10 * FX_ONE, FX_ONE));
    let p = path_from_entity(&e).unwrap();
    // The drawing frame is y-up; the model frame negates y.
    assert_eq!(p.els[0], PathEl::MoveTo(Point { x: 0, y: -FX_ONE }));
    assert_eq!(p.els[1], PathEl::LineTo(Point { x: 10 * FX_ONE, y: -FX_ONE }));
}

#[test]
fn decoding_is_deterministic() {
    let e = entity(
        1,
        EntityKind::Arc {
            center: RawPoint { x: FX_ONE, y: FX_ONE },
            radius: 2 * FX_ONE,
            start_deg: 30 * FX_ONE,
            end_deg: 200 * FX_ONE,
            normal_z: FX_ONE,
        },
    );
    let p1 = path_from_entity(&e).unwrap();
    let p2 = path_from_entity(&e).unwrap();
    assert_eq!(p1.els, p2.els);
}

#[test]
fn unsupported_orientations_and_degrees_are_skipped() {
    let tilted = entity(1, line_kind(0, 0, FX_ONE, 0));
    let tilted = EntityRec {
        kind: EntityKind::Line {
            p1: RawPoint { x: 0, y: 0 },
            p2: RawPoint { x: FX_ONE, y: 0 },
            extrusion_z: FX_ONE / 2,
        },
        ..tilted
    };
    assert!(path_from_entity(&tilted).is_none());
    let deep = entity(
        2,
        EntityKind::Spline {
            degree: 4,
            control_points: vec![RawPoint { x: 0, y: 0 }; 6],
            knots: vec![0; 12],
            closed: false,
            normal_z: FX_ONE,
        },
    );
    assert!(path_from_entity(&deep).is_none());
    let short = entity(
        3,
        EntityKind::LwPolyline {
            vertices: vec![tabulon::codec::LwVertex { x: 0, y: 0, bulge: 0 }],
            closed: false,
            extrusion_z: FX_ONE,
        },
    );
    assert!(path_from_entity(&short).is_none());
}

#[test]
fn degree_one_spline_spans_are_straight_lines() {
    let e = entity(
        1,
        EntityKind::Spline {
            degree: 1,
            control_points: vec![
                RawPoint { x: 0, y: 0 },
                RawPoint { x: 10 * FX_ONE, y: 0 },
                RawPoint { x: 10 * FX_ONE, y: 10 * FX_ONE },
            ],
            knots: vec![0, FX_ONE, 2 * FX_ONE, 3 * FX_ONE, 4 * FX_ONE],
            closed: false,
            normal_z: FX_ONE,
        },
    );
    let p = path_from_entity(&e).unwrap();
    // Evaluating at the first valid knot reproduces the first control
    // point; every span is a straight line; the last evaluation is the
    // last control point (y negated).
    assert_eq!(
        p.els,
        vec![
            PathEl::MoveTo(Point { x: 0, y: 0 }),
            PathEl::LineTo(Point { x: 10 * FX_ONE, y: 0 }),
            PathEl::LineTo(Point { x: 10 * FX_ONE, y: -10 * FX_ONE }),
        ],
    );
}

#[test]
fn degree_two_spline_yields_quadratics_between_unique_knots() {
    let e = entity(
        1,
        EntityKind::Spline {
            degree: 2,
            control_points: vec![
                RawPoint { x: 0, y: 0 },
                RawPoint { x: 5 * FX_ONE, y: 10 * FX_ONE },
                RawPoint { x: 10 * FX_ONE, y: 0 },
            ],
            knots: vec![0, 0, 0, FX_ONE, FX_ONE, FX_ONE],
            closed: false,
            normal_z: FX_ONE,
        },
    );
    let p = path_from_entity(&e).unwrap();
    assert!(matches!(p.els[0], PathEl::MoveTo(_)));
    assert_eq!(p.els.len(), 2);
    // A single span, reconstructed as a quadratic or degraded to a line
    // when the tangents are parallel; here they are not.
    assert!(matches!(p.els[1], PathEl::QuadTo(_, _)));
}

#[test]
fn degree_three_spline_yields_cubics_between_unique_knots() {
    let e = entity(
        1,
        EntityKind::Spline {
            degree: 3,
            control_points: vec![
                RawPoint { x: 0, y: 0 },
                RawPoint { x: 2 * FX_ONE, y: 6 * FX_ONE },
                RawPoint { x: 8 * FX_ONE, y: 6 * FX_ONE },
                RawPoint { x: 10 * FX_ONE, y: 0 },
            ],
            knots: vec![0, 0, 0, 0, FX_ONE, FX_ONE, FX_ONE, FX_ONE],
            closed: false,
            normal_z: FX_ONE,
        },
    );
    let p = path_from_entity(&e).unwrap();
    assert_eq!(p.els.len(), 2);
    // The clamped ends reproduce the first and last control points.
    assert_eq!(p.els[0], PathEl::MoveTo(Point { x: 0, y: 0 }));
    match p.els[1] {
        PathEl::CurveTo(_, _, p3) => assert_eq!(p3, Point { x: 10 * FX_ONE, y: 0 }),
        ref other => panic!("expected a cubic, got {other:?}"),
    }
}

#[test]
fn mtext_assembles_with_decoded_text_and_center_alignment() {
    let mt = EntityKind::MText(MTextRec {
        text: "45%%d\\Pdone".chars().collect(),
        insertion: RawPoint { x: FX_ONE, y: 2 * FX_ONE },
        rotation_deg: 0,
        x_axis_deg: 0,
        attachment_code: 5,
        style: None,
        initial_height: 3 * FX_ONE,
        column_type: 0,
        reference_rect_width: 0,
        column_width: 0,
        extrusion_z: FX_ONE,
    });
    let model = DrawingModel {
        layers: vec![layer0()],
        styles: vec![],
        blocks: vec![],
        entities: vec![entity(1, mt)],
    };
    let td = assemble_drawing(model);
    assert_eq!(td.graphics.items.len(), 1);
    match &td.graphics.items[0] {
        GraphicsItem::FatText(ft) => {
            let text: String = ft.text.iter().collect();
            assert_eq!(text, "45\u{00B0}\ndone");
            assert_eq!(ft.attachment_point, AttachmentPoint::MiddleCenter);
            assert_eq!(ft.alignment, TextAlignment::Middle);
            assert_eq!(ft.max_inline_size, None);
            assert_eq!(ft.style.font_size, 3 * FX_ONE);
            // The insertion point is in the model frame (y negated).
            assert_eq!(ft.insertion.displacement, Point { x: FX_ONE, y: -2 * FX_ONE });
        },
        _ => panic!("expected a text item"),
    }
}

#[test]
fn assembled_line_culls_with_the_viewport() {
    let td = assemble_drawing(one_line_model());
    assert_eq!(td.graphics.items.len(), 1);
    let idx = EntityIndex::build(&td.graphics, &td.item_entity_map);
    // A viewport that covers the whole line returns exactly that item.
    let all = idx.query_items(Rect { x0: -FX_ONE, y0: -FX_ONE, x1: 11 * FX_ONE, y1: FX_ONE });
    assert_eq!(all.len(), 1);
    assert_eq!(all[0], td.render_layer.indices[0]);
    // A viewport far away returns nothing.
    let none = idx.query_items(Rect {
        x0: -5 * FX_ONE,
        y0: -5 * FX_ONE,
        x1: -2 * FX_ONE,
        y1: -2 * FX_ONE,
    });
    assert!(none.is_empty());
    // A viewport touching only the line's start still overlaps it.
    let corner = idx.query_items(Rect { x0: -FX_ONE, y0: -FX_ONE, x1: FX_ONE, y1: FX_ONE });
    assert_eq!(corner.len(), 1);
}

#[test]
fn pick_at_the_midpoint_of_a_line_at_radius_zero_returns_it() {
    let td = assemble_drawing(one_line_model());
    let idx = EntityIndex::build(&td.graphics, &td.item_entity_map);
    let hit = idx.pick(Point { x: 5 * FX_ONE, y: 0 }, 0);
    assert_eq!(hit, Some(EntityHandle(1)));
    let miss = idx.pick(Point { x: 5 * FX_ONE, y: 2 * FX_ONE }, FX_ONE);
    assert_eq!(miss, None);
}

#[test]
fn pick_prefers_the_last_drawn_entity_on_ties() {
    let mut model = one_line_model();
    model.entities.push(entity(2, line_kind(0, 0, 10 * FX_ONE, 0)));
    let td = assemble_drawing(model);
    let idx = EntityIndex::build(&td.graphics, &td.item_entity_map);
    let hit = idx.pick(Point { x: 5 * FX_ONE, y: 0 }, 0);
    assert_eq!(hit, Some(EntityHandle(2)));
}

#[test]
fn block_array_expands_to_shapes_five_units_apart() {
    let circle = entity(
        10,
        EntityKind::Circle { center: RawPoint { x: 0, y: 0 }, radius: FX_ONE, normal_z: FX_ONE },
    );
    let insert = entity(
        11,
        EntityKind::Insert(InsertRec {
            block: Some(0),
            x_scale: FX_ONE,
            y_scale: FX_ONE,
            location: RawPoint { x: 0, y: 0 },
            rotation_deg: 0,
            row_count: 1,
            column_count: 2,
            row_spacing: 0,
            column_spacing: 5 * FX_ONE,
            extrusion_z: FX_ONE,
        }),
    );
    let model = DrawingModel {
        layers: vec![layer0()],
        styles: vec![],
        blocks: vec![BlockRec { entities: vec![circle] }],
        entities: vec![insert],
    };
    let td = assemble_drawing(model);
    assert_eq!(td.graphics.items.len(), 2);
    let mut centers: Vec<i64> = Vec::new();
    for item in &td.graphics.items {
        match item {
            GraphicsItem::FatShape(fs) => {
                let bb = fs.bounding_box().expect("a circle has segments");
                centers.push((bb.x0 + bb.x1) / 2);
            },
            _ => panic!("expected shapes"),
        }
    }
    assert_eq!(centers[1] - centers[0], 5 * FX_ONE);
}

#[test]
fn cyclic_blocks_resolve_to_nothing_without_failing() {
    let ins = |target: usize| {
        entity(
            20 + target as u64,
            EntityKind::Insert(InsertRec {
                block: Some(target),
                x_scale: FX_ONE,
                y_scale: FX_ONE,
                location: RawPoint { x: 0, y: 0 },
                rotation_deg: 0,
                row_count: 1,
                column_count: 1,
                row_spacing: 0,
                column_spacing: 0,
                extrusion_z: FX_ONE,
            }),
        )
    };
    let model = DrawingModel {
        layers: vec![layer0()],
        styles: vec![],
        blocks: vec![
            BlockRec { entities: vec![ins(1)] },
            BlockRec { entities: vec![ins(0)] },
        ],
        entities: vec![ins(0)],
    };
    let td = assemble_drawing(model);
    assert_eq!(td.graphics.items.len(), 0);
}

#[test]
fn by_layer_color_without_a_layer_color_falls_back_to_opaque_white() {
    let mut e = entity(1, line_kind(0, 0, FX_ONE, 0));
    e.color_code = 256;
    let mut l = layer0();
    l.color_index = None;
    let model = DrawingModel {
        layers: vec![l],
        styles: vec![],
        blocks: vec![],
        entities: vec![e],
    };
    let td = assemble_drawing(model);
    assert_eq!(td.graphics.items.len(), 1);
    match &td.graphics.items[0] {
        GraphicsItem::FatShape(fs) => {
            let p = td.graphics.get_paint(fs.paint);
            assert_eq!(p.stroke_paint, Some(0xFFFFFFFF));
        },
        _ => panic!("expected a shape"),
    }
}

#[test]
fn entities_on_disabled_layers_are_dropped() {
    let mut l = layer0();
    l.on = false;
    let model = DrawingModel {
        layers: vec![l],
        styles: vec![],
        blocks: vec![],
        entities: vec![entity(1, line_kind(0, 0, FX_ONE, 0))],
    };
    let td = assemble_drawing(model);
    assert_eq!(td.graphics.items.len(), 0);
    assert!(td.enabled_layers.is_empty());
    assert_eq!(td.layer_names.len(), 1);
}

#[test]
fn shared_restroke_updates_every_referencing_shape() {
    let mut model = one_line_model();
    // Two entities with the same style share one interned paint.
    model.entities.push(entity(2, line_kind(0, FX_ONE, FX_ONE, FX_ONE)));
    let td = assemble_drawing(model);
    let mut graphics = td.graphics;
    let (p0, p1) = match (&graphics.items[0], &graphics.items[1]) {
        (GraphicsItem::FatShape(a), GraphicsItem::FatShape(b)) => (a.paint, b.paint),
        _ => panic!("expected shapes"),
    };
    assert_eq!(p0, p1);
    assert_eq!(td.restroke_paints.len(), 1);
    let rp: RestrokePaint = td.restroke_paints[0];
    assert_eq!(rp.handle, p0);
    // The binding mirrors its interned (color, weight) key.
    assert_eq!(td.paints.key_weights[0], rp.weight);
    assert_eq!(td.paints.handles[0], rp.handle);
    assert_eq!(rp.weight, 2_250_000);
    rp.adapt(&mut graphics, 9_000, FX_ONE, FX_ONE, 1000 * FX_ONE);
    // 2250000 iota over a 9000-iota pitch is a 250-unit stroke at scale one.
    assert_eq!(graphics.get_paint(p0).stroke_width, 250 * FX_ONE);
    assert_eq!(graphics.get_paint(p1).stroke_width, 250 * FX_ONE);
    // The default paint at slot zero is untouched.
    assert_eq!(graphics.get_paint(PaintHandle(0)).stroke_width, 0);
}

#[test]
fn entity_details_are_recovered_by_handle() {
    let td = assemble_drawing(one_line_model());
    let rec = td.info.get_entity(EntityHandle(1)).expect("entity 1 exists");
    assert_eq!(rec.handle, 1);
    assert!(td.info.get_entity(EntityHandle(99)).is_none());
}

#[test]
fn text_codes_decode_to_symbols() {
    let chars = |s: &str| s.chars().collect::<Vec<char>>();
    let round = decode_text_codes(&chars("100%%d"), true);
    assert_eq!(round, chars("100\u{00B0}"));
    let tol = decode_text_codes(&chars("%%p0.5"), true);
    assert_eq!(tol, chars("\u{00B1}0.5"));
    let percent = decode_text_codes(&chars("50%%%"), true);
    assert_eq!(percent, chars("50%"));
    let para = decode_text_codes(&chars("a\\Pb\\Lc"), true);
    assert_eq!(para, chars("a\nbc"));
    // The single-line variant folds underline toggles, not backslashes.
    let single = decode_text_codes(&chars("%%uX%%o\\P"), false);
    assert_eq!(single, chars("X\\P"));
}

#[test]
fn attachment_points_select_their_corner() {
    let size = Size { w: 10 * FX_ONE, h: 4 * FX_ONE };
    assert_eq!(AttachmentPoint::TopLeft.select(size), Point { x: 0, y: 0 });
    assert_eq!(
        AttachmentPoint::MiddleCenter.select(size),
        Point { x: 5 * FX_ONE, y: 2 * FX_ONE },
    );
    assert_eq!(
        AttachmentPoint::BottomRight.select(size),
        Point { x: 10 * FX_ONE, y: 4 * FX_ONE },
    );
    assert_eq!(AttachmentPoint::from_code(5), Some(AttachmentPoint::MiddleCenter));
    assert_eq!(AttachmentPoint::from_code(0), None);
}

#[test]
fn line_weights_resolve_against_the_layer() {
    // One micrometer is 9000 iota.
    assert_eq!(micrometer(), 9_000);
    // The default weight is a quarter millimeter.
    assert_eq!(resolve_line_weight(-3, 40), 2_250_000);
    // By-block at entity level is invalid and uses the default.
    assert_eq!(resolve_line_weight(-1, 40), 2_250_000);
    // By-layer takes the layer's weight in hundredths of a millimeter.
    assert_eq!(resolve_line_weight(-2, 40), 40 * 10 * 9_000);
    // A layer without a usable weight falls back to the default.
    assert_eq!(resolve_line_weight(-2, -3), 2_250_000);
    // Explicit weights convert directly.
    assert_eq!(resolve_line_weight(50, 40), 50 * 10 * 9_000);
}
