//! Fixed-point arithmetic, trigonometry and path basics.

use tabulon::FX_ONE;
use tabulon::fx::{fx_div, fx_mul, hypot_fx, mod_pos, sat_add, sat_neg, sat_sub};
use tabulon::trig::{atan_deg, cos_deg, sin_deg, DEG_180, DEG_360, DEG_90};
use tabulon::geom::{Point, Rect};
use tabulon::path::{BezPath, PathEl, PathSeg};
use tabulon::arcs::add_poly_segment;
use tabulon::Affine;

#[test]
fn fixed_point_products_are_exact_on_integers() {
    assert_eq!(fx_mul(2 * FX_ONE, 3 * FX_ONE), 6 * FX_ONE);
    assert_eq!(fx_mul(-2 * FX_ONE, 3 * FX_ONE), -6 * FX_ONE);
    assert_eq!(fx_div(6 * FX_ONE, 3 * FX_ONE), 2 * FX_ONE);
    // Truncation toward zero.
    assert_eq!(fx_mul(1, 1), 0);
    assert_eq!(fx_div(FX_ONE, -3 * FX_ONE), -21845);
    assert_eq!(fx_div(-FX_ONE, 3 * FX_ONE), -21845);
}

#[test]
fn saturation_clamps_at_the_range_ends() {
    assert_eq!(sat_add(i64::MAX, 1), i64::MAX);
    assert_eq!(sat_sub(i64::MIN, 1), i64::MIN);
    assert_eq!(sat_neg(i64::MIN), i64::MAX);
}

#[test]
fn hypot_matches_the_classic_triangle() {
    assert_eq!(hypot_fx(3 * FX_ONE, 4 * FX_ONE), 5 * FX_ONE);
    assert_eq!(hypot_fx(0, 0), 0);
}

#[test]
fn euclidean_remainder_wraps_negative_angles() {
    assert_eq!(mod_pos(-DEG_90, DEG_360), 270 * FX_ONE);
    assert_eq!(mod_pos(DEG_360 + DEG_90, DEG_360), DEG_90);
}

#[test]
fn sine_and_cosine_are_exact_on_the_axes() {
    assert_eq!(sin_deg(0), 0);
    assert_eq!(sin_deg(DEG_90), FX_ONE);
    assert_eq!(sin_deg(DEG_180), 0);
    assert_eq!(sin_deg(DEG_180 + DEG_90), -FX_ONE);
    assert_eq!(cos_deg(0), FX_ONE);
    assert_eq!(cos_deg(DEG_90), 0);
    assert_eq!(cos_deg(DEG_180), -FX_ONE);
}

#[test]
fn sine_of_thirty_degrees_is_one_half() {
    assert_eq!(sin_deg(30 * FX_ONE), FX_ONE / 2);
}

#[test]
fn arc_tangent_is_exact_at_zero_and_close_at_one() {
    assert_eq!(atan_deg(0), 0);
    let a = atan_deg(FX_ONE);
    assert!(a > 44 * FX_ONE && a < 45 * FX_ONE, "atan(1) ~ 45 degrees, got {a}");
    assert_eq!(atan_deg(-FX_ONE), -a);
}

#[test]
fn path_segments_and_bounding_box_of_a_line() {
    let mut bp = BezPath::new();
    bp.move_to(Point { x: 0, y: 0 });
    bp.line_to(Point { x: 10 * FX_ONE, y: 0 });
    let segs = bp.segments();
    assert_eq!(segs.len(), 1);
    match segs[0] {
        PathSeg::Line(a, b) => {
            assert_eq!(a, Point { x: 0, y: 0 });
            assert_eq!(b, Point { x: 10 * FX_ONE, y: 0 });
        },
        _ => panic!("expected a line segment"),
    }
    let bb = bp.bounding_box().unwrap();
    assert_eq!(bb, Rect { x0: 0, y0: 0, x1: 10 * FX_ONE, y1: 0 });
}

#[test]
fn close_path_yields_the_closing_segment() {
    let mut bp = BezPath::new();
    bp.move_to(Point { x: 0, y: 0 });
    bp.line_to(Point { x: FX_ONE, y: 0 });
    bp.line_to(Point { x: FX_ONE, y: FX_ONE });
    bp.close_path();
    let segs = bp.segments();
    assert_eq!(segs.len(), 3);
    match segs[2] {
        PathSeg::Line(a, b) => {
            assert_eq!(a, Point { x: FX_ONE, y: FX_ONE });
            assert_eq!(b, Point { x: 0, y: 0 });
        },
        _ => panic!("expected the closing line"),
    }
}

#[test]
fn zero_bulge_appends_a_straight_segment() {
    let mut bp = BezPath::new();
    bp.move_to(Point { x: 0, y: 0 });
    add_poly_segment(&mut bp, Point { x: 0, y: 0 }, Point { x: 7 * FX_ONE, y: 0 }, 0);
    assert_eq!(bp.els.len(), 2);
    assert_eq!(bp.els[1], PathEl::LineTo(Point { x: 7 * FX_ONE, y: 0 }));
}

#[test]
fn bulge_arc_passes_through_both_end_points() {
    let start = Point { x: 0, y: 0 };
    let end = Point { x: 10 * FX_ONE, y: 0 };
    let mut bp = BezPath::new();
    bp.move_to(start);
    // A bulge of one is a half circle.
    add_poly_segment(&mut bp, start, end, FX_ONE);
    assert!(bp.els.len() > 1);
    match bp.els[bp.els.len() - 1] {
        PathEl::CurveTo(_, _, p3) => assert_eq!(p3, end),
        ref other => panic!("expected a cubic at the end, got {other:?}"),
    }
    for el in &bp.els[1..] {
        assert!(!matches!(el, PathEl::MoveTo(_)));
        assert!(!matches!(el, PathEl::ClosePath));
    }
}

#[test]
fn transform_translates_every_point() {
    let mut bp = BezPath::new();
    bp.move_to(Point { x: 0, y: 0 });
    bp.line_to(Point { x: FX_ONE, y: FX_ONE });
    let t = Affine::translate(Point { x: 2 * FX_ONE, y: 3 * FX_ONE });
    let moved = bp.transform(&t);
    assert_eq!(moved.els[0], PathEl::MoveTo(Point { x: 2 * FX_ONE, y: 3 * FX_ONE }));
    assert_eq!(moved.els[1], PathEl::LineTo(Point { x: 3 * FX_ONE, y: 4 * FX_ONE }));
}
