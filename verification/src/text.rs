//! Text items and their attachment to an insertion point.

use vstd::prelude::*;
use crate::fx::{tdiv, fxm, s_add, s_sub, tdiv_i128, fx_mul, sat_add, sat_sub};
use crate::geom::{Point, Size};
use crate::affine::DirectIsometry;
use crate::graphics::{TransformHandle, PaintHandle};
use crate::trig::{sin_spec, cos_spec, sin_deg, cos_deg};

verus! {

/// Reference point where text is attached to an insertion point.
#[derive(Debug, Clone, Copy, PartialEq, Eq, Structural)]
pub enum AttachmentPoint {
    /// Top left corner.
    TopLeft,
    /// Center of top edge.
    TopCenter,
    /// Top right corner.
    TopRight,
    /// Middle of the left edge.
    MiddleLeft,
    /// Center of both axes.
    MiddleCenter,
    /// Middle of the right edge.
    MiddleRight,
    /// Bottom left corner.
    BottomLeft,
    /// Center of bottom edge.
    BottomCenter,
    /// Bottom right corner.
    BottomRight,
}

impl Default for AttachmentPoint {
    /// The default attachment point is the top left corner.
    fn default() -> (r: AttachmentPoint)
        ensures
            r is TopLeft,
    {
        AttachmentPoint::TopLeft
    }
}

/// The displacement of an attachment point relative to the origin of a box
/// of the given width and height.
pub open spec fn select_sp(ap: AttachmentPoint, w: int, h: int) -> Point {
    let hw = tdiv(w, 2) as i64;
    let hh = tdiv(h, 2) as i64;
    match ap {
        AttachmentPoint::TopLeft => Point { x: 0, y: 0 },
        AttachmentPoint::TopCenter => Point { x: hw, y: 0 },
        AttachmentPoint::TopRight => Point { x: w as i64, y: 0 },
        AttachmentPoint::MiddleLeft => Point { x: 0, y: hh },
        AttachmentPoint::MiddleCenter => Point { x: hw, y: hh },
        AttachmentPoint::MiddleRight => Point { x: w as i64, y: hh },
        AttachmentPoint::BottomLeft => Point { x: 0, y: h as i64 },
        AttachmentPoint::BottomCenter => Point { x: hw, y: h as i64 },
        AttachmentPoint::BottomRight => Point { x: w as i64, y: h as i64 },
    }
}

impl AttachmentPoint {
    /// Select the displacement of this attachment point relative to the
    /// origin, for a box of the given size.
    pub fn select(&self, size: Size) -> (r: Point)
        ensures
            r == select_sp(*self, size.w as int, size.h as int),
    {
        let hw = tdiv_i128(size.w as i128, 2) as i64;
        let hh = tdiv_i128(size.h as i128, 2) as i64;
        match self {
            AttachmentPoint::TopLeft => Point { x: 0, y: 0 },
            AttachmentPoint::TopCenter => Point { x: hw, y: 0 },
            AttachmentPoint::TopRight => Point { x: size.w, y: 0 },
            AttachmentPoint::MiddleLeft => Point { x: 0, y: hh },
            AttachmentPoint::MiddleCenter => Point { x: hw, y: hh },
            AttachmentPoint::MiddleRight => Point { x: size.w, y: hh },
            AttachmentPoint::BottomLeft => Point { x: 0, y: size.h },
            AttachmentPoint::BottomCenter => Point { x: hw, y: size.h },
            AttachmentPoint::BottomRight => Point { x: size.w, y: size.h },
        }
    }

    /// The attachment point named by the drawing format's numeric code, top
    /// left through bottom right, row by row; other codes name none.
    pub fn from_code(code: u16) -> (r: Option<AttachmentPoint>)
        ensures
            code == 1 ==> r == Some(AttachmentPoint::TopLeft),
            code == 2 ==> r == Some(AttachmentPoint::TopCenter),
            code == 3 ==> r == Some(AttachmentPoint::TopRight),
            code == 4 ==> r == Some(AttachmentPoint::MiddleLeft),
            code == 5 ==> r == Some(AttachmentPoint::MiddleCenter),
            code == 6 ==> r == Some(AttachmentPoint::MiddleRight),
            code == 7 ==> r == Some(AttachmentPoint::BottomLeft),
            code == 8 ==> r == Some(AttachmentPoint::BottomCenter),
            code == 9 ==> r == Some(AttachmentPoint::BottomRight),
            code == 0 || code > 9 ==> r is None,
    {
        match code {
            1 => Some(AttachmentPoint::TopLeft),
            2 => Some(AttachmentPoint::TopCenter),
            3 => Some(AttachmentPoint::TopRight),
            4 => Some(AttachmentPoint::MiddleLeft),
            5 => Some(AttachmentPoint::MiddleCenter),
            6 => Some(AttachmentPoint::MiddleRight),
            7 => Some(AttachmentPoint::BottomLeft),
            8 => Some(AttachmentPoint::BottomCenter),
            9 => Some(AttachmentPoint::BottomRight),
            _ => None,
        }
    }
}

/// Horizontal alignment of laid-out text.
#[derive(Debug, Clone, Copy, PartialEq, Eq, Structural)]
pub enum TextAlignment {
    /// Align at the left edge.
    Left,
    /// Center between the edges.
    Middle,
    /// Align at the right edge.
    Right,
}

impl Default for TextAlignment {
    /// The default alignment is left.
    fn default() -> (r: TextAlignment)
        ensures
            r is Left,
    {
        TextAlignment::Left
    }
}

/// The generic family a drawing font maps to.
#[derive(Debug, Clone, Copy, PartialEq, Eq, Structural)]
pub enum FontClass {
    /// A sans-serif face.
    SansSerif,
    /// A serif face.
    Serif,
    /// A monospace face.
    Monospace,
    /// A cursive face.
    Cursive,
}

/// Resolved style attributes of a text item, as plain values.
#[derive(Debug, Clone, Copy, PartialEq, Eq, Structural)]
pub struct TextStyle {
    /// Font size, fixed-point; zero means the entity's own height applies.
    pub font_size: i64,
    /// Width ratio, fixed-point (one is normal).
    pub width_ratio: i64,
    /// Oblique angle in fixed-point degrees; zero means upright.
    pub oblique_deg: i64,
    /// The generic family.
    pub family: FontClass,
    /// Weight on the usual hundred scale (400 regular, 700 bold).
    pub weight: u32,
    /// Whether the face is italic.
    pub italic: bool,
}

impl TextStyle {
    /// A plain style of the given fixed-point size.
    pub fn plain(font_size: i64) -> (r: TextStyle)
        ensures
            r.font_size == font_size,
            r.width_ratio == crate::fx::FX_ONE,
            r.oblique_deg == 0,
            r.family is SansSerif,
            r.weight == 400,
            r.italic == false,
    {
        TextStyle {
            font_size,
            width_ratio: crate::fx::FX_ONE,
            oblique_deg: 0,
            family: FontClass::SansSerif,
            weight: 400,
            italic: false,
        }
    }

    /// Whether the style's font size is zero.
    pub fn size_is_zero(&self) -> (r: bool)
        ensures
            r == (self.font_size == 0),
    {
        self.font_size == 0
    }

    /// The same style with another font size.
    pub fn with_size(self, font_size: i64) -> (r: TextStyle)
        ensures
            r == (TextStyle { font_size, ..self }),
    {
        TextStyle { font_size, ..self }
    }
}

/// Text item.
#[derive(Debug, Clone)]
pub struct FatText {
    /// Handle of the primary transform.
    pub transform: TransformHandle,
    /// Handle of the paint; text is drawn with its fill.
    pub paint: PaintHandle,
    /// Text content, decoded, as a sequence of characters.
    pub text: Vec<char>,
    /// Resolved style of the text.
    pub style: TextStyle,
    /// Alignment between the insertion edges.
    pub alignment: TextAlignment,
    /// Maximum inline size before a line should break, fixed-point.
    pub max_inline_size: Option<i64>,
    /// Insertion transform.
    pub insertion: DirectIsometry,
    /// Reference point for insertion: the insertion point sits at this
    /// corner of the laid-out text.
    pub attachment_point: AttachmentPoint,
}

/// The attachment offset of a laid-out box, rotated by the insertion angle.
pub open spec fn rotate_offset_sp(ap: AttachmentPoint, w: int, h: int, deg: int) -> Point {
    let a = select_sp(ap, w, h);
    Point {
        x: s_sub(fxm(a.x as int, cos_spec(deg)), fxm(a.y as int, sin_spec(deg))) as i64,
        y: s_add(fxm(a.x as int, sin_spec(deg)), fxm(a.y as int, cos_spec(deg))) as i64,
    }
}

/// Calculate a top-left-equivalent insertion offset for a layout size and
/// attachment point, rotated by the insertion angle.
pub fn rotate_offset(attachment_point: AttachmentPoint, layout_size: Size, angle_deg: i64) -> (r:
    Point)
    ensures
        r == rotate_offset_sp(
            attachment_point,
            layout_size.w as int,
            layout_size.h as int,
            angle_deg as int,
        ),
{
    let a = attachment_point.select(layout_size);
    let si = sin_deg(angle_deg);
    let co = cos_deg(angle_deg);
    Point {
        x: sat_sub(fx_mul(a.x, co), fx_mul(a.y, si)),
        y: sat_add(fx_mul(a.x, si), fx_mul(a.y, co)),
    }
}

} // verus!
