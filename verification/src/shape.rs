//! Shapes and their paint.

use vstd::prelude::*;
use crate::geom::Rect;
use crate::graphics::{TransformHandle, PaintHandle};
use crate::path::{BezPath, bbox_of_segs, path_segs};

verus! {

/// Paint style for [`FatShape`].
///
/// Colors are packed `0xRRGGBBAA`; the stroke width is a fixed-point length
/// in view space.  A freshly resolved paint carries no meaningful stroke
/// width until its first view-dependent adaptation.
#[derive(Debug, Clone)]
pub struct FatPaint {
    /// Stroke width, fixed-point.
    pub stroke_width: i64,
    /// Packed color for the stroke, if the shape is stroked.
    pub stroke_paint: Option<u32>,
    /// Packed color for the fill, if the shape is filled.
    pub fill_paint: Option<u32>,
}

impl Default for FatPaint {
    /// The default paint: zero-width stroke, no brushes.
    fn default() -> (r: FatPaint)
        ensures
            r.stroke_width == 0,
            r.stroke_paint is None,
            r.fill_paint is None,
    {
        FatPaint { stroke_width: 0, stroke_paint: None, fill_paint: None }
    }
}

/// Collection of subshapes with the same transform and paint style.
#[derive(Debug, Clone)]
pub struct FatShape {
    /// Handle of the affine transform.
    pub transform: TransformHandle,
    /// Handle of the paint.
    pub paint: PaintHandle,
    /// The path.
    pub path: BezPath,
}

impl Default for FatShape {
    /// The default shape: root transform, first paint, empty path.
    fn default() -> (r: FatShape)
        ensures
            r.transform.0 == 0,
            r.paint.0 == 0,
            r.path.els@.len() == 0,
    {
        FatShape { transform: TransformHandle(0), paint: PaintHandle(0), path: BezPath::new() }
    }
}

impl FatShape {
    /// The bounding box of the path's control points, or `None` for a path
    /// without segments.
    pub fn bounding_box(&self) -> (r: Option<Rect>)
        ensures
            r == bbox_of_segs(path_segs(self.path.els@)),
    {
        self.path.bounding_box()
    }
}

} // verus!
