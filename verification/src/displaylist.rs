//! A simple display list: immediate-mode shapes with their own transform
//! and paint, outside any bag.

use vstd::prelude::*;
use crate::affine::Affine;
use crate::geom::{Point, Rect};
use crate::path::BezPath;
use crate::shape::FatPaint;

verus! {

/// Enumeration of the primitive shapes a display list can hold.
#[derive(Debug, Clone)]
pub enum AnyShape {
    /// A circular arc: center, radius, start and sweep in fixed-point
    /// degrees.
    Arc(Point, i64, i64, i64),
    /// A Bézier path.
    BezPath(BezPath),
    /// A circle: center and radius.
    Circle(Point, i64),
    /// A line between two points.
    Line(Point, Point),
    /// An axis-aligned rectangle.
    Rect(Rect),
}

/// Collection of subshapes with the same transform and paint style.
#[derive(Debug, Clone)]
pub struct FatShape {
    /// Affine transform of every subshape.
    pub transform: Affine,
    /// Paint information.
    pub paint: FatPaint,
    /// The subshapes.
    pub subshapes: Vec<AnyShape>,
}

/// Items for [`DisplayList`].
#[derive(Debug, Clone)]
pub enum DisplayItem {
    /// The item is a [`FatShape`].
    FatShape(FatShape),
}

/// Simple display list.
#[derive(Debug, Clone)]
pub struct DisplayList {
    /// Items in the list, in drawing order.
    pub items: Vec<DisplayItem>,
}

impl DisplayList {
    /// An empty list.
    pub fn new() -> (r: DisplayList)
        ensures
            r.items@.len() == 0,
    {
        DisplayList { items: Vec::new() }
    }

    /// Push a [`DisplayItem`], returning its index.
    pub fn push(&mut self, i: DisplayItem) -> (r: usize)
        ensures
            final(self).items@ =~= old(self).items@.push(i),
            r == old(self).items@.len(),
    {
        let n = self.items.len();
        self.items.push(i);
        n
    }
}

} // verus!
