//! A queryable, renderable vector-scene core for CAD drawings.
//!
//! Coordinates and transform coefficients are fixed-point numbers: an `i64`
//! carries a real value scaled by 2^16 (see [`fx`]).  All geometry, style
//! resolution, scene-graph and spatial-index logic is carried out on these
//! plain integer values.

pub mod fx;
pub mod trig;
pub mod geom;
pub mod affine;
pub mod path;
pub mod arcs;
pub mod graphics;
pub mod shape;
pub mod text;
pub mod render_layer;
pub mod style;
pub mod codec;
pub mod blocks;
pub mod index;
pub mod assembly;
pub mod displaylist;

pub use fx::FX_ONE;
pub use affine::{Affine, DirectIsometry};
pub use graphics::{GraphicsBag, GraphicsItem, ItemHandle, PaintHandle, TransformHandle};
