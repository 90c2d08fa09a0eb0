//! Slicing of triangulated meshes into binary layer bitmaps for masked
//! stereolithography printers.
//!
//! All lengths are integers in nanometres. A triangle mesh is cast against
//! upward rays, one per pixel column; the crossings of each column are paired
//! into inside-intervals, and each layer is rasterised by testing its height
//! against those intervals.

mod geometry;
mod grid;
mod gui;
mod laws;
mod raster;
mod slicer;
mod spans;
mod units;

pub use geometry::{
    Aabb, Point3, Ray, Triangle, COORD_LIMIT, HIT_EPSILON, MESH_LIMIT, PARALLEL_EPSILON,
};
pub use grid::{mesh_bounds, RasterGrid};
pub use gui::{FormAction, Message, SlicerForm};
pub use laws::{
    lemma_column_spans_deterministic, lemma_column_spans_ordered, lemma_grid_covers_bounds,
    lemma_layer_bitmap_deterministic,
};
pub use raster::{covers, render_layer, SpanGrid};
pub use slicer::{
    emitted_layers, is_layer_emitted, layer_image, layer_label, should_report_progress, Layer,
    SlicerConfig, DEFAULT_LAYER_HEIGHT_NM, DEFAULT_PIXEL_SIZE_NM,
};
pub use spans::{column_crossings, column_spans, pair_spans};
pub use units::parse_micrometres;
