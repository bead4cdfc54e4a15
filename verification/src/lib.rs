//! Vector-path-to-GPU-layout pipeline.
//!
//! The library turns 2D vector path geometry into a compact, fixed-layout
//! description for a parallel rasterizer: one object record per path
//! (primitive range, data offset, bounding box), a flat array of primitive
//! tags, and a flat array of coordinate words.
//!
//! Coordinates are carried as 32-bit words holding IEEE 754 binary32 bit
//! patterns, so the assembled arrays can be uploaded to the GPU verbatim.

pub mod error;
pub mod geom;
pub mod loader;
pub mod path;
pub mod pipeline;
pub mod svg;

pub use crate::error::Error;
pub use crate::geom::{le_coord, max_coord, min_coord, Bbox, Point};
pub use crate::loader::{collect_fillable, PaintKind, ShapeRecord};
pub use crate::path::{count_segments, is_flattened_path, path_bbox, path_points};
pub use crate::path::{Path, PathCmd, PathPair};
pub use crate::pipeline::Shader;
pub use crate::svg::{all_flattened, generate_gpu_data, layout_fits_check};
pub use crate::svg::{GpuData, Object, ObjectHandle, PRIMITIVE_LINE};
