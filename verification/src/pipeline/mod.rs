//! The rendering pipeline: frame buffers, traversal bookkeeping, raster
//! bounds and sampling seeds.
pub mod buffer;
pub mod bvh;
pub mod path_tracing;
pub mod rasterizer;
pub mod render;
