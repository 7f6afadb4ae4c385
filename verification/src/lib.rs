//! Verified core of a small software renderer: the PMX model reader, render
//! buffers, BVH traversal bookkeeping and the byte-level output formats.
pub mod buffer;
pub mod color;
pub mod gltf_loader;
pub mod output;
pub mod pipeline;
pub mod pmx;
pub mod render_thread;
pub mod scene;
