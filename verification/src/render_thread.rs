//! Messages from the raster render thread.
use vstd::prelude::*;

verus! {

/// What the render thread sends back.
pub enum RenderResult {
    /// A finished frame as packed `0xAARRGGBB` pixels, row by row.
    FrameReady(Vec<u32>),
}

} // verus!
