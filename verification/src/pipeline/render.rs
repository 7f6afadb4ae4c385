//! Messages from the render thread.
use vstd::prelude::*;

verus! {

/// What the render thread sends back.
pub enum RenderResult {
    /// A finished frame as packed `0xAARRGGBB` pixels, row by row.
    FrameReady(Vec<u32>),
}

/// The size to reallocate the frame buffers to when a job of size
/// `job_width` x `job_height` arrives while they have size `width` x
/// `height`: the job's size when it differs, nothing when it is the same.
pub fn resize_for_job(width: usize, height: usize, job_width: usize, job_height: usize) -> (r: Option<(usize, usize)>)
    ensures
        r == (if job_width == width && job_height == height {
            None::<(usize, usize)>
        } else {
            Some((job_width, job_height))
        }),
{
    if job_width != width || job_height != height {
        Some((job_width, job_height))
    } else {
        None
    }
}

} // verus!
