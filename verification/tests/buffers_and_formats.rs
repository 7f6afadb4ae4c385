use draft_render::buffer::RenderBuffer as SampleBuffer;
use draft_render::color::pack_argb;
use draft_render::gltf_loader::triangles_from_indices;
use draft_render::output::{depth_csv, encode_bin, DepthHistogram};
use draft_render::pipeline::buffer::RenderBuffer;
use draft_render::pipeline::bvh::{TraversalStack, NULL_NODE};
use draft_render::pipeline::path_tracing::tracer::{jitter_seed, pixel_seed, Sampler};
use draft_render::pipeline::rasterizer::Bounds;
use draft_render::pipeline::render::{resize_for_job, RenderResult};
use draft_render::pipeline::path_tracing::samples::SampleCounts;
use draft_render::render_thread::RenderResult as ThreadResult;
use draft_render::scene::material::{bilinear_corners, checkerboard};

#[test]
fn pixel_buffer_write_then_read() {
    let mut b = RenderBuffer::new(4, 3, 0u32);
    assert_eq!(b.width(), 4);
    assert_eq!(b.height(), 3);
    assert_eq!(b.as_slice().len(), 12);
    *b.get_mut(2, 1) = 7;
    assert_eq!(*b.pixel(2, 1), 7);
    assert_eq!(b.as_slice()[6], 7);
    assert_eq!(b.as_slice().iter().filter(|&&v| v == 7).count(), 1);
    b.clear(5);
    assert!(b.as_slice().iter().all(|&v| v == 5));
}

#[test]
fn sample_buffer_layout() {
    let mut b: SampleBuffer<u8, 4> = SampleBuffer::new(3, 2, 1);
    assert_eq!(b.as_slice().len(), 24);
    assert_eq!(b.idx(0, 0, 0), 0);
    assert_eq!(b.idx(2, 1, 3), (2 + 3) * 4 + 3);
    *b.sample_mut(1, 1, 2) = 9;
    assert_eq!(*b.sample(1, 1, 2), 9);
    assert_eq!(*b.get(b.idx(1, 1, 2)), 9);
    *b.get_mut(0) = 4;
    assert_eq!(*b.get(0), 4);
    b.clear(0);
    assert!(b.as_slice().iter().all(|&v| v == 0));
    let mut single: SampleBuffer<u32, 1> = SampleBuffer::new(2, 2, 0);
    *single.pixel_mut(1, 1) = 3;
    assert_eq!(*single.pixel(1, 1), 3);
    assert_eq!(single.as_slice(), &[0, 0, 0, 3]);
}

#[test]
fn every_sample_has_its_own_cell() {
    let b: SampleBuffer<u8, 3> = SampleBuffer::new(5, 4, 0);
    let mut seen = vec![false; 60];
    for y in 0..4 {
        for x in 0..5 {
            for i in 0..3 {
                let k = b.idx(x, y, i);
                assert!(!seen[k]);
                seen[k] = true;
            }
        }
    }
    assert!(seen.iter().all(|&s| s));
}

#[test]
fn traversal_stack_pops_nearer_child_first() {
    let mut s = TraversalStack::new(0);
    assert_eq!(s.pop(), Some(0));
    assert_eq!(s.pop(), None);
    s.push_children(1, 2, true, true, true);
    assert_eq!(s.pop(), Some(1));
    assert_eq!(s.pop(), Some(2));
    s.push_children(3, 4, true, true, false);
    assert_eq!(s.pop(), Some(4));
    assert_eq!(s.pop(), Some(3));
    s.push_children(5, 6, false, true, true);
    s.push_children(7, 8, false, false, true);
    s.push_children(9, 10, true, false, false);
    assert_eq!(s.pop(), Some(9));
    assert_eq!(s.pop(), Some(6));
    assert_eq!(s.pop(), None);
    assert_eq!(NULL_NODE, u32::MAX);
}

#[test]
fn bounds_are_clipped_to_the_image() {
    let b = Bounds { min_x: 2, max_x: 10, min_y: 1, max_y: 3 };
    assert_eq!(b.range_x(7), (2, 7));
    assert_eq!(b.range_x(20), (2, 10));
    assert_eq!(b.range_y(2), (1, 2));
    assert_eq!(b.range_y(0), (1, 0));
}

#[test]
fn seeds_mix_pixel_global_seed_and_sample() {
    let expected = ((2u64 * 10 + 3).wrapping_mul(2654435761)).wrapping_add(7) ^ 5;
    assert_eq!(pixel_seed(3, 2, 10, 7, 5), expected);
    assert_ne!(pixel_seed(3, 2, 10, 7, 5), pixel_seed(3, 2, 10, 8, 5));
    assert_eq!(pixel_seed(0, 0, 10, u64::MAX, 0), u64::MAX);
    assert_eq!(jitter_seed(1, 2), 6364136223846793005u64 + 2);
    assert_eq!(jitter_seed(u64::MAX, 0), 6364136223846793005u64.wrapping_neg());
    assert_ne!(Sampler::Halton, Sampler::Jitter);
}

#[test]
fn argb_packing() {
    assert_eq!(pack_argb([0x12, 0x34, 0x56]), 0xFF12_3456);
    assert_eq!(pack_argb([0, 0, 0]), 0xFF00_0000);
    assert_eq!(pack_argb([255, 255, 255]), 0xFFFF_FFFF);
}

#[test]
fn bin_layout() {
    let floats = [1.0f32, -2.5];
    let bits: Vec<u32> = floats.iter().map(|f| f.to_bits()).collect();
    let out = encode_bin(3, 2, &bits);
    assert_eq!(out.len(), 8 + 8);
    assert_eq!(u32::from_le_bytes(out[0..4].try_into().unwrap()), 3);
    assert_eq!(u32::from_le_bytes(out[4..8].try_into().unwrap()), 2);
    assert_eq!(f32::from_le_bytes(out[8..12].try_into().unwrap()), 1.0);
    assert_eq!(f32::from_le_bytes(out[12..16].try_into().unwrap()), -2.5);
}

#[test]
fn depth_histogram_csv() {
    let mut h = DepthHistogram::new(2);
    assert_eq!(h.counts(), &[0, 0, 0]);
    h.record(0);
    h.record(1);
    h.record(1);
    h.record(7);
    assert_eq!(h.counts(), &[1, 2, 1]);
    let csv = String::from_utf8(depth_csv(h.counts())).unwrap();
    assert_eq!(csv, "depth,count\n0,1\n1,2\n2,1\n");
    let big = String::from_utf8(depth_csv(&[9029, 5446, 0, 4294967295])).unwrap();
    assert_eq!(big, "depth,count\n0,9029\n1,5446\n2,0\n3,4294967295\n");
    h.reset();
    assert_eq!(h.counts(), &[0, 0, 0]);
}

#[test]
fn histogram_counter_wraps() {
    let mut h = DepthHistogram::new(0);
    for _ in 0..3 {
        h.record(5);
    }
    assert_eq!(h.counts(), &[3]);
}

#[test]
fn checkerboard_squares() {
    let data = checkerboard(4, 3, 2, 'a', 'b');
    let rows: Vec<String> = data.chunks(4).map(|r| r.iter().collect()).collect();
    assert_eq!(rows, vec!["aabb", "aabb", "bbaa"]);
}

#[test]
fn bilinear_corners_clamp_at_edges() {
    assert_eq!(bilinear_corners(1, 1, 4, 3), [5, 6, 9, 10]);
    assert_eq!(bilinear_corners(3, 2, 4, 3), [11, 11, 11, 11]);
    assert_eq!(bilinear_corners(0, 2, 4, 3), [8, 9, 8, 9]);
}

#[test]
fn gltf_indices_grouped_in_triangles() {
    assert_eq!(triangles_from_indices(&[0, 1, 2, 2, 1, 3, 4]), vec![[0, 1, 2], [2, 1, 3]]);
    assert!(triangles_from_indices(&[1, 2]).is_empty());
}

#[test]
fn render_results_carry_frames() {
    let RenderResult::FrameReady(v) = RenderResult::FrameReady(vec![1, 2]);
    assert_eq!(v, vec![1, 2]);
    let ThreadResult::FrameReady(w) = ThreadResult::FrameReady(vec![3]);
    assert_eq!(w, vec![3]);
}

#[test]
fn frame_buffers_resized_only_on_size_change() {
    assert_eq!(resize_for_job(0, 0, 800, 600), Some((800, 600)));
    assert_eq!(resize_for_job(800, 600, 800, 600), None);
    assert_eq!(resize_for_job(800, 600, 800, 601), Some((800, 601)));
}

#[test]
fn sample_counts_grow_together_and_refuse_overflow() {
    let mut c = SampleCounts::new(3);
    assert_eq!(c.counts(), &[0, 0, 0]);
    assert!(c.add(16));
    assert!(c.add(4));
    assert_eq!(c.counts(), &[20, 20, 20]);
    assert!(!c.add(u32::MAX - 10));
    assert_eq!(c.counts(), &[20, 20, 20]);
    c.reset();
    assert_eq!(c.counts(), &[0, 0, 0]);
    assert!(SampleCounts::new(0).add(u32::MAX));
}

#[test]
fn buffer_index_is_in_bounds_and_distinct() {
    let b: draft_render::buffer::RenderBuffer<u8, 2> = draft_render::buffer::RenderBuffer::new(3, 2, 0);
    let mut seen = Vec::new();
    for y in 0..2 {
        for x in 0..3 {
            for i in 0..2 {
                let k = b.idx(x, y, i);
                assert!(k < b.as_slice().len());
                assert!(!seen.contains(&k));
                seen.push(k);
            }
        }
    }
    assert_eq!(seen.len(), b.as_slice().len());
}
