//! Sampler choice and per-pixel random seeds.
use vstd::prelude::*;

verus! {

/// Sampling strategy for pixel anti-aliasing.
#[derive(Debug, Clone, Copy, PartialEq, Eq, Structural)]
pub enum Sampler {
    /// 2D Halton (bases 2, 3) with a per-pixel Cranley-Patterson rotation.
    Halton,
    /// Pseudo-random jitter.
    Jitter,
}

/// Multiplier that spreads pixel indices over the seed space.
pub const PIXEL_SEED_MUL: u64 = 2654435761;

/// LCG multiplier used to derive the jitter generator's seed.
pub const JITTER_SEED_MUL: u64 = 6364136223846793005;

pub open spec fn spec_pixel_seed(pixel: u64, global_seed: u64, sample_index: u32) -> u64 {
    ((((pixel as int) * (PIXEL_SEED_MUL as int) + global_seed as int) % 0x1_0000_0000_0000_0000) as u64) ^ (
    sample_index as u64)
}

/// Seed of the random stream for one sample of pixel `(x, y)`: the pixel's
/// row-major index times a spreading constant, plus the global seed, with
/// the sample index mixed in (all modulo 2^64).
pub fn pixel_seed(x: usize, y: usize, width: usize, global_seed: u64, sample_index: u32) -> (s: u64)
    requires
        y * width + x <= usize::MAX,
    ensures
        s == spec_pixel_seed((y * width + x) as u64, global_seed, sample_index),
{
    let pixel = (y * width + x) as u64;
    pixel.wrapping_mul(PIXEL_SEED_MUL).wrapping_add(global_seed) ^ (sample_index as u64)
}

/// Seed of the jitter generator for a sample.
pub fn jitter_seed(seed: u64, sample_index: u32) -> (s: u64)
    ensures
        s == ((seed as int) * (JITTER_SEED_MUL as int) + sample_index as int) % 0x1_0000_0000_0000_0000,
{
    seed.wrapping_mul(JITTER_SEED_MUL).wrapping_add(sample_index as u64)
}

/// Different global seeds give every sample of every pixel a different
/// random stream, so repeated renders with different seeds are independent
/// realisations.
pub proof fn lemma_global_seed_changes_stream(pixel: u64, seed1: u64, seed2: u64, sample_index: u32)
    requires
        seed1 != seed2,
    ensures
        spec_pixel_seed(pixel, seed1, sample_index) != spec_pixel_seed(pixel, seed2, sample_index),
{
    let m: int = 0x1_0000_0000_0000_0000;
    let base = (pixel as int) * (PIXEL_SEED_MUL as int);
    let a = ((base + seed1 as int) % m) as u64;
    let b = ((base + seed2 as int) % m) as u64;
    assert(a != b) by (nonlinear_arith)
        requires
            seed1 != seed2,
            0 <= seed1 < m,
            0 <= seed2 < m,
            m == 0x1_0000_0000_0000_0000,
            a == ((base + seed1 as int) % m) as u64,
            b == ((base + seed2 as int) % m) as u64,
    {
        assert(0 <= (base + seed1 as int) % m < m);
        assert(0 <= (base + seed2 as int) % m < m);
    }
    let i = sample_index as u64;
    assert(a ^ i != b ^ i) by (bit_vector)
        requires
            a != b,
    ;
}

} // verus!
