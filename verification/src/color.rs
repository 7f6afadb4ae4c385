//! Packing display colours into framebuffer words.
use vstd::prelude::*;

verus! {

/// The `0xAARRGGBB` word of an opaque pixel.
pub open spec fn spec_argb(r: u8, g: u8, b: u8) -> u32 {
    (0xFF00_0000 + (r as int) * 0x1_0000 + (g as int) * 0x100 + b as int) as u32
}

/// Packs tone-mapped sRGB bytes `[R, G, B]` into an opaque `0xAARRGGBB`
/// framebuffer word.
pub fn pack_argb(rgb: [u8; 3]) -> (w: u32)
    ensures
        w == spec_argb(rgb[0], rgb[1], rgb[2]),
{
    let r = rgb[0] as u32;
    let g = rgb[1] as u32;
    let b = rgb[2] as u32;
    assert(0xFF00_0000u32 | (r << 16) | (g << 8) | b == 0xFF00_0000u32 + r * 0x1_0000 + g * 0x100 + b) by (bit_vector)
        requires
            r < 256,
            g < 256,
            b < 256,
    ;
    0xFF00_0000u32 | (r << 16) | (g << 8) | b
}

/// The channels of a packed pixel come back out unchanged and alpha is
/// always fully opaque.
pub proof fn lemma_argb_channels(r: u8, g: u8, b: u8)
    ensures
        (spec_argb(r, g, b) >> 24) & 0xFF == 0xFF,
        (spec_argb(r, g, b) >> 16) & 0xFF == r,
        (spec_argb(r, g, b) >> 8) & 0xFF == g,
        spec_argb(r, g, b) & 0xFF == b,
{
    let w = spec_argb(r, g, b);
    let (r32, g32, b32) = (r as u32, g as u32, b as u32);
    assert(w == (0xFF00_0000u32 + r32 * 0x1_0000 + g32 * 0x100 + b32) as u32);
    assert({
        let v = (0xFF00_0000u32 + r32 * 0x1_0000 + g32 * 0x100 + b32) as u32;
        &&& (v >> 24) & 0xFF == 0xFF
        &&& (v >> 16) & 0xFF == r32
        &&& (v >> 8) & 0xFF == g32
        &&& v & 0xFF == b32
    }) by (bit_vector)
        requires
            r32 < 256,
            g32 < 256,
            b32 < 256,
    ;
}

} // verus!
