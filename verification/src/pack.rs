//! Bit packing of per-glyph data into the vertex attributes that the shader
//! unpacks: the glyph's band-texture location and its largest band indices.
use vstd::prelude::*;

verus! {

/// Packs the glyph's location in the band texture as `(y << 16) | x`.
pub fn pack_glyph_location(x: u32, y: u32) -> (bits: u32)
    ensures
        bits == ((y << 16u32) | x),
        x < 0x10000 && y < 0x10000 ==> {
            &&& bits == y * 0x10000 + x
            &&& bits & 0xFFFF == x
            &&& bits >> 16u32 == y
        },
{
    let bits = (y << 16u32) | x;
    proof {
        assert(x < 0x10000 && y < 0x10000 ==> {
            &&& ((y << 16u32) | x) == y * 0x10000 + x
            &&& ((y << 16u32) | x) & 0xFFFF == x
            &&& ((y << 16u32) | x) >> 16u32 == y
        }) by (bit_vector);
    }
    bits
}

/// Packs the largest band indices as `((y & 0xFF) << 16) | (x & 0xFF)`: the
/// low byte of each index, x in bits 0..8 and y in bits 16..24.
pub fn pack_band_max(x: u32, y: u32) -> (bits: u32)
    ensures
        bits == (((y & 0xFF) << 16u32) | (x & 0xFF)),
        bits == (y % 256) * 0x10000 + x % 256,
        bits & 0xFFFF == x % 256,
        bits >> 16u32 == y % 256,
{
    let bits = ((y & 0xFF) << 16u32) | (x & 0xFF);
    proof {
        assert(((y & 0xFF) << 16u32) | (x & 0xFF) == (y % 256) * 0x10000 + x % 256) by (bit_vector);
        assert((((y & 0xFF) << 16u32) | (x & 0xFF)) & 0xFFFF == x % 256) by (bit_vector);
        assert((((y & 0xFF) << 16u32) | (x & 0xFF)) >> 16u32 == y % 256) by (bit_vector);
    }
    bits
}

} // verus!
