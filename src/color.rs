use vstd::prelude::*;

verus! {

/// The 24-bit packed value `0x00RRGGBB` of three 8-bit channels.
pub open spec fn packed_rgb(r: u8, g: u8, b: u8) -> int {
    r as int * 65536 + g as int * 256 + b as int
}

/// Packs three 8-bit channels as `0x00RRGGBB`.
pub fn rgb_value(r: u8, g: u8, b: u8) -> (res: u32)
    ensures
        res as int == packed_rgb(r, g, b),
{
    let (r32, g32, b32) = (r as u32, g as u32, b as u32);
    assert((r32 << 16u32) | (g32 << 8u32) | b32 == r32 * 65536 + g32 * 256 + b32
        && r32 * 65536 + g32 * 256 + b32 < 0x1000000) by (bit_vector)
        requires
            r32 < 256,
            g32 < 256,
            b32 < 256,
    ;
    (r32 << 16u32) | (g32 << 8u32) | b32
}

} // verus!
