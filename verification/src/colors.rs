use vstd::prelude::*;

verus! {

/// The packed `0x00RRGGBB` value of three colour channels.
pub open spec fn packed_rgb(r: u8, g: u8, b: u8) -> u32 {
    ((r as int) * 0x10000 + (g as int) * 0x100 + (b as int)) as u32
}

/// Packs three 8-bit channels into the `0x00RRGGBB` layout used by frame buffers.
pub fn pack_rgb(r: u8, g: u8, b: u8) -> (res: u32)
    ensures
        res as int == (r as int) * 0x10000 + (g as int) * 0x100 + (b as int),
        res == packed_rgb(r, g, b),
{
    let rr: u32 = r as u32;
    let gg: u32 = g as u32;
    let bb: u32 = b as u32;
    assert((rr << 16u32) | (gg << 8u32) | bb == rr * 0x10000 + gg * 0x100 + bb) by (bit_vector)
        requires
            rr < 256,
            gg < 256,
            bb < 256,
    ;
    (rr << 16u32) | (gg << 8u32) | bb
}

/// Each channel can be read back from a packed colour: the top byte is zero,
/// and the red, green and blue bytes sit at bits 16, 8 and 0.
pub proof fn lemma_pack_rgb_channels(r: u8, g: u8, b: u8)
    ensures
        (packed_rgb(r, g, b) >> 16u32) & 0xffu32 == r as u32,
        (packed_rgb(r, g, b) >> 8u32) & 0xffu32 == g as u32,
        packed_rgb(r, g, b) & 0xffu32 == b as u32,
        packed_rgb(r, g, b) >> 24u32 == 0,
{
    let rr: u32 = r as u32;
    let gg: u32 = g as u32;
    let bb: u32 = b as u32;
    assert(((rr * 0x10000 + gg * 0x100 + bb) as u32 >> 16u32) & 0xffu32 == rr
        && ((rr * 0x10000 + gg * 0x100 + bb) as u32 >> 8u32) & 0xffu32 == gg
        && (rr * 0x10000 + gg * 0x100 + bb) as u32 & 0xffu32 == bb
        && (rr * 0x10000 + gg * 0x100 + bb) as u32 >> 24u32 == 0) by (bit_vector)
        requires
            rr < 256,
            gg < 256,
            bb < 256,
    ;
}

/// Distinct channel triples pack to distinct colours.
pub proof fn lemma_pack_rgb_injective(r1: u8, g1: u8, b1: u8, r2: u8, g2: u8, b2: u8)
    requires
        packed_rgb(r1, g1, b1) == packed_rgb(r2, g2, b2),
    ensures
        r1 == r2,
        g1 == g2,
        b1 == b2,
{
    lemma_pack_rgb_channels(r1, g1, b1);
    lemma_pack_rgb_channels(r2, g2, b2);
}

} // verus!
