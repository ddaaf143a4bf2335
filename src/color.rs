//! Packed colours: one 32-bit word holding red in bits 0..8, green in
//! 8..16, blue in 16..24 and alpha in 24..32. Written out little-endian,
//! the bytes of a word come in the order R, G, B, A.
use vstd::prelude::*;

verus! {

/// Channel `k` of a packed colour: 0 is red, 1 green, 2 blue, 3 alpha.
pub open spec fn channel(p: u32, k: int) -> u8 {
    ((p as int / pow256(k)) % 256) as u8
}

/// 256 to the power `k`, for `k` in 0..4.
pub open spec fn pow256(k: int) -> int {
    if k <= 0 {
        1
    } else if k == 1 {
        0x100
    } else if k == 2 {
        0x1_0000
    } else {
        0x100_0000
    }
}

/// The word whose channels are `r`, `g`, `b` and `a`.
pub open spec fn packed(r: u8, g: u8, b: u8, a: u8) -> u32 {
    (r as int + g as int * 0x100 + b as int * 0x1_0000 + a as int * 0x100_0000) as u32
}

/// Packs four channels into one word.
pub fn pack(r: u8, g: u8, b: u8, a: u8) -> (p: u32)
    ensures
        p == packed(r, g, b, a),
{
    let p: u32 = ((a as u32) << 24) | ((b as u32) << 16) | ((g as u32) << 8) | (r as u32);
    assert(((a as u32) << 24) | ((b as u32) << 16) | ((g as u32) << 8) | (r as u32)
        == r as u32 + g as u32 * 0x100 + b as u32 * 0x1_0000 + a as u32 * 0x100_0000) by (bit_vector);
    p
}

/// The red channel of a packed colour.
pub fn red(p: u32) -> (c: u8)
    ensures
        c == channel(p, 0),
{
    assert(p & 0xFF == p % 256) by (bit_vector);
    (p & 0xFF) as u8
}

/// The green channel of a packed colour.
pub fn green(p: u32) -> (c: u8)
    ensures
        c == channel(p, 1),
{
    assert((p >> 8) & 0xFF == (p / 0x100) % 256) by (bit_vector);
    ((p >> 8) & 0xFF) as u8
}

/// The blue channel of a packed colour.
pub fn blue(p: u32) -> (c: u8)
    ensures
        c == channel(p, 2),
{
    assert((p >> 16) & 0xFF == (p / 0x1_0000) % 256) by (bit_vector);
    ((p >> 16) & 0xFF) as u8
}

/// The alpha channel of a packed colour.
pub fn alpha(p: u32) -> (c: u8)
    ensures
        c == channel(p, 3),
{
    assert(p >> 24 == (p / 0x100_0000) % 256) by (bit_vector);
    (p >> 24) as u8
}

/// Splits a packed colour into its channels `(r, g, b, a)`.
pub fn unpack(p: u32) -> (c: (u8, u8, u8, u8))
    ensures
        c == (channel(p, 0), channel(p, 1), channel(p, 2), channel(p, 3)),
{
    (red(p), green(p), blue(p), alpha(p))
}

/// Unpacking a packed word gives back the four channels it was made of.
pub proof fn lemma_unpack_pack(r: u8, g: u8, b: u8, a: u8)
    ensures
        channel(packed(r, g, b, a), 0) == r,
        channel(packed(r, g, b, a), 1) == g,
        channel(packed(r, g, b, a), 2) == b,
        channel(packed(r, g, b, a), 3) == a,
{
    let s: int = r as int + g as int * 0x100 + b as int * 0x1_0000 + a as int * 0x100_0000;
    assert(s < 0x1_0000_0000);
    assert(packed(r, g, b, a) as int == s);
    assert({
        let t = r as u32 + g as u32 * 0x100 + b as u32 * 0x1_0000 + a as u32 * 0x100_0000;
        t % 256 == r && (t / 0x100) % 256 == g && (t / 0x1_0000) % 256 == b
            && (t / 0x100_0000) % 256 == a
    }) by (bit_vector);
}

/// Packing the four channels of a word gives back that word.
pub proof fn lemma_pack_unpack(p: u32)
    ensures
        packed(channel(p, 0), channel(p, 1), channel(p, 2), channel(p, 3)) == p,
{
    assert({
        let t = (p % 256) as u8 as u32 + ((p / 0x100) % 256) as u8 as u32 * 0x100
            + ((p / 0x1_0000) % 256) as u8 as u32 * 0x1_0000
            + ((p / 0x100_0000) % 256) as u8 as u32 * 0x100_0000;
        t < 0x1_0000_0000 && t == p
    }) by (bit_vector);
}

} // verus!
