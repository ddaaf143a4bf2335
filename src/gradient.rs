//! Maps a 16-bit brightness to a colour of the ramp by fixed-point linear
//! interpolation between the two anchors that bound its segment.
use vstd::prelude::*;

use crate::color::{channel, lemma_pack_unpack, lemma_unpack_pack, pack, packed, red, green, blue};
use crate::ramp::{anchor, ramp, RAMP_LEN, SEGMENTS};

verus! {

/// The brightness scaled by the segment count: its integer part (over
/// 2^16) picks the segment, its low 16 bits are the position inside it.
pub open spec fn scaled(b: u16) -> int {
    b as int * SEGMENTS as int
}

/// Index of the segment that holds brightness `b`: the lower anchor.
pub open spec fn segment(b: u16) -> int {
    scaled(b) / 0x1_0000
}

/// Position of `b` inside its segment, as a fraction over 2^16.
pub open spec fn fraction(b: u16) -> int {
    scaled(b) % 0x1_0000
}

/// `lo` moved towards `hi` by `f / 2^16` of the way, rounded down.
pub open spec fn lerp(lo: u8, hi: u8, f: int) -> int {
    lo as int + ((hi as int - lo as int) * f) / 0x1_0000
}

/// Channel `k` of the colour for brightness `b`.
pub open spec fn interpolated(b: u16, k: int) -> u8 {
    lerp(channel(ramp()[segment(b)], k), channel(ramp()[segment(b) + 1], k), fraction(b)) as u8
}

/// The colour for brightness `b`: the three interpolated channels, opaque.
/// The brightest value is the last anchor itself, which the interpolation
/// would otherwise stop just short of.
pub open spec fn brightness_color(b: u16) -> u32 {
    if b == 0xFFFF {
        ramp()[RAMP_LEN - 1]
    } else {
        packed(interpolated(b, 0), interpolated(b, 1), interpolated(b, 2), 0xFF)
    }
}

/// The segment index always names an anchor that has a successor.
pub proof fn lemma_segment_in_range(b: u16)
    ensures
        0 <= segment(b) < RAMP_LEN - 1,
        0 <= fraction(b) < 0x1_0000,
{
    assert(0 <= scaled(b) < 6 * 0x1_0000);
}

/// An interpolated channel lies between its two anchors' channels.
pub proof fn lemma_lerp_between(lo: u8, hi: u8, f: int)
    requires
        0 <= f < 0x1_0000,
    ensures
        lo <= hi ==> lo <= lerp(lo, hi, f) <= hi,
        hi < lo ==> hi <= lerp(lo, hi, f) <= lo,
{
    let d = hi as int - lo as int;
    if d >= 0 {
        assert(0 <= d * f <= d * 0x1_0000) by (nonlinear_arith)
            requires 0 <= d, 0 <= f < 0x1_0000;
        assert(0 <= (d * f) / 0x1_0000 <= d) by (nonlinear_arith)
            requires 0 <= d * f <= d * 0x1_0000;
    } else {
        assert(d * 0x1_0000 <= d * f <= 0) by (nonlinear_arith)
            requires d < 0, 0 <= f < 0x1_0000;
        assert(d <= (d * f) / 0x1_0000 <= 0) by (nonlinear_arith)
            requires d * 0x1_0000 <= d * f <= 0;
    }
}

/// One channel moved from `lo` towards `hi` by `f / 2^16`, rounded down.
fn lerp_channel(lo: u8, hi: u8, f: u32) -> (c: u8)
    requires
        f < 0x1_0000,
    ensures
        c as int == lerp(lo, hi, f as int),
{
    let delta: i32 = hi as i32 - lo as i32;
    assert(-255 * 0x1_0000 <= delta * f <= 255 * 0x1_0000) by (nonlinear_arith)
        requires -255 <= delta <= 255, f < 0x1_0000;
    let prod: i32 = delta * (f as i32);
    let step: i32 = prod >> 16;
    assert((prod >> 16) as int == prod as int / 0x1_0000) by (bit_vector);
    proof {
        lemma_lerp_between(lo, hi, f as int);
    }
    (lo as i32 + step) as u8
}

/// The ramp colour for one brightness value.
pub fn get_color(value: u16) -> (c: u32)
    ensures
        c == brightness_color(value),
        value == 0xFFFF ==> c == ramp()[RAMP_LEN - 1],
        value != 0xFFFF ==> channel(c, 0) == interpolated(value, 0),
        value != 0xFFFF ==> channel(c, 1) == interpolated(value, 1),
        value != 0xFFFF ==> channel(c, 2) == interpolated(value, 2),
        channel(c, 3) == 0xFF,
{
    proof {
        lemma_unpack_pack(interpolated(value, 0), interpolated(value, 1), interpolated(value, 2), 0xFF);
        assert(channel(ramp()[RAMP_LEN - 1], 3) == 0xFF);
    }
    if value == 0xFFFF {
        return anchor(RAMP_LEN - 1);
    }
    let scaled: u32 = value as u32 * SEGMENTS;
    let index: usize = (scaled >> 16) as usize;
    let frac: u32 = scaled & 0xFFFF;
    assert(scaled >> 16 == scaled / 0x1_0000 && scaled & 0xFFFF == scaled % 0x1_0000)
        by (bit_vector);
    proof {
        lemma_segment_in_range(value);
    }
    let lo: u32 = anchor(index);
    let hi: u32 = anchor(index + 1);
    let r: u8 = lerp_channel(red(lo), red(hi), frac);
    let g: u8 = lerp_channel(green(lo), green(hi), frac);
    let b: u8 = lerp_channel(blue(lo), blue(hi), frac);
    pack(r, g, b, 0xFF)
}

/// The darkest brightness gives the first anchor exactly.
pub proof fn lemma_first_anchor()
    ensures
        brightness_color(0) == ramp()[0],
{
    let p = ramp()[0];
    assert(segment(0) == 0 && fraction(0) == 0);
    assert forall|k: int| 0 <= k < 3 implies interpolated(0, k) == channel(p, k) by {}
    assert(channel(p, 3) == 0xFF);
    lemma_pack_unpack(p);
}

/// The brightest value gives the last anchor exactly.
pub proof fn lemma_last_anchor()
    ensures
        brightness_color(0xFFFF) == ramp()[RAMP_LEN - 1],
{
}

/// Within one segment each channel moves monotonically with brightness:
/// up where the upper anchor's channel is the larger, down where it is the
/// smaller.
pub proof fn lemma_monotone_in_segment(b1: u16, b2: u16, k: int)
    requires
        segment(b1) == segment(b2),
        b1 <= b2,
        0 <= k < 3,
    ensures
        channel(ramp()[segment(b1)], k) <= channel(ramp()[segment(b1) + 1], k) ==> channel(
            brightness_color(b1),
            k,
        ) <= channel(brightness_color(b2), k),
        channel(ramp()[segment(b1)], k) >= channel(ramp()[segment(b1) + 1], k) ==> channel(
            brightness_color(b1),
            k,
        ) >= channel(brightness_color(b2), k),
{
    lemma_segment_in_range(b1);
    lemma_segment_in_range(b2);
    lemma_unpack_pack(interpolated(b1, 0), interpolated(b1, 1), interpolated(b1, 2), 0xFF);
    lemma_unpack_pack(interpolated(b2, 0), interpolated(b2, 1), interpolated(b2, 2), 0xFF);
    let lo = channel(ramp()[segment(b1)], k);
    let hi = channel(ramp()[segment(b1) + 1], k);
    let f1 = fraction(b1);
    let f2 = fraction(b2);
    assert(f1 <= f2);
    lemma_lerp_between(lo, hi, f1);
    lemma_lerp_between(lo, hi, f2);
    let d = hi as int - lo as int;
    if b2 == 0xFFFF {
        assert(segment(b2) == RAMP_LEN - 2);
        assert(channel(brightness_color(b2), k) == hi);
    } else if d >= 0 {
        assert(d * f1 <= d * f2) by (nonlinear_arith)
            requires 0 <= d, f1 <= f2;
        vstd::arithmetic::div_mod::lemma_div_is_ordered(d * f1, d * f2, 0x1_0000);
    } else {
        assert(d * f2 <= d * f1) by (nonlinear_arith)
            requires d < 0, f1 <= f2;
        vstd::arithmetic::div_mod::lemma_div_is_ordered(d * f2, d * f1, 0x1_0000);
    }
}

/// The colours of a sequence of brightness values, one for each.
pub open spec fn colors_of(s: Seq<u16>) -> Seq<u32> {
    s.map_values(|b: u16| brightness_color(b))
}

/// Mapping a batch gives, at every position, the colour of the value
/// there taken alone.
pub proof fn lemma_batch_is_elementwise(s: Seq<u16>)
    ensures
        colors_of(s).len() == s.len(),
        forall|i: int| 0 <= i < s.len() ==> #[trigger] colors_of(s)[i] == brightness_color(s[i]),
{
}

/// Mapping a sequence in two parts and joining the results is the same as
/// mapping it whole, so batches can be cut anywhere.
pub proof fn lemma_batch_split(s1: Seq<u16>, s2: Seq<u16>)
    ensures
        colors_of(s1 + s2) == colors_of(s1) + colors_of(s2),
{
    assert(colors_of(s1 + s2) =~= colors_of(s1) + colors_of(s2));
}

/// The colours of any number of brightness values.
pub fn get_colors(values: &[u16]) -> (out: Vec<u32>)
    ensures
        out@ == colors_of(values@),
{
    let mut out: Vec<u32> = Vec::with_capacity(values.len());
    let mut i: usize = 0;
    while i < values.len()
        invariant
            i <= values@.len(),
            out@.len() == i,
            forall|j: int| 0 <= j < i ==> out@[j] == brightness_color(values@[j]),
        decreases values@.len() - i,
    {
        out.push(get_color(values[i]));
        i += 1;
    }
    assert(out@ =~= colors_of(values@));
    out
}

/// The colours of a block of eight brightness values.
pub fn get_color_block(values: &[u16; 8]) -> (out: [u32; 8])
    ensures
        out@ == colors_of(values@),
{
    let mut out: [u32; 8] = [0u32; 8];
    let mut i: usize = 0;
    while i < 8
        invariant
            i <= 8,
            values@.len() == 8,
            out@.len() == 8,
            forall|j: int| 0 <= j < i ==> out@[j] == brightness_color(values@[j]),
        decreases 8 - i,
    {
        out[i] = get_color(values[i]);
        i += 1;
    }
    assert(out@ =~= colors_of(values@));
    out
}

} // verus!
