//! The colour ramp: seven anchor colours spread evenly over the brightness
//! range, darkest first.
use vstd::prelude::*;

verus! {

pub const BLACK: u32 = 0xFF00_0000;

pub const BLUE: u32 = 0xFFFF_0000;

pub const CYAN: u32 = 0xFFFF_FF00;

pub const GREEN: u32 = 0xFF00_FF00;

pub const YELLOW: u32 = 0xFF00_FFFF;

pub const RED: u32 = 0xFF00_00FF;

pub const WHITE: u32 = 0xFFFF_FFFF;

/// Number of anchor colours.
pub const RAMP_LEN: usize = 7;

/// Number of segments between adjacent anchors.
pub const SEGMENTS: u32 = 6;

/// The anchors, in order along the brightness range.
pub open spec fn ramp() -> Seq<u32> {
    seq![BLACK, BLUE, CYAN, GREEN, YELLOW, RED, WHITE]
}

/// Anchor `i` of the ramp.
pub fn anchor(i: usize) -> (c: u32)
    requires
        i < RAMP_LEN,
    ensures
        c == ramp()[i as int],
{
    match i {
        0 => BLACK,
        1 => BLUE,
        2 => CYAN,
        3 => GREEN,
        4 => YELLOW,
        5 => RED,
        _ => WHITE,
    }
}

/// All anchors of the ramp, in order.
pub fn ramp_colors() -> (v: Vec<u32>)
    ensures
        v@ == ramp(),
{
    let v = vec![BLACK, BLUE, CYAN, GREEN, YELLOW, RED, WHITE];
    assert(v@ =~= ramp());
    v
}

} // verus!
