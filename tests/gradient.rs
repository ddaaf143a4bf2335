use heatmap::buffer::convert;
use heatmap::color::{alpha, blue, green, pack, red, unpack};
use heatmap::gradient::{get_color, get_color_block, get_colors};
use heatmap::ramp::{anchor, ramp_colors, BLACK, BLUE, RAMP_LEN, SEGMENTS, WHITE};

fn rgb(p: u32) -> (u8, u8, u8) {
    (red(p), green(p), blue(p))
}

fn within_one(a: u32, b: u32) -> bool {
    let (ua, ub) = (unpack(a), unpack(b));
    let close = |x: u8, y: u8| (x as i32 - y as i32).abs() <= 1;
    close(ua.0, ub.0) && close(ua.1, ub.1) && close(ua.2, ub.2) && ua.3 == ub.3
}

#[test]
fn alpha_is_opaque_for_every_brightness() {
    for b in 0..=u16::MAX {
        assert_eq!(alpha(get_color(b)), 0xFF, "brightness {}", b);
    }
}

#[test]
fn darkest_is_first_anchor() {
    assert_eq!(get_color(0), ramp_colors()[0]);
    assert_eq!(get_color(0), BLACK);
}

#[test]
fn brightest_is_last_anchor() {
    let top = get_color(u16::MAX);
    assert_eq!(top, ramp_colors()[RAMP_LEN - 1]);
    assert_eq!(top, WHITE);
    assert_eq!(unpack(top), (0xFF, 0xFF, 0xFF, 0xFF));
}

#[test]
fn reference_ramp_scenario() {
    assert_eq!(ramp_colors().len(), 7);
    assert_eq!(SEGMENTS, 6);
    let black = get_color(0);
    assert_eq!(u32::from_be_bytes(convert(&[black]).try_into().unwrap()), 0x0000_00FF);
    let near_blue = get_color(10922);
    assert!(within_one(near_blue, BLUE));
    assert_eq!(rgb(near_blue), (0, 0, 254));
    assert_eq!(get_color(10923), BLUE);
    assert_eq!(get_color(u16::MAX), WHITE);
    assert_eq!(u32::from_be_bytes(convert(&[get_color(u16::MAX)]).try_into().unwrap()), 0xFFFF_FFFF);
    assert_eq!(u32::from_be_bytes(convert(&[BLUE]).try_into().unwrap()), 0x0000_FFFF);
    assert_eq!(u32::from_be_bytes(convert(&[WHITE]).try_into().unwrap()), 0xFFFF_FFFF);
}

#[test]
fn interpolation_rounds_down() {
    assert_eq!(rgb(get_color(5461)), (0, 0, 127));
    assert_eq!(rgb(get_color(32768)), (0, 255, 0));
    assert_eq!(rgb(get_color(65025)), (255, 243, 243));
    assert_eq!(rgb(get_color(65534)), (255, 254, 254));
}

#[test]
fn falling_channel_is_floored_not_truncated() {
    // Cyan to green: blue falls by 255 over the segment.
    assert_eq!(rgb(get_color(27306)), (0, 255, 127));
}

#[test]
fn segment_starts_hit_anchors() {
    // The smallest brightness of each segment lands on or next to its lower anchor.
    for i in 0..(RAMP_LEN - 1) {
        let b = ((i as u32 * 65536 + 5) / 6) as u16;
        assert!(within_one(get_color(b), anchor(i)), "segment {}", i);
    }
}

#[test]
fn channels_are_monotone_within_each_segment() {
    let mut prev: Option<(u32, u32)> = None;
    for b in 0..=u16::MAX {
        let seg = (b as u32 * SEGMENTS) >> 16;
        let c = get_color(b);
        if let Some((pseg, pc)) = prev {
            if pseg == seg {
                let lo = anchor(seg as usize);
                let hi = anchor(seg as usize + 1);
                for (f, name) in [(red as fn(u32) -> u8, "red"), (green, "green"), (blue, "blue")] {
                    if f(hi) >= f(lo) {
                        assert!(f(pc) <= f(c), "{} rises at {}", name, b);
                    } else {
                        assert!(f(pc) >= f(c), "{} falls at {}", name, b);
                    }
                }
            }
        }
        prev = Some((seg, c));
    }
}

#[test]
fn same_input_same_output() {
    for b in [0u16, 1, 1234, 10922, 40000, 65535] {
        assert_eq!(get_color(b), get_color(b));
    }
}

#[test]
fn batch_matches_scalar() {
    let values: Vec<u16> = (0..=u16::MAX).step_by(97).collect();
    let batch = get_colors(&values);
    assert_eq!(batch.len(), values.len());
    for (v, c) in values.iter().zip(batch.iter()) {
        assert_eq!(*c, get_color(*v));
    }
    let (a, b) = values.split_at(100);
    let mut joined = get_colors(a);
    joined.extend(get_colors(b));
    assert_eq!(joined, batch);
    assert!(get_colors(&[]).is_empty());
}

#[test]
fn block_matches_scalar() {
    let block: [u16; 8] = [0, 1, 10922, 10923, 27306, 32768, 65025, 65535];
    let out = get_color_block(&block);
    for i in 0..8 {
        assert_eq!(out[i], get_color(block[i]));
    }
    assert_eq!(out.to_vec(), get_colors(&block));
}

#[test]
fn pack_unpack_round_trip() {
    let samples = [0u8, 1, 2, 0x7F, 0x80, 0xAB, 0xFE, 0xFF];
    for &r in &samples {
        for &g in &samples {
            for &b in &samples {
                for &a in &samples {
                    assert_eq!(unpack(pack(r, g, b, a)), (r, g, b, a));
                }
            }
        }
    }
    assert_eq!(pack(0x11, 0x22, 0x33, 0x44), 0x4433_2211);
    assert_eq!(pack(0, 0, 0, 0xFF), BLACK);
    assert_eq!(pack(0, 0, 0xFF, 0xFF), BLUE);
}

#[test]
fn channel_readers_pick_their_byte() {
    let p: u32 = 0x4433_2211;
    assert_eq!((red(p), green(p), blue(p), alpha(p)), (0x11, 0x22, 0x33, 0x44));
}
