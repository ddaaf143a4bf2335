//! Byte buffers at the edge of the library: RGBA8 pixels in, packed
//! colours out as RGBA8 bytes, with every length checked.
use vstd::prelude::*;

use crate::color::{alpha, blue, channel, green, pack, packed, red};
use crate::gradient::{colors_of, get_colors};

verus! {

/// Why a byte buffer could not be read as pixels.
#[derive(Debug, Clone, Copy, PartialEq, Eq, Structural)]
pub enum BufferError {
    /// The buffer's length, which is not a multiple of four bytes.
    MalformedLength(usize),
}

/// Brightness of a pixel: the sum of its red, green and blue channels
/// scaled by 85, so that 0..=765 covers 0..=65025.
pub open spec fn brightness_value(r: u8, g: u8, b: u8) -> u16 {
    ((r as int + g as int + b as int) * 85) as u16
}

/// The bytes of a sequence of packed colours, each word little-endian:
/// R, G, B, A for every pixel.
pub open spec fn bytes_of(s: Seq<u32>) -> Seq<u8> {
    Seq::new(4 * s.len(), |i: int| channel(s[i / 4], i % 4))
}

/// The packed words that a buffer of RGBA8 bytes holds, four bytes each.
pub open spec fn words_of(b: Seq<u8>) -> Seq<u32> {
    Seq::new(b.len() / 4, |i: int| packed(b[4 * i], b[4 * i + 1], b[4 * i + 2], b[4 * i + 3]))
}

/// The brightness of each pixel of a buffer of RGBA8 bytes.
pub open spec fn brightness_of(b: Seq<u8>) -> Seq<u16> {
    Seq::new(b.len() / 4, |i: int| brightness_value(b[4 * i], b[4 * i + 1], b[4 * i + 2]))
}

/// The brightness of one pixel from its colour channels.
pub fn brightness(r: u8, g: u8, b: u8) -> (v: u16)
    ensures
        v == brightness_value(r, g, b),
        v as int == (r as int + g as int + b as int) * 85,
{
    (r as u16 + g as u16 + b as u16) * 85
}

/// Serialises packed colours into bytes, four per colour in the order
/// R, G, B, A.
pub fn convert(data: &[u32]) -> (out: Vec<u8>)
    ensures
        out@ == bytes_of(data@),
{
    let mut out: Vec<u8> = Vec::new();
    let mut i: usize = 0;
    while i < data.len()
        invariant
            i <= data@.len(),
            out@.len() == 4 * i,
            forall|j: int| 0 <= j < 4 * i ==> out@[j] == channel(data@[j / 4], j % 4),
        decreases data@.len() - i,
    {
        let p: u32 = data[i];
        out.push(red(p));
        out.push(green(p));
        out.push(blue(p));
        out.push(alpha(p));
        proof {
            let n = 4 * i as int;
            assert(n / 4 == i && n % 4 == 0);
            assert((n + 1) / 4 == i && (n + 1) % 4 == 1);
            assert((n + 2) / 4 == i && (n + 2) % 4 == 2);
            assert((n + 3) / 4 == i && (n + 3) % 4 == 3);
        }
        i += 1;
    }
    assert(out@ =~= bytes_of(data@));
    out
}

/// Reads a buffer of RGBA8 bytes as packed colours, four bytes each;
/// a length that is not a multiple of four is refused.
pub fn pixels_from_bytes(bytes: &[u8]) -> (r: Result<Vec<u32>, BufferError>)
    ensures
        r is Ok <==> bytes@.len() % 4 == 0,
        r matches Ok(w) ==> w@ == words_of(bytes@),
        r matches Err(e) ==> e == BufferError::MalformedLength(bytes@.len() as usize),
{
    let n: usize = bytes.len();
    if n % 4 != 0 {
        return Err(BufferError::MalformedLength(n));
    }
    let mut out: Vec<u32> = Vec::with_capacity(n / 4);
    let mut i: usize = 0;
    while i < n
        invariant
            n == bytes@.len(),
            n % 4 == 0,
            i % 4 == 0,
            i <= n,
            out@.len() == i / 4,
            forall|j: int|
                0 <= j < i / 4 ==> out@[j] == packed(
                    bytes@[4 * j],
                    bytes@[4 * j + 1],
                    bytes@[4 * j + 2],
                    bytes@[4 * j + 3],
                ),
        decreases n - i,
    {
        out.push(pack(bytes[i], bytes[i + 1], bytes[i + 2], bytes[i + 3]));
        i += 4;
    }
    assert(out@ =~= words_of(bytes@));
    Ok(out)
}

/// The brightness of every pixel of a buffer of RGBA8 bytes; alpha is
/// ignored. A length that is not a multiple of four is refused.
pub fn brightness_of_rgba(bytes: &[u8]) -> (r: Result<Vec<u16>, BufferError>)
    ensures
        r is Ok <==> bytes@.len() % 4 == 0,
        r matches Ok(v) ==> v@ == brightness_of(bytes@),
        r matches Err(e) ==> e == BufferError::MalformedLength(bytes@.len() as usize),
{
    let n: usize = bytes.len();
    if n % 4 != 0 {
        return Err(BufferError::MalformedLength(n));
    }
    let mut out: Vec<u16> = Vec::with_capacity(n / 4);
    let mut i: usize = 0;
    while i < n
        invariant
            n == bytes@.len(),
            n % 4 == 0,
            i % 4 == 0,
            i <= n,
            out@.len() == i / 4,
            forall|j: int|
                0 <= j < i / 4 ==> out@[j] == brightness_value(
                    bytes@[4 * j],
                    bytes@[4 * j + 1],
                    bytes@[4 * j + 2],
                ),
        decreases n - i,
    {
        out.push(brightness(bytes[i], bytes[i + 1], bytes[i + 2]));
        i += 4;
    }
    assert(out@ =~= brightness_of(bytes@));
    Ok(out)
}

/// Renders a buffer of RGBA8 pixels as its heat map, again as RGBA8 bytes:
/// each pixel's brightness is mapped through the ramp. A length that is
/// not a multiple of four is refused.
pub fn render_rgba(bytes: &[u8]) -> (r: Result<Vec<u8>, BufferError>)
    ensures
        r is Ok <==> bytes@.len() % 4 == 0,
        r matches Ok(out) ==> out@ == bytes_of(colors_of(brightness_of(bytes@))),
        r matches Err(e) ==> e == BufferError::MalformedLength(bytes@.len() as usize),
{
    match brightness_of_rgba(bytes) {
        Ok(values) => {
            let colors = get_colors(values.as_slice());
            Ok(convert(colors.as_slice()))
        },
        Err(e) => Err(e),
    }
}

/// Reading the bytes of a sequence of colours back as words gives that
/// sequence again.
pub proof fn lemma_words_of_bytes_of(s: Seq<u32>)
    ensures
        words_of(bytes_of(s)) == s,
{
    let b = bytes_of(s);
    assert forall|i: int| 0 <= i < s.len() implies #[trigger] words_of(b)[i] == s[i] by {
        assert((4 * i) / 4 == i && (4 * i) % 4 == 0);
        assert((4 * i + 1) / 4 == i && (4 * i + 1) % 4 == 1);
        assert((4 * i + 2) / 4 == i && (4 * i + 2) % 4 == 2);
        assert((4 * i + 3) / 4 == i && (4 * i + 3) % 4 == 3);
        crate::color::lemma_pack_unpack(s[i]);
    }
    assert(words_of(b) =~= s);
}

} // verus!
