//! Conversion of a received framebuffer in any GUD pixel format to 32-bit
//! `0xAARRGGBB` pixels.
use vstd::prelude::*;
use crate::formats::PixelFormat;

verus! {

/// Packs the four channels as `0xAARRGGBB`.
pub open spec fn argb(a: u8, r: u8, g: u8, b: u8) -> u32 {
    ((a as u32) << 24u32) | ((r as u32) << 16u32) | ((g as u32) << 8u32) | (b as u32)
}

/// Each channel can be read back from the packed pixel.
pub proof fn lemma_argb_channels(a: u8, r: u8, g: u8, b: u8)
    ensures
        argb(a, r, g, b) >> 24u32 == a as u32,
        (argb(a, r, g, b) >> 16u32) & 0xffu32 == r as u32,
        (argb(a, r, g, b) >> 8u32) & 0xffu32 == g as u32,
        argb(a, r, g, b) & 0xffu32 == b as u32,
{
    assert(((a as u32) << 24u32 | (r as u32) << 16u32 | (g as u32) << 8u32 | (b as u32))
        >> 24u32 == a as u32) by (bit_vector);
    assert((((a as u32) << 24u32 | (r as u32) << 16u32 | (g as u32) << 8u32 | (b as u32))
        >> 16u32) & 0xffu32 == r as u32) by (bit_vector);
    assert((((a as u32) << 24u32 | (r as u32) << 16u32 | (g as u32) << 8u32 | (b as u32))
        >> 8u32) & 0xffu32 == g as u32) by (bit_vector);
    assert(((a as u32) << 24u32 | (r as u32) << 16u32 | (g as u32) << 8u32 | (b as u32))
        & 0xffu32 == b as u32) by (bit_vector);
}

/// Number of pixels an input of `len` bytes holds: the byte length divided
/// by the bytes per pixel, rounded to the nearest integer, halves up.
pub open spec fn pixel_count(fmt: PixelFormat, len: nat) -> nat {
    match fmt {
        PixelFormat::R1 => len * 8,
        PixelFormat::XRGB1111 => len * 2,
        PixelFormat::R8 | PixelFormat::RGB332 => len,
        PixelFormat::RGB565 => (len + 1) / 2,
        PixelFormat::RGB888 => (2 * len + 3) / 6,
        PixelFormat::XRGB8888 | PixelFormat::ARGB8888 => (len + 2) / 4,
    }
}

/// Whether rounding the pixel count leaves no partial pixel to read past the
/// end of an input of `len` bytes.
pub open spec fn whole_pixels(fmt: PixelFormat, len: nat) -> bool {
    match fmt {
        PixelFormat::RGB565 => len % 2 == 0,
        PixelFormat::RGB888 => len % 3 != 2,
        PixelFormat::XRGB8888 | PixelFormat::ARGB8888 => len % 4 < 2,
        _ => true,
    }
}

/// Whether an input of `len` bytes can be converted: it holds whole pixels
/// and its pixel count is addressable.
pub fn convertible(fmt: PixelFormat, len: usize) -> (r: bool)
    ensures
        r == (len <= usize::MAX / 8 && whole_pixels(fmt, len as nat)),
{
    if len > usize::MAX / 8 {
        return false;
    }
    match fmt {
        PixelFormat::RGB565 => len % 2 == 0,
        PixelFormat::RGB888 => len % 3 != 2,
        PixelFormat::XRGB8888 | PixelFormat::ARGB8888 => len % 4 < 2,
        _ => true,
    }
}

/// Channels `(a, r, g, b)` of pixel `i` of `input` in format `fmt`.
pub open spec fn channels(fmt: PixelFormat, input: Seq<u8>, i: int) -> (u8, u8, u8, u8) {
    match fmt {
        PixelFormat::R1 => {
            let bit = (input[i / 8] >> ((i % 8) as u8)) & 1u8;
            let v: u8 = if bit == 1 { 0xff } else { 0 };
            (0xff, v, v, v)
        },
        PixelFormat::R8 => (0xff, input[i], input[i], input[i]),
        PixelFormat::XRGB1111 => {
            let v = (input[i / 2] >> (((i % 2) * 4) as u8)) & 0x0fu8;
            (0xff, ((v & 0x04u8) << 5u8) as u8, ((v & 0x02u8) << 6u8) as u8, ((v & 0x01u8)
                << 7u8) as u8)
        },
        PixelFormat::RGB332 => {
            let byte = input[i];
            (0xff, byte & 0xe0u8, (byte << 3u8) & 0xe0u8, (byte << 6u8) & 0xc0u8)
        },
        PixelFormat::RGB565 => {
            let raw: u16 = ((input[2 * i + 1] as u16) << 8u16) | (input[2 * i] as u16);
            (
                0xff,
                ((raw >> 8u16) & 0xf8u16) as u8,
                ((raw >> 3u16) & 0xfcu16) as u8,
                ((raw << 3u16) & 0xf8u16) as u8,
            )
        },
        PixelFormat::RGB888 => (0xff, input[3 * i + 2], input[3 * i + 1], input[3 * i]),
        PixelFormat::XRGB8888 => (0xff, input[4 * i + 3], input[4 * i + 2], input[4 * i + 1]),
        PixelFormat::ARGB8888 => (input[4 * i], input[4 * i + 3], input[4 * i + 2], input[4 * i
            + 1]),
    }
}

/// Pixel `i` of `input` in format `fmt`, as `0xAARRGGBB`.
pub open spec fn pixel(fmt: PixelFormat, input: Seq<u8>, i: int) -> u32 {
    let (a, r, g, b) = channels(fmt, input, i);
    argb(a, r, g, b)
}

/// A packed pixel is the weighted sum of its channels.
pub proof fn lemma_argb_value(a: u8, r: u8, g: u8, b: u8)
    ensures
        argb(a, r, g, b) as int == 0x100_0000 * a + 0x1_0000 * r + 0x100 * g + b,
{
    assert(((a as u32) << 24u32 | (r as u32) << 16u32 | (g as u32) << 8u32 | (b as u32)) as int
        == 0x100_0000 * (a as int) + 0x1_0000 * (r as int) + 0x100 * (g as int) + (b as int))
        by (bit_vector);
}

/// The value of every converted pixel, as a sum of channel weights, read
/// straight from the input bytes:
/// - R1: bit `i % 8` of byte `i / 8` gives white or black;
/// - R8: the byte is the grey level of all three channels;
/// - XRGB1111: the low nibble of byte `i / 2` for even `i`, the high one for
///   odd `i`; its bits 2, 1, 0 light red, green, blue at half intensity;
/// - RGB332: red is the top three bits, green the next three, blue the last
///   two, each moved to the top of its channel;
/// - RGB565: in the little-endian word of bytes `2i, 2i+1`, red is the top
///   five bits, green the middle six, blue the low five, each moved to the
///   top of its channel;
/// - RGB888: bytes blue, green, red;
/// - XRGB8888: a padding byte, then blue, green, red;
/// - ARGB8888: alpha, then blue, green, red.
/// Every format but ARGB8888 is opaque.
pub proof fn lemma_pixel_values(fmt: PixelFormat, input: Seq<u8>, i: int)
    requires
        whole_pixels(fmt, input.len()),
        0 <= i < pixel_count(fmt, input.len()),
    ensures
        pixel(fmt, input, i) as int == match fmt {
            PixelFormat::R1 => if input[i / 8] & (1u8 << ((i % 8) as u8)) != 0 {
                0xffff_ffff
            } else {
                0xff00_0000
            },
            PixelFormat::R8 => 0xff00_0000 + 0x01_0101 * input[i],
            PixelFormat::XRGB1111 => {
                let n: int = if i % 2 == 0 {
                    (input[i / 2] % 16) as int
                } else {
                    (input[i / 2] / 16) as int
                };
                0xff00_0000 + 0x80_0000 * ((n / 4) % 2) + 0x8000 * ((n / 2) % 2) + 0x80 * (n % 2)
            },
            PixelFormat::RGB332 => {
                let b: int = input[i] as int;
                0xff00_0000 + 0x1_0000 * (b / 32 * 32) + 0x100 * ((b / 4) % 8 * 32) + (b % 4) * 64
            },
            PixelFormat::RGB565 => {
                let w: int = input[2 * i] + 256 * input[2 * i + 1];
                0xff00_0000 + 0x1_0000 * (w / 2048 * 8) + 0x100 * ((w / 32) % 64 * 4) + (w % 32)
                    * 8
            },
            PixelFormat::RGB888 => 0xff00_0000 + 0x1_0000 * input[3 * i + 2] + 0x100 * input[3 * i
                + 1] + input[3 * i],
            PixelFormat::XRGB8888 => 0xff00_0000 + 0x1_0000 * input[4 * i + 3] + 0x100 * input[4
                * i + 2] + input[4 * i + 1],
            PixelFormat::ARGB8888 => 0x100_0000 * input[4 * i] + 0x1_0000 * input[4 * i + 3]
                + 0x100 * input[4 * i + 2] + input[4 * i + 1],
        },
{
    let (a, r, g, b) = channels(fmt, input, i);
    lemma_argb_value(a, r, g, b);
    lemma_pixel_in_bounds(fmt, input.len(), i);
    match fmt {
        PixelFormat::R1 => {
            let byte = input[i / 8];
            let k = (i % 8) as u8;
            assert(k < 8);
            assert(((byte >> k) & 1u8 == 1u8) == (byte & (1u8 << k) != 0u8)) by (bit_vector)
                requires
                    k < 8,
            ;
        },
        PixelFormat::XRGB1111 => {
            let byte = input[i / 2];
            let k = ((i % 2) * 4) as u8;
            let v = (byte >> k) & 0x0fu8;
            if i % 2 == 0 {
                assert(k == 0);
                assert((byte >> 0u8) & 0x0fu8 == byte % 16) by (bit_vector);
            } else {
                assert(k == 4);
                assert((byte >> 4u8) & 0x0fu8 == byte / 16) by (bit_vector);
            }
            assert(v < 16 ==> (v & 0x04u8) << 5u8 == 0x80 * ((v / 4) % 2) && (v & 0x02u8) << 6u8
                == 0x80 * ((v / 2) % 2) && (v & 0x01u8) << 7u8 == 0x80 * (v % 2)) by (bit_vector);
        },
        PixelFormat::RGB332 => {
            let byte = input[i];
            assert(byte & 0xe0u8 == byte / 32 * 32 && (byte << 3u8) & 0xe0u8 == (byte / 4) % 8 * 32
                && (byte << 6u8) & 0xc0u8 == (byte % 4) * 64) by (bit_vector);
        },
        PixelFormat::RGB565 => {
            let lo = input[2 * i];
            let hi = input[2 * i + 1];
            let raw: u16 = ((hi as u16) << 8u16) | (lo as u16);
            assert(raw as int == lo + 256 * hi) by (bit_vector)
                requires
                    raw == ((hi as u16) << 8u16) | (lo as u16),
            ;
            assert(((raw >> 8u16) & 0xf8u16) as u8 as int == raw / 2048 * 8 && ((raw >> 3u16)
                & 0xfcu16) as u8 as int == (raw / 32) % 64 * 4 && ((raw << 3u16) & 0xf8u16) as u8
                as int == (raw % 32) * 8) by (bit_vector);
        },
        _ => {},
    }
}

/// Every format but ARGB8888 converts to fully opaque pixels (alpha 0xFF).
pub proof fn lemma_opaque_unless_argb(fmt: PixelFormat, input: Seq<u8>, i: int)
    requires
        fmt != PixelFormat::ARGB8888,
    ensures
        pixel(fmt, input, i) >> 24u32 == 0xffu32,
{
    let (a, r, g, b) = channels(fmt, input, i);
    lemma_argb_channels(a, r, g, b);
}

/// Every byte that pixel `i < pixel_count` reads lies inside the input.
proof fn lemma_pixel_in_bounds(fmt: PixelFormat, len: nat, i: int)
    requires
        whole_pixels(fmt, len),
        0 <= i < pixel_count(fmt, len),
    ensures
        match fmt {
            PixelFormat::R1 => i / 8 < len,
            PixelFormat::XRGB1111 => i / 2 < len,
            PixelFormat::R8 | PixelFormat::RGB332 => i < len,
            PixelFormat::RGB565 => 2 * i + 1 < len,
            PixelFormat::RGB888 => 3 * i + 2 < len,
            PixelFormat::XRGB8888 | PixelFormat::ARGB8888 => 4 * i + 3 < len,
        },
{
    match fmt {
        PixelFormat::RGB565 => {
            assert(2 * i + 1 < len) by (nonlinear_arith)
                requires
                    len % 2 == 0,
                    0 <= i < (len + 1) / 2,
            ;
        },
        PixelFormat::RGB888 => {
            assert(3 * i + 2 < len) by (nonlinear_arith)
                requires
                    len % 3 != 2,
                    0 <= i < (2 * len + 3) / 6,
            ;
        },
        PixelFormat::XRGB8888 | PixelFormat::ARGB8888 => {
            assert(4 * i + 3 < len) by (nonlinear_arith)
                requires
                    len % 4 < 2,
                    0 <= i < (len + 2) / 4,
            ;
        },
        _ => {},
    }
}

/// Number of pixels in `len` bytes of format `fmt` (see [`pixel_count`]).
pub fn num_pixels(fmt: PixelFormat, len: usize) -> (r: usize)
    requires
        len <= usize::MAX / 8,
    ensures
        r == pixel_count(fmt, len as nat),
{
    match fmt {
        PixelFormat::R1 => len * 8,
        PixelFormat::XRGB1111 => len * 2,
        PixelFormat::R8 | PixelFormat::RGB332 => len,
        PixelFormat::RGB565 => (len + 1) / 2,
        PixelFormat::RGB888 => (2 * len + 3) / 6,
        PixelFormat::XRGB8888 | PixelFormat::ARGB8888 => (len + 2) / 4,
    }
}

fn pack(a: u8, r: u8, g: u8, b: u8) -> (p: u32)
    ensures
        p == argb(a, r, g, b),
{
    ((a as u32) << 24u32) | ((r as u32) << 16u32) | ((g as u32) << 8u32) | (b as u32)
}

fn pixel_at(fmt: PixelFormat, input: &[u8], i: usize) -> (p: u32)
    requires
        input@.len() <= usize::MAX / 8,
        whole_pixels(fmt, input@.len()),
        i < pixel_count(fmt, input@.len()),
    ensures
        p == pixel(fmt, input@, i as int),
{
    proof {
        lemma_pixel_in_bounds(fmt, input@.len(), i as int);
    }
    match fmt {
        PixelFormat::R1 => {
            let byte = input[i / 8];
            let bit = (byte >> ((i % 8) as u8)) & 1u8;
            let v: u8 = if bit == 1 { 0xff } else { 0 };
            pack(0xff, v, v, v)
        },
        PixelFormat::R8 => {
            let v = input[i];
            pack(0xff, v, v, v)
        },
        PixelFormat::XRGB1111 => {
            let byte = input[i / 2];
            let v = (byte >> (((i % 2) * 4) as u8)) & 0x0fu8;
            pack(0xff, (v & 0x04u8) << 5u8, (v & 0x02u8) << 6u8, (v & 0x01u8) << 7u8)
        },
        PixelFormat::RGB332 => {
            let byte = input[i];
            pack(0xff, byte & 0xe0u8, (byte << 3u8) & 0xe0u8, (byte << 6u8) & 0xc0u8)
        },
        PixelFormat::RGB565 => {
            let lo = input[2 * i] as u16;
            let hi = input[2 * i + 1] as u16;
            let raw: u16 = (hi << 8u16) | lo;
            pack(
                0xff,
                ((raw >> 8u16) & 0xf8u16) as u8,
                ((raw >> 3u16) & 0xfcu16) as u8,
                ((raw << 3u16) & 0xf8u16) as u8,
            )
        },
        PixelFormat::RGB888 => pack(0xff, input[3 * i + 2], input[3 * i + 1], input[3 * i]),
        PixelFormat::XRGB8888 => pack(0xff, input[4 * i + 3], input[4 * i + 2], input[4 * i + 1]),
        PixelFormat::ARGB8888 => pack(input[4 * i], input[4 * i + 3], input[4 * i + 2], input[4
            * i + 1]),
    }
}

/// Converts a framebuffer in `pix_format` to `0xAARRGGBB` pixels, one per
/// pixel the input holds.
pub fn convert_buffer(pix_format: PixelFormat, input: &[u8]) -> (output: Vec<u32>)
    requires
        input@.len() <= usize::MAX / 8,
        whole_pixels(pix_format, input@.len()),
    ensures
        output@.len() == pixel_count(pix_format, input@.len()),
        forall|i: int|
            0 <= i < output@.len() ==> #[trigger] output@[i] == pixel(pix_format, input@, i),
{
    let n = num_pixels(pix_format, input.len());
    let mut output: Vec<u32> = Vec::with_capacity(n);
    let mut i: usize = 0;
    while i < n
        invariant
            n == pixel_count(pix_format, input@.len()),
            input@.len() <= usize::MAX / 8,
            whole_pixels(pix_format, input@.len()),
            i <= n,
            output@.len() == i,
            forall|j: int| 0 <= j < i ==> #[trigger] output@[j] == pixel(pix_format, input@, j),
        decreases n - i,
    {
        let p = pixel_at(pix_format, input, i);
        output.push(p);
        i = i + 1;
    }
    output
}

/// Bytes per pixel, rounded up to whole bytes: the unit an input must be a
/// multiple of for its pixels to start on byte boundaries.
pub open spec fn pixel_unit(fmt: PixelFormat) -> nat {
    match fmt {
        PixelFormat::RGB565 => 2,
        PixelFormat::RGB888 => 3,
        PixelFormat::XRGB8888 | PixelFormat::ARGB8888 => 4,
        _ => 1,
    }
}

proof fn lemma_whole_units(fmt: PixelFormat, len: nat)
    requires
        len % pixel_unit(fmt) == 0,
    ensures
        whole_pixels(fmt, len),
        pixel_count(fmt, len) == match fmt {
            PixelFormat::R1 => len * 8,
            PixelFormat::XRGB1111 => len * 2,
            _ => len / pixel_unit(fmt),
        },
        pixel_unit(fmt) * pixel_count(fmt, len) == match fmt {
            PixelFormat::R1 => pixel_unit(fmt) * len * 8,
            PixelFormat::XRGB1111 => pixel_unit(fmt) * len * 2,
            _ => len,
        },
{
    match fmt {
        PixelFormat::RGB565 => {
            assert((len + 1) / 2 == len / 2 && 2 * (len / 2) == len) by (nonlinear_arith)
                requires
                    len % 2 == 0,
            ;
        },
        PixelFormat::RGB888 => {
            assert((2 * len + 3) / 6 == len / 3 && 3 * (len / 3) == len) by (nonlinear_arith)
                requires
                    len % 3 == 0,
            ;
        },
        PixelFormat::XRGB8888 | PixelFormat::ARGB8888 => {
            assert((len + 2) / 4 == len / 4 && 4 * (len / 4) == len) by (nonlinear_arith)
                requires
                    len % 4 == 0,
            ;
        },
        _ => {},
    }
}

proof fn lemma_shifted_div(n: int, d: int, j: int)
    requires
        0 < d,
        0 <= j,
        0 <= n,
    ensures
        (d * n + j) / d == n + j / d,
        (d * n + j) % d == j % d,
{
    vstd::arithmetic::div_mod::lemma_fundamental_div_mod(j, d);
    vstd::arithmetic::div_mod::lemma_mod_bound(j, d);
    assert(d * n + j == (n + j / d) * d + j % d) by (nonlinear_arith)
        requires
            j == d * (j / d) + j % d,
    ;
    vstd::arithmetic::div_mod::lemma_fundamental_div_mod_converse(d * n + j, d, n + j / d, j % d);
}

/// An input of whole pixels holds as many pixels as its bits divided by the
/// format's bits per pixel.
pub proof fn lemma_pixel_count_is_bits_per_pixel(fmt: PixelFormat, len: nat)
    requires
        len % pixel_unit(fmt) == 0,
    ensures
        pixel_count(fmt, len) * fmt.spec_bpp() == 8 * len,
{
    lemma_whole_units(fmt, len);
    let n = pixel_count(fmt, len);
    match fmt {
        PixelFormat::R1 => assert(n * 1 == 8 * len),
        PixelFormat::XRGB1111 => assert(n * 4 == 8 * len),
        PixelFormat::R8 | PixelFormat::RGB332 => assert(n * 8 == 8 * len),
        PixelFormat::RGB565 => assert(n * 16 == 8 * len),
        PixelFormat::RGB888 => assert(n * 24 == 8 * len),
        PixelFormat::XRGB8888 | PixelFormat::ARGB8888 => assert(n * 32 == 8 * len),
    }
}

/// Converting two inputs one after the other gives the conversion of the
/// first followed by that of the second, when the first holds whole pixels
/// starting on byte boundaries: each output pixel depends only on its own
/// input bytes.
pub proof fn lemma_convert_concat(fmt: PixelFormat, a: Seq<u8>, c: Seq<u8>)
    requires
        a.len() % pixel_unit(fmt) == 0,
        c.len() % pixel_unit(fmt) == 0,
    ensures
        whole_pixels(fmt, (a + c).len()),
        pixel_count(fmt, (a + c).len()) == pixel_count(fmt, a.len()) + pixel_count(fmt, c.len()),
        forall|i: int|
            0 <= i < pixel_count(fmt, a.len()) ==> #[trigger] pixel(fmt, a + c, i) == pixel(
                fmt,
                a,
                i,
            ),
        forall|j: int|
            0 <= j < pixel_count(fmt, c.len()) ==> #[trigger] pixel(
                fmt,
                a + c,
                pixel_count(fmt, a.len()) + j,
            ) == pixel(fmt, c, j),
{
    let u = pixel_unit(fmt);
    let s = a + c;
    let al = a.len() as int;
    vstd::arithmetic::div_mod::lemma_add_mod_noop(a.len() as int, c.len() as int, u as int);
    assert((a.len() + c.len()) % u == 0);
    lemma_whole_units(fmt, a.len());
    lemma_whole_units(fmt, c.len());
    lemma_whole_units(fmt, s.len());
    let na = pixel_count(fmt, a.len()) as int;
    let nc = pixel_count(fmt, c.len()) as int;
    match fmt {
        PixelFormat::R1 => {
            assert forall|i: int| 0 <= i < na implies #[trigger] pixel(fmt, s, i) == pixel(fmt, a, i) by {
                assert(i / 8 < al);
                assert(s[i / 8] == a[i / 8]);
            }
            assert forall|j: int| 0 <= j < nc implies #[trigger] pixel(fmt, s, na + j) == pixel(fmt, c, j) by {
                lemma_shifted_div(al, 8, j);
                assert(na + j == 8 * al + j);
                assert(s[(na + j) / 8] == c[j / 8]);
            }
        },
        PixelFormat::XRGB1111 => {
            assert forall|i: int| 0 <= i < na implies #[trigger] pixel(fmt, s, i) == pixel(fmt, a, i) by {
                assert(i / 2 < al);
                assert(s[i / 2] == a[i / 2]);
            }
            assert forall|j: int| 0 <= j < nc implies #[trigger] pixel(fmt, s, na + j) == pixel(fmt, c, j) by {
                lemma_shifted_div(al, 2, j);
                assert(na + j == 2 * al + j);
                assert(s[(na + j) / 2] == c[j / 2]);
            }
        },
        PixelFormat::R8 | PixelFormat::RGB332 => {
            assert forall|i: int| 0 <= i < na implies #[trigger] pixel(fmt, s, i) == pixel(fmt, a, i) by {
                assert(s[i] == a[i]);
            }
            assert forall|j: int| 0 <= j < nc implies #[trigger] pixel(fmt, s, na + j) == pixel(fmt, c, j) by {
                assert(s[na + j] == c[j]);
            }
        },
        PixelFormat::RGB565 => {
            assert forall|i: int| 0 <= i < na implies #[trigger] pixel(fmt, s, i) == pixel(fmt, a, i) by {
                assert(s[2 * i] == a[2 * i]);
                assert(s[2 * i + 1] == a[2 * i + 1]);
            }
            assert forall|j: int| 0 <= j < nc implies #[trigger] pixel(fmt, s, na + j) == pixel(fmt, c, j) by {
                assert(2 * (na + j) == al + 2 * j);
                assert(s[2 * (na + j)] == c[2 * j]);
                assert(s[2 * (na + j) + 1] == c[2 * j + 1]);
            }
        },
        PixelFormat::RGB888 => {
            assert forall|i: int| 0 <= i < na implies #[trigger] pixel(fmt, s, i) == pixel(fmt, a, i) by {
                assert(s[3 * i] == a[3 * i]);
                assert(s[3 * i + 1] == a[3 * i + 1]);
                assert(s[3 * i + 2] == a[3 * i + 2]);
            }
            assert forall|j: int| 0 <= j < nc implies #[trigger] pixel(fmt, s, na + j) == pixel(fmt, c, j) by {
                assert(3 * (na + j) == al + 3 * j);
                assert(s[3 * (na + j)] == c[3 * j]);
                assert(s[3 * (na + j) + 1] == c[3 * j + 1]);
                assert(s[3 * (na + j) + 2] == c[3 * j + 2]);
            }
        },
        PixelFormat::XRGB8888 | PixelFormat::ARGB8888 => {
            assert forall|i: int| 0 <= i < na implies #[trigger] pixel(fmt, s, i) == pixel(fmt, a, i) by {
                assert(s[4 * i] == a[4 * i]);
                assert(s[4 * i + 1] == a[4 * i + 1]);
                assert(s[4 * i + 2] == a[4 * i + 2]);
                assert(s[4 * i + 3] == a[4 * i + 3]);
            }
            assert forall|j: int| 0 <= j < nc implies #[trigger] pixel(fmt, s, na + j) == pixel(fmt, c, j) by {
                assert(4 * (na + j) == al + 4 * j);
                assert(s[4 * (na + j)] == c[4 * j]);
                assert(s[4 * (na + j) + 1] == c[4 * j + 1]);
                assert(s[4 * (na + j) + 2] == c[4 * j + 2]);
                assert(s[4 * (na + j) + 3] == c[4 * j + 3]);
            }
        },
    }
}

#[verifier::external_type_specification]
#[verifier::external_body]
pub struct ExPodCastError(bytemuck::PodCastError);

/// Whether the words `v` are the bytes of `input` taken four at a time, in
/// little-endian order (`little`) or big-endian order.
pub open spec fn words_of(input: Seq<u8>, v: Seq<u32>, little: bool) -> bool {
    &&& 4 * v.len() == input.len()
    &&& forall|i: int|
        0 <= i < v.len() ==> #[trigger] v[i] == if little {
            argb(input[4 * i + 3], input[4 * i + 2], input[4 * i + 1], input[4 * i])
        } else {
            argb(input[4 * i], input[4 * i + 1], input[4 * i + 2], input[4 * i + 3])
        }
}

/// `bytemuck::try_cast_slice::<u8, u32>`, with the words copied out. It
/// fails when the length is not a multiple of four, or when the bytes are
/// not aligned for `u32` (a matter of their address, left unsaid); otherwise
/// the words are the bytes four at a time in the machine's byte order, which
/// is one of the two.
#[verifier::external_body]
fn cast_u32_words(input: &[u8]) -> (r: Result<Vec<u32>, bytemuck::PodCastError>)
    ensures
        input@.len() % 4 != 0 ==> r is Err,
        r matches Ok(v) ==> words_of(input@, v@, true) || words_of(input@, v@, false),
{
    bytemuck::try_cast_slice::<u8, u32>(input).map(|w| w.to_vec())
}

/// Why a frame could not be turned into displayed pixels.
#[derive(Debug, Clone, Copy, PartialEq, Eq, Structural)]
pub enum DisplayError {
    /// The bytes of a 32-bit frame cannot be read as words in place: the
    /// length is not a multiple of four or the bytes are not aligned.
    Cast,
    /// The frame ends inside a pixel, or is too large to count its pixels.
    PartialPixel,
}

/// The `u32` pixels shown for a frame in `fmt`, given the outcome `words` of
/// reading its bytes as words in place: those words for the 32-bit formats
/// (or `Cast` when that read failed), the conversion of [`convert_buffer`]
/// for every other format.
pub fn shown_pixels(
    fmt: PixelFormat,
    input: &[u8],
    words: Result<Vec<u32>, bytemuck::PodCastError>,
) -> (r: Result<Vec<u32>, DisplayError>)
    ensures
        (fmt == PixelFormat::XRGB8888 || fmt == PixelFormat::ARGB8888) ==> {
            &&& r is Ok <==> words is Ok
            &&& words matches Ok(v) ==> (r matches Ok(w) && w@ == v@)
            &&& r is Err ==> r == Err::<Vec<u32>, DisplayError>(DisplayError::Cast)
        },
        (fmt != PixelFormat::XRGB8888 && fmt != PixelFormat::ARGB8888) ==> {
            &&& r is Ok <==> (input@.len() <= usize::MAX / 8 && whole_pixels(fmt, input@.len()))
            &&& r matches Ok(v) ==> v@.len() == pixel_count(fmt, input@.len()) && forall|i: int|
                0 <= i < v@.len() ==> #[trigger] v@[i] == pixel(fmt, input@, i)
            &&& r is Err ==> r == Err::<Vec<u32>, DisplayError>(DisplayError::PartialPixel)
        },
{
    match fmt {
        PixelFormat::XRGB8888 | PixelFormat::ARGB8888 => match words {
            Ok(v) => Ok(v),
            Err(_) => Err(DisplayError::Cast),
        },
        _ => {
            if convertible(fmt, input.len()) {
                Ok(convert_buffer(fmt, input))
            } else {
                Err(DisplayError::PartialPixel)
            }
        },
    }
}

/// The `u32` pixels shown for a frame in `fmt`: the frame's own bytes read as
/// words in the machine's byte order for the 32-bit formats, the conversion
/// of [`convert_buffer`] for every other format (see [`shown_pixels`]).
pub fn display_pixels(fmt: PixelFormat, input: &[u8]) -> (r: Result<Vec<u32>, DisplayError>)
    ensures
        (fmt == PixelFormat::XRGB8888 || fmt == PixelFormat::ARGB8888) ==> {
            &&& r matches Ok(v) ==> words_of(input@, v@, true) || words_of(input@, v@, false)
            &&& input@.len() % 4 != 0 ==> r == Err::<Vec<u32>, DisplayError>(DisplayError::Cast)
            &&& r is Err ==> r == Err::<Vec<u32>, DisplayError>(DisplayError::Cast)
        },
        (fmt != PixelFormat::XRGB8888 && fmt != PixelFormat::ARGB8888) ==> {
            &&& r is Ok <==> (input@.len() <= usize::MAX / 8 && whole_pixels(fmt, input@.len()))
            &&& r matches Ok(v) ==> v@.len() == pixel_count(fmt, input@.len()) && forall|i: int|
                0 <= i < v@.len() ==> #[trigger] v@[i] == pixel(fmt, input@, i)
            &&& r is Err ==> r == Err::<Vec<u32>, DisplayError>(DisplayError::PartialPixel)
        },
{
    match fmt {
        PixelFormat::XRGB8888 | PixelFormat::ARGB8888 => {
            let words = cast_u32_words(input);
            shown_pixels(fmt, input, words)
        },
        _ => shown_pixels(fmt, input, Ok(Vec::new())),
    }
}

} // verus!
