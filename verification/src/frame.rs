//! Applying a received frame transfer to the framebuffer: LZ4 decompression
//! into a scratch buffer when the transfer is compressed, then the copy of
//! the announced rectangle, line by line.
use vstd::prelude::*;
use bytes::BytesMut;
use crate::descriptors::{SetBuffer, spec_transfer_len};

verus! {

#[verifier::external_type_specification]
#[verifier::external_body]
pub struct ExBytesMut(BytesMut);

#[verifier::external_type_specification]
#[verifier::external_body]
pub struct ExIoError(std::io::Error);

/// The bytes a `BytesMut` holds (its length is that of the sequence).
pub uninterp spec fn bytes_mut_contents(b: BytesMut) -> Seq<u8>;

/// What LZ4 block decompression of `src` produces when at most `size` bytes
/// of output are allowed: `None` where `src` is not a valid block or
/// decompresses to more than `size` bytes.
pub uninterp spec fn lz4_block_decompressed(src: Seq<u8>, size: i32) -> Option<Seq<u8>>;

/// Largest uncompressed size LZ4 accepts (`LZ4_MAX_INPUT_SIZE`).
pub const LZ4_MAX_INPUT_SIZE: u32 = 0x7E000000;

/// `s` resized to `n` bytes: truncated, or extended with copies of `v`.
pub open spec fn resized(s: Seq<u8>, n: nat, v: u8) -> Seq<u8> {
    if n <= s.len() {
        s.take(n as int)
    } else {
        s + Seq::new((n - s.len()) as nat, |_i: int| v)
    }
}

/// `BytesMut::len`: the number of bytes held.
#[verifier::external_body]
fn bytes_mut_len(b: &BytesMut) -> (r: usize)
    ensures
        r == bytes_mut_contents(*b).len(),
{
    b.len()
}

/// `BytesMut::capacity`: at least the number of bytes held; the exact value
/// depends on the allocations made so far and is left unsaid.
#[verifier::external_body]
fn bytes_mut_capacity(b: &BytesMut) -> (r: usize)
    ensures
        r >= bytes_mut_contents(*b).len(),
{
    b.capacity()
}

/// `BytesMut::resize`: truncates to `new_len` bytes or extends with `value`.
#[verifier::external_body]
fn bytes_mut_resize(b: &mut BytesMut, new_len: usize, value: u8)
    requires
        new_len <= isize::MAX,
    ensures
        bytes_mut_contents(*final(b)) == resized(bytes_mut_contents(*old(b)), new_len as nat, value),
{
    b.resize(new_len, value)
}

/// The bytes of a `BytesMut` as a slice (its `Deref`).
#[verifier::external_body]
fn bytes_mut_as_slice(b: &BytesMut) -> (r: &[u8])
    ensures
        r@ == bytes_mut_contents(*b),
{
    &b[..]
}

/// `lz4::block::decompress_to_buffer(src, Some(size), buffer)`. It fails
/// without touching the buffer when `size` is negative, above
/// `LZ4_MAX_INPUT_SIZE` or above the buffer's length; otherwise it
/// decompresses `src` into the front of the buffer and returns the number of
/// bytes written, or fails when the block is invalid. The buffer keeps its
/// length; what it holds past the written bytes, and what it holds at all
/// after a failed decompression, is left unsaid.
#[verifier::external_body]
fn lz4_decompress_to_buffer(src: &[u8], size: i32, buffer: &mut BytesMut) -> (r: Result<
    usize,
    std::io::Error,
>)
    ensures
        bytes_mut_contents(*final(buffer)).len() == bytes_mut_contents(*old(buffer)).len(),
        (size < 0 || size > LZ4_MAX_INPUT_SIZE || size > bytes_mut_contents(*old(buffer)).len())
            ==> r is Err && bytes_mut_contents(*final(buffer)) == bytes_mut_contents(*old(buffer)),
        (0 <= size <= LZ4_MAX_INPUT_SIZE && size <= bytes_mut_contents(*old(buffer)).len()) ==> (
        match lz4_block_decompressed(src@, size) {
            Some(d) => r == Ok::<usize, std::io::Error>(d.len() as usize) && d.len() <= size
                && bytes_mut_contents(*final(buffer)).take(d.len() as int) == d,
            None => r is Err,
        }),
{
    lz4::block::decompress_to_buffer(src, Some(size), &mut buffer[..])
}

/// Why a frame could not be applied.
#[derive(Debug, Clone, Copy, PartialEq, Eq, Structural)]
pub enum FrameError {
    /// LZ4 refused the announced size or the compressed data.
    Decompress,
    /// The scratch buffer is shorter than the frame yet has allocated more
    /// than the frame needs, so the size it would be resized to is negative.
    ScratchCapacity,
    /// The rectangle of a decompressed frame does not fit the framebuffer or
    /// the decompressed data.
    OutOfBounds,
}

/// What a successful decompression of `src` (announcing `length` bytes)
/// leaves in the scratch buffer, from `before` to `after`.
pub open spec fn decompressed_into(src: Seq<u8>, length: u32, before: Seq<u8>, after: Seq<u8>)
    -> bool {
    &&& after.len() == if before.len() >= length { before.len() } else { length as nat }
    &&& length <= LZ4_MAX_INPUT_SIZE
    &&& lz4_block_decompressed(src, length as i32) matches Some(d)
    &&& d.len() <= length
    &&& after.take(d.len() as int) == d
}

/// How a scratch buffer of `len` bytes and capacity `cap` is prepared for a
/// frame of `length` bytes: kept as it is (`None`) when long enough, else
/// resized to `length - cap` bytes, or refused when that is negative.
pub open spec fn spec_scratch_growth(len: nat, cap: nat, length: nat) -> Result<Option<nat>, FrameError> {
    if len >= length {
        Ok(None)
    } else if cap > length {
        Err(FrameError::ScratchCapacity)
    } else {
        Ok(Some((length - cap) as nat))
    }
}

/// A scratch buffer long enough for the frame is kept; a shorter one is
/// resized to the frame's length minus its capacity, which is refused when
/// negative; an unallocated one is therefore resized to exactly the frame's
/// length.
pub proof fn lemma_scratch_growth_rules(len: nat, cap: nat, length: nat)
    ensures
        len >= length ==> spec_scratch_growth(len, cap, length) == Ok::<Option<nat>, FrameError>(
            None,
        ),
        len < length && cap > length ==> spec_scratch_growth(len, cap, length) == Err::<
            Option<nat>,
            FrameError,
        >(FrameError::ScratchCapacity),
        len < length && cap <= length ==> spec_scratch_growth(len, cap, length) == Ok::<
            Option<nat>,
            FrameError,
        >(Some((length - cap) as nat)),
        len < length ==> spec_scratch_growth(len, 0, length) == Ok::<Option<nat>, FrameError>(
            Some(length),
        ),
{
}

/// How a scratch buffer of `len` bytes and capacity `cap` is prepared for a
/// frame of `length` bytes (see [`spec_scratch_growth`]).
pub fn scratch_growth(len: usize, cap: usize, length: u32) -> (r: Result<Option<usize>, FrameError>)
    ensures
        len >= length ==> r == Ok::<Option<usize>, FrameError>(None),
        len < length && cap > length ==> r == Err::<Option<usize>, FrameError>(
            FrameError::ScratchCapacity,
        ),
        len < length && cap <= length ==> r == Ok::<Option<usize>, FrameError>(
            Some((length - cap) as usize),
        ),
{
    if len >= length as usize {
        Ok(None)
    } else if cap > length as usize {
        Err(FrameError::ScratchCapacity)
    } else {
        Ok(Some(length as usize - cap))
    }
}

/// What decompressing `src` (announcing `length` bytes) into a scratch
/// buffer holding `before`, of capacity `cap`, returns (`r`) and leaves in
/// the buffer (`after`): the buffer is prepared as [`spec_scratch_growth`]
/// says, then LZ4 decompresses into its front when the size is admitted,
/// fits the buffer and the data is valid.
pub open spec fn decompress_outcome(
    src: Seq<u8>,
    length: u32,
    before: Seq<u8>,
    cap: nat,
    r: Result<(), FrameError>,
    after: Seq<u8>,
) -> bool {
    match spec_scratch_growth(before.len(), cap, length as nat) {
        Err(e) => r == Err::<(), FrameError>(e) && after == before,
        Ok(g) => {
            let mid = match g {
                None => before,
                Some(n) => resized(before, n, 0),
            };
            &&& after.len() == mid.len()
            &&& (r is Ok <==> (length <= LZ4_MAX_INPUT_SIZE && length <= mid.len()
                && lz4_block_decompressed(src, length as i32) is Some))
            &&& r is Err ==> r == Err::<(), FrameError>(FrameError::Decompress)
            &&& (length > LZ4_MAX_INPUT_SIZE || length > mid.len()) ==> after == mid
            &&& r is Ok ==> (lz4_block_decompressed(src, length as i32) matches Some(d) && d.len()
                <= length && after.take(d.len() as int) == d)
        },
    }
}

/// The outcome of the decompression step within a frame update's outcome
/// `r`: a rectangle that does not fit comes after a successful
/// decompression.
pub open spec fn decompression_part(r: Result<(), FrameError>) -> Result<(), FrameError> {
    if r == Err::<(), FrameError>(FrameError::OutOfBounds) {
        Ok(())
    } else {
        r
    }
}

/// Decompresses the `length`-byte frame held in `compressed` into
/// `compress_buf`, taking `cap` as the buffer's capacity: the buffer is
/// first prepared as [`scratch_growth`] says.
pub fn decompress_with_capacity(
    compressed: &[u8],
    length: u32,
    compress_buf: &mut BytesMut,
    cap: usize,
) -> (r: Result<(), FrameError>)
    requires
        length <= isize::MAX,
    ensures
        decompress_outcome(
            compressed@,
            length,
            bytes_mut_contents(*old(compress_buf)),
            cap as nat,
            r,
            bytes_mut_contents(*final(compress_buf)),
        ),
{
    let len = bytes_mut_len(compress_buf);
    match scratch_growth(len, cap, length) {
        Err(e) => {
            return Err(e);
        },
        Ok(None) => {},
        Ok(Some(n)) => {
            bytes_mut_resize(compress_buf, n, 0);
        },
    }
    let size = length as i32;
    proof {
        assert(length <= 0x7E000000u32 ==> size as int == length as int) by (bit_vector)
            requires
                size == length as i32,
        ;
        assert(length > 0x7E000000u32 ==> (size < 0 || size > 0x7E000000i32)) by (bit_vector)
            requires
                size == length as i32,
        ;
    }
    match lz4_decompress_to_buffer(compressed, size, compress_buf) {
        Ok(_) => Ok(()),
        Err(_) => Err(FrameError::Decompress),
    }
}

/// Decompresses the `length`-byte frame held in `compressed` into
/// `compress_buf`. A scratch buffer shorter than the frame is grown to
/// `length` minus its capacity, so only an unallocated one ends up large
/// enough; a shorter one that has allocated anything makes the call fail.
/// The outcome is [`decompress_outcome`] for the buffer's capacity, a value
/// the allocator decides and that is at least the buffer's length.
pub fn decompress_frame(compressed: &[u8], length: u32, compress_buf: &mut BytesMut) -> (r: Result<
    (),
    FrameError,
>)
    requires
        length <= isize::MAX,
    ensures
        exists|cap: nat|
            cap >= bytes_mut_contents(*old(compress_buf)).len() && decompress_outcome(
                compressed@,
                length,
                bytes_mut_contents(*old(compress_buf)),
                cap,
                r,
                bytes_mut_contents(*final(compress_buf)),
            ),
        r is Ok ==> decompressed_into(
            compressed@,
            length,
            bytes_mut_contents(*old(compress_buf)),
            bytes_mut_contents(*final(compress_buf)),
        ),
        bytes_mut_contents(*old(compress_buf)).len() >= length ==> (r is Ok <==> (length
            <= LZ4_MAX_INPUT_SIZE && lz4_block_decompressed(compressed@, length as i32) is Some)),
        0 < bytes_mut_contents(*old(compress_buf)).len() < length ==> r is Err,
        r == Err::<(), FrameError>(FrameError::ScratchCapacity) ==> {
            &&& bytes_mut_contents(*old(compress_buf)).len() < length
            &&& bytes_mut_contents(*final(compress_buf)) == bytes_mut_contents(*old(compress_buf))
        },
        r == Err::<(), FrameError>(FrameError::Decompress) ==> (length > LZ4_MAX_INPUT_SIZE
            || lz4_block_decompressed(compressed@, length as i32) is None || bytes_mut_contents(
            *old(compress_buf),
        ).len() < length),
        r is Err ==> r == Err::<(), FrameError>(FrameError::ScratchCapacity) || r == Err::<
            (),
            FrameError,
        >(FrameError::Decompress),
{
    let ghost before = bytes_mut_contents(*compress_buf);
    let cap = bytes_mut_capacity(compress_buf);
    let r = decompress_with_capacity(compressed, length, compress_buf, cap);
    proof {
        assert(cap as nat >= before.len());
        if before.len() < length && cap <= length {
            assert(resized(before, (length - cap) as nat, 0).len() == length - cap);
        }
    }
    r
}

/// `fb` with its `n` bytes from `dst` replaced by the `n` bytes of `src`
/// from `s`.
pub open spec fn copy_row(fb: Seq<u8>, dst: int, src: Seq<u8>, s: int, n: int) -> Seq<u8> {
    fb.take(dst) + src.subrange(s, s + n) + fb.skip(dst + n)
}

/// `fb` after copying the first `rows` lines of the rectangle: line `r` of
/// `src` (at `r * line_len`) goes to row `y + r` of the framebuffer, at
/// `(y + r) * pitch + x_off`; later lines overwrite earlier ones.
pub open spec fn blit_rows(
    fb: Seq<u8>,
    src: Seq<u8>,
    y: int,
    rows: nat,
    pitch: int,
    x_off: int,
    line_len: int,
) -> Seq<u8>
    decreases rows,
{
    if rows == 0 {
        fb
    } else {
        let r = rows - 1;
        copy_row(
            blit_rows(fb, src, y, r as nat, pitch, x_off, line_len),
            (y + r) * pitch + x_off,
            src,
            r * line_len,
            line_len,
        )
    }
}

/// `fb` after writing the rectangle of `info`, taken line by line from `src`,
/// into a framebuffer of `pitch` bytes per row and `bpp` bytes per pixel.
pub open spec fn blit(fb: Seq<u8>, info: SetBuffer, src: Seq<u8>, pitch: nat, bpp: nat) -> Seq<
    u8,
> {
    blit_rows(
        fb,
        src,
        info.y as int,
        info.height as nat,
        pitch as int,
        info.x * bpp,
        info.width * bpp,
    )
}

/// Byte `k` of `fb` once the first `rows` lines have been written, for lines
/// that do not overlap: a byte at row `y + r` (`r < rows`) and column `c <
/// line_len` past `x_off` holds byte `c` of line `r` of `src`; every other
/// byte keeps its value.
pub open spec fn rows_byte(
    fb: Seq<u8>,
    src: Seq<u8>,
    y: int,
    rows: int,
    pitch: int,
    x_off: int,
    line_len: int,
    k: int,
) -> u8 {
    let rel = k - x_off;
    if line_len > 0 && rel >= 0 && rel % pitch < line_len && y <= rel / pitch < y + rows {
        src[(rel / pitch - y) * line_len + rel % pitch]
    } else {
        fb[k]
    }
}

proof fn lemma_blit_rows_bytes(
    fb: Seq<u8>,
    src: Seq<u8>,
    y: int,
    rows: nat,
    pitch: int,
    x_off: int,
    line_len: int,
)
    requires
        0 <= line_len <= pitch,
        0 <= x_off,
        0 <= y,
        rows > 0 ==> (y + rows - 1) * pitch + x_off + line_len <= fb.len(),
        rows * line_len <= src.len(),
    ensures
        blit_rows(fb, src, y, rows, pitch, x_off, line_len).len() == fb.len(),
        forall|k: int|
            0 <= k < fb.len() ==> #[trigger] blit_rows(fb, src, y, rows, pitch, x_off, line_len)[k]
                == rows_byte(fb, src, y, rows as int, pitch, x_off, line_len, k),
    decreases rows,
{
    if rows > 0 {
        let r = (rows - 1) as nat;
        assert(r * line_len + line_len == rows * line_len) by (nonlinear_arith)
            requires
                r + 1 == rows,
        ;
        assert(r * line_len <= src.len()) by (nonlinear_arith)
            requires
                r * line_len + line_len <= src.len(),
                0 <= line_len,
        ;
        if r > 0 {
            assert((y + r - 1) * pitch <= (y + rows - 1) * pitch) by (nonlinear_arith)
                requires
                    r <= rows,
                    0 <= pitch,
            ;
        }
        lemma_blit_rows_bytes(fb, src, y, r, pitch, x_off, line_len);
        let prev = blit_rows(fb, src, y, r, pitch, x_off, line_len);
        let cur = blit_rows(fb, src, y, rows, pitch, x_off, line_len);
        let base = (y + r) * pitch + x_off;
        assert(cur == copy_row(prev, base, src, r * line_len, line_len));
        assert(base + line_len <= fb.len());
        assert(0 <= base) by (nonlinear_arith)
            requires
                0 <= y + r,
                0 <= pitch,
                0 <= x_off,
                base == (y + r) * pitch + x_off,
        ;
        assert forall|k: int| 0 <= k < fb.len() implies #[trigger] cur[k] == rows_byte(
            fb,
            src,
            y,
            rows as int,
            pitch,
            x_off,
            line_len,
            k,
        ) by {
            let rel = k - x_off;
            if base <= k < base + line_len {
                assert(rel == (y + r) * pitch + (k - base));
                vstd::arithmetic::div_mod::lemma_fundamental_div_mod_converse(
                    rel,
                    pitch,
                    y + r,
                    k - base,
                );
                assert(cur[k] == src[r * line_len + (k - base)]);
            } else {
                assert(cur[k] == prev[k]);
                if line_len > 0 && rel >= 0 && rel % pitch < line_len && rel / pitch == y + r {
                    vstd::arithmetic::div_mod::lemma_fundamental_div_mod(rel, pitch);
                    assert(rel == pitch * (y + r) + rel % pitch);
                    assert(pitch * (y + r) == (y + r) * pitch) by (nonlinear_arith);
                    assert(false);
                }
            }
        }
    }
}

/// Byte `k` of `fb` once the rectangle of `info` has been written from
/// `src` (see [`rows_byte`]).
pub open spec fn blitted_byte(fb: Seq<u8>, info: SetBuffer, src: Seq<u8>, pitch: nat, bpp: nat, k: int) -> u8 {
    rows_byte(fb, src, info.y as int, info.height as int, pitch as int, info.x * bpp, info.width * bpp, k)
}

/// When a framebuffer row is at least as long as a line of the rectangle, the
/// blit writes byte `c` of line `r` of the source at column `x * bpp + c` of
/// row `y + r`, for every line of the rectangle, and leaves every byte
/// outside the rectangle as it was.
pub proof fn lemma_blit_places_lines(fb: Seq<u8>, info: SetBuffer, src: Seq<u8>, pitch: nat, bpp: nat)
    requires
        rect_fits(info, fb.len(), pitch, bpp, src.len()),
        info.width * bpp <= pitch,
    ensures
        blit(fb, info, src, pitch, bpp).len() == fb.len(),
        forall|k: int| 0 <= k < fb.len() ==> #[trigger] blit(fb, info, src, pitch, bpp)[k] == blitted_byte(fb, info, src, pitch, bpp, k),
{
    assert(0 <= info.x * bpp) by (nonlinear_arith);
    assert(0 <= info.width * bpp) by (nonlinear_arith);
    lemma_blit_rows_bytes(fb, src, info.y as int, info.height as nat, pitch as int, info.x * bpp, info.width * bpp);
}

/// Whether the rectangle of `info` can be written into a framebuffer of
/// `fb_len` bytes, `pitch` bytes per row and `bpp` bytes per pixel, from a
/// source of `src_len` bytes, without any index or size overflowing.
pub open spec fn rect_fits(info: SetBuffer, fb_len: nat, pitch: nat, bpp: nat, src_len: nat)
    -> bool {
    &&& info.y + info.height <= u32::MAX
    &&& info.width * bpp <= usize::MAX
    &&& info.x * bpp <= usize::MAX
    &&& info.height * (info.width * bpp) <= src_len
    &&& info.height > 0 ==> (info.y + info.height - 1) * pitch + info.x * bpp + info.width * bpp
        <= fb_len
}

/// A rectangle fits exactly when its coordinates and line length are
/// addressable, the source holds all its lines, and its last line ends no
/// later than the last byte of the framebuffer: a line may end exactly at
/// the framebuffer's end.
pub proof fn lemma_rect_fits_exactly(info: SetBuffer, fb_len: nat, pitch: nat, bpp: nat, src_len: nat)
    ensures
        rect_fits(info, fb_len, pitch, bpp, src_len) <==> {
            &&& info.y as int + info.height as int <= 0xffff_ffff
            &&& info.width as int * bpp as int <= usize::MAX as int
            &&& info.x as int * bpp as int <= usize::MAX as int
            &&& info.height as int * (info.width as int * bpp as int) <= src_len as int
            &&& info.height as int > 0 ==> (info.y as int + info.height as int - 1) * pitch as int
                + info.x as int * bpp as int + info.width as int * bpp as int <= fb_len as int
        },
{
}

/// A full-frame update fits a framebuffer of exactly `height` rows of
/// `width * bpp` bytes: the rectangle covers the whole framebuffer, up to
/// and including its last byte.
pub proof fn lemma_full_frame_fits(info: SetBuffer, bpp: nat)
    requires
        info.x == 0,
        info.y == 0,
        info.width * bpp <= usize::MAX,
        info.length == info.height * (info.width * bpp),
    ensures
        rect_fits(
            info,
            (info.width * bpp * info.height) as nat,
            (info.width * bpp) as nat,
            bpp,
            info.length as nat,
        ),
{
    let p = info.width * bpp;
    if info.height > 0 {
        assert((info.height - 1) * p + p == p * info.height) by (nonlinear_arith);
    }
    assert(info.height * p == p * info.height) by (nonlinear_arith);
}

/// Whether the rectangle of `info` fits a framebuffer of `fb_len` bytes,
/// `pitch` bytes per row and `bpp` bytes per pixel, copied from a source of
/// `src_len` bytes (see [`rect_fits`]).
pub fn rect_fits_exec(info: &SetBuffer, fb_len: usize, pitch: usize, bpp: usize, src_len: usize) -> (r: bool)
    ensures
        r == rect_fits(*info, fb_len as nat, pitch as nat, bpp as nat, src_len as nat),
{
    let src_len = src_len as u128;
    let y = info.y as u128;
    let height = info.height as u128;
    proof {
        assert(info.width * bpp <= 0xffff_ffff * 0xffff_ffff_ffff_ffff) by (nonlinear_arith)
            requires
                info.width <= 0xffff_ffff,
                bpp <= 0xffff_ffff_ffff_ffff,
        ;
        assert(info.x * bpp <= 0xffff_ffff * 0xffff_ffff_ffff_ffff) by (nonlinear_arith)
            requires
                info.x <= 0xffff_ffff,
                bpp <= 0xffff_ffff_ffff_ffff,
        ;
    }
    let line_len = info.width as u128 * bpp as u128;
    let line_start = info.x as u128 * bpp as u128;
    if y + height > 0xffff_ffff || line_len > usize::MAX as u128 || line_start > usize::MAX as u128 {
        return false;
    }
    proof {
        assert(height * line_len <= 0xffff_ffff * 0xffff_ffff_ffff_ffff) by (nonlinear_arith)
            requires
                height <= 0xffff_ffff,
                line_len <= 0xffff_ffff_ffff_ffff,
        ;
    }
    if height * line_len > src_len {
        return false;
    }
    proof {
        if height > 0 {
            assert((y + height - 1) * pitch <= 0xffff_ffff * 0xffff_ffff_ffff_ffff)
                by (nonlinear_arith)
                requires
                    0 <= y + height - 1 <= 0xffff_ffff,
                    pitch <= 0xffff_ffff_ffff_ffff,
            ;
        }
    }
    if height > 0 && (y + height - 1) * pitch as u128 + line_start + line_len > fb_len as u128 {
        return false;
    }
    true
}

/// Whether [`update_framebuffer`] may be called for a frame announced by
/// `info` and a framebuffer of `fb_len` bytes, `pitch` bytes per row and
/// `bpp` bytes per pixel: the frame length is addressable, and an
/// uncompressed frame's rectangle fits (a compressed frame's rectangle is
/// tested once it is decompressed).
pub fn frame_fits(info: &SetBuffer, fb_len: usize, pitch: usize, bpp: usize) -> (r: bool)
    ensures
        r == (info.length <= isize::MAX && (info.compression.0 == 0 ==> rect_fits(
            *info,
            fb_len as nat,
            pitch as nat,
            bpp as nat,
            info.length as nat,
        ))),
{
    if info.length as u128 > isize::MAX as u128 {
        return false;
    }
    if info.compression.is_empty() {
        rect_fits_exec(info, fb_len, pitch, bpp, info.length as usize)
    } else {
        true
    }
}

/// Copies `n` bytes of `src` from `s` into `fb` at `dst`.
fn copy_line(fb: &mut Vec<u8>, dst: usize, src: &[u8], s: usize, n: usize)
    requires
        dst + n <= old(fb)@.len(),
        s + n <= src@.len(),
    ensures
        final(fb)@ == copy_row(old(fb)@, dst as int, src@, s as int, n as int),
{
    let ghost start = fb@;
    let fb_len = fb.len();
    let src_len = src.len();
    let mut j: usize = 0;
    while j < n
        invariant
            j <= n,
            fb_len == start.len(),
            src_len == src@.len(),
            dst + n <= start.len(),
            s + n <= src@.len(),
            fb@ == copy_row(start, dst as int, src@, s as int, j as int),
        decreases n - j,
    {
        fb.set(dst + j, src[s + j]);
        proof {
            assert(fb@ =~= copy_row(start, dst as int, src@, s as int, (j + 1) as int));
        }
        j = j + 1;
    }
}

/// Writes the rectangle announced by `info` into `fb`, one line of
/// `info.width * bpp` bytes at a time, taking the lines one after the other
/// from the front of `src`.
pub fn blit_rect(info: &SetBuffer, src: &[u8], fb: &mut Vec<u8>, fb_pitch: usize, bpp: usize)
    requires
        rect_fits(*info, old(fb)@.len(), fb_pitch as nat, bpp as nat, src@.len()),
    ensures
        final(fb)@ == blit(old(fb)@, *info, src@, fb_pitch as nat, bpp as nat),
{
    let ghost start = fb@;
    let fb_len = fb.len();
    let src_len = src.len();
    let mut y = info.y as usize;
    let end_y = (info.y + info.height) as usize;
    let line_len = info.width as usize * bpp;
    let line_start = info.x as usize * bpp;
    let mut buf_pos: usize = 0;
    while y < end_y
        invariant
            rect_fits(*info, start.len(), fb_pitch as nat, bpp as nat, src@.len()),
            info.y <= y <= end_y,
            end_y == info.y + info.height,
            line_len == info.width * bpp,
            line_start == info.x * bpp,
            buf_pos == (y - info.y) * line_len,
            fb@.len() == start.len(),
            fb_len == start.len(),
            src_len == src@.len(),
            fb@ == blit_rows(
                start,
                src@,
                info.y as int,
                (y - info.y) as nat,
                fb_pitch as int,
                line_start as int,
                line_len as int,
            ),
        decreases end_y - y,
    {
        let ghost r = y - info.y;
        proof {
            assert(y * fb_pitch <= (info.y + info.height - 1) * fb_pitch) by (nonlinear_arith)
                requires
                    y <= info.y + info.height - 1,
            ;
            assert((r + 1) * line_len <= info.height * line_len) by (nonlinear_arith)
                requires
                    r + 1 <= info.height,
            ;
            assert((r + 1) * line_len == r * line_len + line_len) by (nonlinear_arith);
        }
        let fb_start = y * fb_pitch + line_start;
        copy_line(fb, fb_start, src, buf_pos, line_len);
        buf_pos = buf_pos + line_len;
        y = y + 1;
    }
}

/// Applies a received frame transfer to `fb`, a framebuffer of `fb_pitch`
/// bytes per row and `bpp` bytes per pixel: an uncompressed transfer is
/// copied as it is into the rectangle of `info`; a compressed one is first
/// decompressed into `compress_buf` (see [`decompress_frame`]), and its
/// rectangle is then copied from there if it fits. `fb` is untouched when
/// the call fails.
pub fn update_framebuffer(
    info: &SetBuffer,
    received: &[u8],
    compress_buf: &mut BytesMut,
    fb: &mut Vec<u8>,
    fb_pitch: usize,
    bpp: usize,
) -> (r: Result<(), FrameError>)
    requires
        received@.len() == spec_transfer_len(*info),
        info.length <= isize::MAX,
        info.compression.0 == 0 ==> rect_fits(
            *info,
            old(fb)@.len(),
            fb_pitch as nat,
            bpp as nat,
            info.length as nat,
        ),
    ensures
        info.compression.0 == 0 ==> {
            &&& r is Ok
            &&& final(fb)@ == blit(old(fb)@, *info, received@, fb_pitch as nat, bpp as nat)
            &&& bytes_mut_contents(*final(compress_buf)) == bytes_mut_contents(*old(compress_buf))
        },
        info.compression.0 != 0 ==> {
            let before = bytes_mut_contents(*old(compress_buf));
            let after = bytes_mut_contents(*final(compress_buf));
            &&& r is Ok ==> {
                &&& decompressed_into(received@, info.length, before, after)
                &&& rect_fits(*info, old(fb)@.len(), fb_pitch as nat, bpp as nat, after.len())
                &&& final(fb)@ == blit(old(fb)@, *info, after, fb_pitch as nat, bpp as nat)
            }
            &&& r is Err ==> final(fb)@ == old(fb)@
            &&& r == Err::<(), FrameError>(FrameError::OutOfBounds) ==> {
                &&& decompressed_into(received@, info.length, before, after)
                &&& !rect_fits(*info, old(fb)@.len(), fb_pitch as nat, bpp as nat, after.len())
            }
            &&& r == Err::<(), FrameError>(FrameError::ScratchCapacity) ==> before.len()
                < info.length
            &&& r == Err::<(), FrameError>(FrameError::Decompress) ==> (info.length
                > LZ4_MAX_INPUT_SIZE || lz4_block_decompressed(received@, info.length as i32) is None
                || before.len() < info.length)
            &&& before.len() >= info.length ==> (r is Ok <==> (info.length <= LZ4_MAX_INPUT_SIZE
                && lz4_block_decompressed(received@, info.length as i32) is Some && rect_fits(
                *info,
                old(fb)@.len(),
                fb_pitch as nat,
                bpp as nat,
                before.len(),
            )))
            &&& 0 < before.len() < info.length ==> r is Err
            &&& exists|cap: nat|
                cap >= before.len() && #[trigger] decompress_outcome(
                    received@,
                    info.length,
                    before,
                    cap,
                    decompression_part(r),
                    after,
                )
        },
{
    if !info.compression.is_empty() {
        let ghost before = bytes_mut_contents(*compress_buf);
        let res = decompress_frame(received, info.length, compress_buf);
        let _done: () = match res {
            Ok(u) => u,
            Err(e) => {
                return Err(e);
            },
        };
        let ghost after = bytes_mut_contents(*compress_buf);
        assert(res == Ok::<(), FrameError>(()));
        let ghost cap = choose|cap: nat|
            cap >= before.len() && #[trigger] decompress_outcome(
                received@,
                info.length,
                before,
                cap,
                res,
                after,
            );
        let source = bytes_mut_as_slice(compress_buf);
        if !rect_fits_exec(info, fb.len(), fb_pitch, bpp, source.len()) {
            assert(decompress_outcome(
                received@,
                info.length,
                before,
                cap,
                decompression_part(Err(FrameError::OutOfBounds)),
                after,
            ));
            return Err(FrameError::OutOfBounds);
        }
        blit_rect(info, source, fb, fb_pitch, bpp);
        assert(decompress_outcome(
            received@,
            info.length,
            before,
            cap,
            decompression_part(Ok(())),
            after,
        ));
    } else {
        blit_rect(info, received, fb, fb_pitch, bpp);
    }
    Ok(())
}

proof fn lemma_blit_rows_prefix(
    fb: Seq<u8>,
    s1: Seq<u8>,
    s2: Seq<u8>,
    y: int,
    rows: nat,
    pitch: int,
    x_off: int,
    line_len: int,
)
    requires
        0 <= line_len,
        rows * line_len <= s1.len(),
        rows * line_len <= s2.len(),
        forall|i: int| 0 <= i < rows * line_len ==> s1[i] == s2[i],
    ensures
        blit_rows(fb, s1, y, rows, pitch, x_off, line_len) == blit_rows(
            fb,
            s2,
            y,
            rows,
            pitch,
            x_off,
            line_len,
        ),
    decreases rows,
{
    if rows > 0 {
        let r = (rows - 1) as nat;
        assert(r * line_len + line_len == rows * line_len) by (nonlinear_arith)
            requires
                r + 1 == rows,
        ;
        lemma_blit_rows_prefix(fb, s1, s2, y, r, pitch, x_off, line_len);
        assert(s1.subrange(r * line_len, r * line_len + line_len) =~= s2.subrange(
            r * line_len,
            r * line_len + line_len,
        ));
    }
}

/// LZ4 compression is transparent to the framebuffer: when the compressed
/// data of a frame decompresses to its plain bytes, decompression into a
/// scratch buffer that has allocated nothing (as on a fresh endpoint) or
/// that is long enough succeeds, and the compressed update then writes
/// exactly what the plain update of the same rectangle writes.
pub proof fn lemma_compression_transparent(
    fb: Seq<u8>,
    plain_info: SetBuffer,
    lz4_info: SetBuffer,
    plain: Seq<u8>,
    compressed: Seq<u8>,
    before: Seq<u8>,
    cap: nat,
    r: Result<(), FrameError>,
    after: Seq<u8>,
    pitch: nat,
    bpp: nat,
)
    requires
        plain_info.x == lz4_info.x,
        plain_info.y == lz4_info.y,
        plain_info.width == lz4_info.width,
        plain_info.height == lz4_info.height,
        plain_info.length == lz4_info.length,
        plain.len() == plain_info.length,
        rect_fits(plain_info, fb.len(), pitch, bpp, plain.len()),
        lz4_block_decompressed(compressed, lz4_info.length as i32) == Some(plain),
        decompress_outcome(compressed, lz4_info.length, before, cap, r, after),
    ensures
        (cap == 0 || before.len() >= lz4_info.length) && lz4_info.length <= LZ4_MAX_INPUT_SIZE
            ==> r is Ok,
        r is Ok ==> {
            &&& rect_fits(lz4_info, fb.len(), pitch, bpp, after.len())
            &&& blit(fb, lz4_info, after, pitch, bpp) == blit(fb, plain_info, plain, pitch, bpp)
        },
{
    if r is Ok {
        let n = plain_info.height * (plain_info.width * bpp);
        assert(after.take(plain.len() as int) == plain);
        assert forall|i: int| 0 <= i < n implies after[i] == plain[i] by {
            assert(after.take(plain.len() as int)[i] == after[i]);
        }
        assert(0 <= plain_info.width * bpp) by (nonlinear_arith);
        lemma_blit_rows_prefix(
            fb,
            after,
            plain,
            plain_info.y as int,
            plain_info.height as nat,
            pitch as int,
            plain_info.x * bpp,
            plain_info.width * bpp,
        );
    }
}

} // verus!
