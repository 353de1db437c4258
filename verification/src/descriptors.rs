//! The structures exchanged with the host and their wire encoding: fields in
//! declaration order, integers little-endian, enumerations as one byte, no
//! padding.
use vstd::prelude::*;
use crate::flags::{Compression, ConnectorDescriptorFlags, DisplayDescriptorFlags, DisplayModeFlags};
use crate::formats::{ConnectorType, PixelFormat};
use crate::wire::{
    le_u16_bytes, le_u32_bytes, lemma_u16_roundtrip, lemma_u32_roundtrip, push_u16_le, push_u32_le,
    read_u32_le, u16_at, u32_at, lemma_u16_at_value, lemma_u32_at_value,
};

verus! {

/// Magic number of the display descriptor ("GUD" gadget vendor/product).
pub const GUD_DISPLAY_MAGIC: u32 = 0x1d50614d;

/// Length of an encoded display descriptor.
pub const DISPLAY_DESCRIPTOR_LEN: usize = 30;

/// Length of an encoded display mode.
pub const DISPLAY_MODE_LEN: usize = 24;

/// Length of an encoded connector descriptor.
pub const CONNECTOR_DESCRIPTOR_LEN: usize = 5;

/// Length of an encoded set-buffer request.
pub const SET_BUFFER_LEN: usize = 25;

/// A display mode (timings of one resolution), as sent to the host.
#[derive(Debug, Clone, Copy, PartialEq, Eq, Structural)]
pub struct DisplayMode {
    pub clock: u32,
    pub hdisplay: u16,
    pub hsync_start: u16,
    pub hsync_end: u16,
    pub htotal: u16,
    pub vdisplay: u16,
    pub vsync_start: u16,
    pub vsync_end: u16,
    pub vtotal: u16,
    pub flags: DisplayModeFlags,
}

/// The bytes of `m` on the wire.
pub open spec fn display_mode_bytes(m: DisplayMode) -> Seq<u8> {
    le_u32_bytes(m.clock) + le_u16_bytes(m.hdisplay) + le_u16_bytes(m.hsync_start)
        + le_u16_bytes(m.hsync_end) + le_u16_bytes(m.htotal) + le_u16_bytes(m.vdisplay)
        + le_u16_bytes(m.vsync_start) + le_u16_bytes(m.vsync_end) + le_u16_bytes(m.vtotal)
        + le_u32_bytes(m.flags.0)
}

/// The mode whose timings all derive from `width` and `height` (taken modulo
/// 2^16), with sync pulses of one pixel at the very end of each line and frame,
/// and pixel clock `clock` in kHz.
pub open spec fn mode_with_clock(width: u32, height: u32, clock: u32) -> DisplayMode {
    let h = width as u16;
    let v = height as u16;
    DisplayMode {
        clock,
        hdisplay: h,
        hsync_start: h,
        hsync_end: (h + 1) as u16,
        htotal: (h + 1) as u16,
        vdisplay: v,
        vsync_start: v,
        vsync_end: (v + 1) as u16,
        vtotal: (v + 1) as u16,
        flags: DisplayModeFlags(0),
    }
}

impl DisplayMode {
    /// The mode for a `width` x `height` display with pixel clock `clock`
    /// (kHz): no blanking but a one-pixel sync pulse on each axis.
    pub fn with_clock(width: u32, height: u32, clock: u32) -> (m: DisplayMode)
        requires
            (width as u16) < u16::MAX,
            (height as u16) < u16::MAX,
        ensures
            m == mode_with_clock(width, height, clock),
            m.hdisplay <= m.hsync_start < m.hsync_end <= m.htotal,
            m.vdisplay <= m.vsync_start < m.vsync_end <= m.vtotal,
    {
        let hdisplay = width as u16;
        let vdisplay = height as u16;

        let hsync_offset: u16 = 0;
        let hsync_pulse_width: u16 = 1;
        let hblank = hsync_offset + hsync_pulse_width;
        let hsync_start = hdisplay + hsync_offset;
        let hsync_end = hsync_start + hsync_pulse_width;
        let htotal = hdisplay + hblank;

        let vsync_offset: u16 = 0;
        let vsync_pulse_width: u16 = 1;
        let vblank = vsync_offset + vsync_pulse_width;
        let vsync_start = vdisplay + vsync_offset;
        let vsync_end = vsync_start + vsync_pulse_width;
        let vtotal = vdisplay + vblank;

        DisplayMode {
            clock,
            hdisplay,
            hsync_start,
            hsync_end,
            htotal,
            vdisplay,
            vsync_start,
            vsync_end,
            vtotal,
            flags: DisplayModeFlags::empty(),
        }
    }

    /// The 24 bytes of this mode on the wire.
    pub fn encode(&self) -> (r: Vec<u8>)
        ensures
            r@ == display_mode_bytes(*self),
            r@.len() == DISPLAY_MODE_LEN,
    {
        let mut out: Vec<u8> = Vec::with_capacity(DISPLAY_MODE_LEN);
        self.encode_into(&mut out);
        proof {
            assert(out@ =~= display_mode_bytes(*self));
        }
        out
    }

    /// Appends the 24 bytes of this mode to `out`.
    pub fn encode_into(&self, out: &mut Vec<u8>)
        ensures
            final(out)@ == old(out)@ + display_mode_bytes(*self),
    {
        push_u32_le(out, self.clock);
        push_u16_le(out, self.hdisplay);
        push_u16_le(out, self.hsync_start);
        push_u16_le(out, self.hsync_end);
        push_u16_le(out, self.htotal);
        push_u16_le(out, self.vdisplay);
        push_u16_le(out, self.vsync_start);
        push_u16_le(out, self.vsync_end);
        push_u16_le(out, self.vtotal);
        push_u32_le(out, self.flags.0);
        assert(out@ =~= old(out)@ + display_mode_bytes(*self));
    }
}

/// Every field of a display mode is read back from its offset in the
/// encoding: the encoding loses nothing.
pub proof fn lemma_display_mode_fields(m: DisplayMode)
    ensures
        display_mode_bytes(m).len() == 24,
        u32_at(display_mode_bytes(m), 0) == m.clock,
        u16_at(display_mode_bytes(m), 4) == m.hdisplay,
        u16_at(display_mode_bytes(m), 6) == m.hsync_start,
        u16_at(display_mode_bytes(m), 8) == m.hsync_end,
        u16_at(display_mode_bytes(m), 10) == m.htotal,
        u16_at(display_mode_bytes(m), 12) == m.vdisplay,
        u16_at(display_mode_bytes(m), 14) == m.vsync_start,
        u16_at(display_mode_bytes(m), 16) == m.vsync_end,
        u16_at(display_mode_bytes(m), 18) == m.vtotal,
        u32_at(display_mode_bytes(m), 20) == m.flags.0,
{
    let b = display_mode_bytes(m);
    lemma_u32_roundtrip(m.clock);
    lemma_u16_roundtrip(m.hdisplay);
    lemma_u16_roundtrip(m.hsync_start);
    lemma_u16_roundtrip(m.hsync_end);
    lemma_u16_roundtrip(m.htotal);
    lemma_u16_roundtrip(m.vdisplay);
    lemma_u16_roundtrip(m.vsync_start);
    lemma_u16_roundtrip(m.vsync_end);
    lemma_u16_roundtrip(m.vtotal);
    lemma_u32_roundtrip(m.flags.0);
    assert(b.subrange(0, 4) =~= le_u32_bytes(m.clock));
    assert(b.subrange(4, 6) =~= le_u16_bytes(m.hdisplay));
    assert(b.subrange(6, 8) =~= le_u16_bytes(m.hsync_start));
    assert(b.subrange(8, 10) =~= le_u16_bytes(m.hsync_end));
    assert(b.subrange(10, 12) =~= le_u16_bytes(m.htotal));
    assert(b.subrange(12, 14) =~= le_u16_bytes(m.vdisplay));
    assert(b.subrange(14, 16) =~= le_u16_bytes(m.vsync_start));
    assert(b.subrange(16, 18) =~= le_u16_bytes(m.vsync_end));
    assert(b.subrange(18, 20) =~= le_u16_bytes(m.vtotal));
    assert(b.subrange(20, 24) =~= le_u32_bytes(m.flags.0));
}

/// The descriptor a display answers to `GUD_REQ_GET_DESCRIPTOR`.
#[derive(Debug, Clone, Copy, PartialEq, Eq, Structural)]
pub struct DisplayDescriptor {
    pub magic: u32,
    pub version: u8,
    pub flags: DisplayDescriptorFlags,
    pub compression: Compression,
    pub max_buffer_size: u32,
    pub min_width: u32,
    pub max_width: u32,
    pub min_height: u32,
    pub max_height: u32,
}

/// The bytes of `d` on the wire.
pub open spec fn display_descriptor_bytes(d: DisplayDescriptor) -> Seq<u8> {
    le_u32_bytes(d.magic) + seq![d.version] + le_u32_bytes(d.flags.0) + seq![d.compression.0]
        + le_u32_bytes(d.max_buffer_size) + le_u32_bytes(d.min_width) + le_u32_bytes(d.max_width)
        + le_u32_bytes(d.min_height) + le_u32_bytes(d.max_height)
}

/// The descriptor of a display that accepts frames between the given sizes:
/// protocol version 1, no flags, LZ4 compression offered, and a buffer large
/// enough for a full frame at 4 bytes per pixel.
pub open spec fn descriptor_for(min_width: u32, min_height: u32, max_width: u32, max_height: u32)
    -> DisplayDescriptor {
    DisplayDescriptor {
        magic: GUD_DISPLAY_MAGIC,
        version: 1,
        flags: DisplayDescriptorFlags(0),
        compression: Compression(Compression::LZ4),
        max_buffer_size: (max_height * max_width * 4) as u32,
        min_width,
        max_width,
        min_height,
        max_height,
    }
}

impl DisplayDescriptor {
    /// The descriptor of a display accepting frames from `min_width` x
    /// `min_height` up to `max_width` x `max_height` pixels.
    pub fn new(min_width: u32, min_height: u32, max_width: u32, max_height: u32) -> (d: Self)
        requires
            max_height * max_width * 4 <= u32::MAX,
        ensures
            d == descriptor_for(min_width, min_height, max_width, max_height),
    {
        proof {
            assert(max_height * max_width <= u32::MAX) by (nonlinear_arith)
                requires
                    max_height * max_width * 4 <= u32::MAX,
            ;
        }
        DisplayDescriptor {
            magic: GUD_DISPLAY_MAGIC,
            version: 1,
            flags: DisplayDescriptorFlags::empty(),
            compression: Compression::from_bits_retain(Compression::LZ4),
            max_buffer_size: max_height * max_width * 4,
            min_width,
            max_width,
            min_height,
            max_height,
        }
    }

    /// The 30 bytes of this descriptor on the wire.
    pub fn encode(&self) -> (r: Vec<u8>)
        ensures
            r@ == display_descriptor_bytes(*self),
            r@.len() == DISPLAY_DESCRIPTOR_LEN,
    {
        let mut out: Vec<u8> = Vec::with_capacity(DISPLAY_DESCRIPTOR_LEN);
        push_u32_le(&mut out, self.magic);
        out.push(self.version);
        push_u32_le(&mut out, self.flags.0);
        out.push(self.compression.0);
        push_u32_le(&mut out, self.max_buffer_size);
        push_u32_le(&mut out, self.min_width);
        push_u32_le(&mut out, self.max_width);
        push_u32_le(&mut out, self.min_height);
        push_u32_le(&mut out, self.max_height);
        assert(out@ =~= display_descriptor_bytes(*self));
        out
    }
}

/// The descriptor a display sends offers compression and therefore never sets
/// `FULL_UPDATE`, which cannot be combined with compression.
pub proof fn lemma_descriptor_no_full_update_with_compression(
    min_width: u32,
    min_height: u32,
    max_width: u32,
    max_height: u32,
)
    ensures
        ({
            let d = descriptor_for(min_width, min_height, max_width, max_height);
            d.compression.0 != 0 && d.flags.0 & DisplayDescriptorFlags::FULL_UPDATE == 0
        }),
{
    assert(0u32 & 2u32 == 0u32) by (bit_vector);
}

/// The buffer size the descriptor announces holds a frame of the largest
/// size in any pixel format: `max_width * max_height` pixels of at most 32
/// bits.
pub proof fn lemma_buffer_holds_largest_frame(
    fmt: PixelFormat,
    min_width: u32,
    min_height: u32,
    max_width: u32,
    max_height: u32,
)
    requires
        max_height * max_width * 4 <= u32::MAX,
    ensures
        max_width * max_height * fmt.bpp() <= 8 * descriptor_for(
            min_width,
            min_height,
            max_width,
            max_height,
        ).max_buffer_size,
{
    let b = fmt.bpp();
    assert(b <= 32);
    assert(max_width * max_height * b <= max_height * max_width * 32) by (nonlinear_arith)
        requires
            b <= 32,
    ;
}

/// Every field of a display descriptor is read back from its offset in the
/// encoding.
pub proof fn lemma_display_descriptor_fields(d: DisplayDescriptor)
    ensures
        display_descriptor_bytes(d).len() == 30,
        u32_at(display_descriptor_bytes(d), 0) == d.magic,
        display_descriptor_bytes(d)[4] == d.version,
        u32_at(display_descriptor_bytes(d), 5) == d.flags.0,
        display_descriptor_bytes(d)[9] == d.compression.0,
        u32_at(display_descriptor_bytes(d), 10) == d.max_buffer_size,
        u32_at(display_descriptor_bytes(d), 14) == d.min_width,
        u32_at(display_descriptor_bytes(d), 18) == d.max_width,
        u32_at(display_descriptor_bytes(d), 22) == d.min_height,
        u32_at(display_descriptor_bytes(d), 26) == d.max_height,
{
    let b = display_descriptor_bytes(d);
    lemma_u32_roundtrip(d.magic);
    lemma_u32_roundtrip(d.flags.0);
    lemma_u32_roundtrip(d.max_buffer_size);
    lemma_u32_roundtrip(d.min_width);
    lemma_u32_roundtrip(d.max_width);
    lemma_u32_roundtrip(d.min_height);
    lemma_u32_roundtrip(d.max_height);
    assert(b.subrange(0, 4) =~= le_u32_bytes(d.magic));
    assert(b.subrange(5, 9) =~= le_u32_bytes(d.flags.0));
    assert(b.subrange(10, 14) =~= le_u32_bytes(d.max_buffer_size));
    assert(b.subrange(14, 18) =~= le_u32_bytes(d.min_width));
    assert(b.subrange(18, 22) =~= le_u32_bytes(d.max_width));
    assert(b.subrange(22, 26) =~= le_u32_bytes(d.min_height));
    assert(b.subrange(26, 30) =~= le_u32_bytes(d.max_height));
}

/// Description of one connector, as answered to `GUD_REQ_GET_CONNECTORS`.
#[derive(Debug, Clone, Copy, PartialEq, Eq, Structural)]
pub struct ConnectorDescriptor {
    pub connector_type: ConnectorType,
    pub flags: ConnectorDescriptorFlags,
}

/// The bytes of `c` on the wire.
pub open spec fn connector_descriptor_bytes(c: ConnectorDescriptor) -> Seq<u8> {
    seq![c.connector_type.code()] + le_u32_bytes(c.flags.0)
}

impl ConnectorDescriptor {
    /// The 5 bytes of this connector descriptor on the wire.
    pub fn encode(&self) -> (r: Vec<u8>)
        ensures
            r@ == connector_descriptor_bytes(*self),
            r@.len() == CONNECTOR_DESCRIPTOR_LEN,
    {
        let mut out: Vec<u8> = Vec::with_capacity(CONNECTOR_DESCRIPTOR_LEN);
        out.push(self.connector_type.code());
        push_u32_le(&mut out, self.flags.0);
        assert(out@ =~= connector_descriptor_bytes(*self));
        out
    }
}

/// A set-buffer request: the host announces the rectangle the next bulk
/// transfer updates.
#[derive(Debug, Clone, Copy, PartialEq, Eq, Structural)]
pub struct SetBuffer {
    pub x: u32,
    pub y: u32,
    pub width: u32,
    pub height: u32,
    pub length: u32,
    pub compression: Compression,
    pub compressed_length: u32,
}

/// Why a request could not be decoded.
#[derive(Debug, Clone, Copy, PartialEq, Eq, Structural)]
pub enum DecodeError {
    /// The data ended before the structure did.
    EndOfStream,
}

/// The bytes of `v` on the wire.
pub open spec fn set_buffer_bytes(v: SetBuffer) -> Seq<u8> {
    le_u32_bytes(v.x) + le_u32_bytes(v.y) + le_u32_bytes(v.width) + le_u32_bytes(v.height)
        + le_u32_bytes(v.length) + seq![v.compression.0] + le_u32_bytes(v.compressed_length)
}

/// The request held by the first 25 bytes of `b`.
pub open spec fn set_buffer_from(b: Seq<u8>) -> SetBuffer {
    SetBuffer {
        x: u32_at(b, 0),
        y: u32_at(b, 4),
        width: u32_at(b, 8),
        height: u32_at(b, 12),
        length: u32_at(b, 16),
        compression: Compression(b[20]),
        compressed_length: u32_at(b, 21),
    }
}

/// Number of bytes the bulk transfer following `v` carries.
pub open spec fn spec_transfer_len(v: SetBuffer) -> u32 {
    if v.compression.0 != 0 {
        v.compressed_length
    } else {
        v.length
    }
}

impl SetBuffer {
    /// Decodes a set-buffer request from the data stage of the control
    /// transfer; bytes after the first 25 are ignored.
    pub fn decode(b: &[u8]) -> (r: Result<SetBuffer, DecodeError>)
        ensures
            b@.len() < SET_BUFFER_LEN ==> r == Err::<SetBuffer, DecodeError>(
                DecodeError::EndOfStream,
            ),
            b@.len() >= SET_BUFFER_LEN ==> r == Ok::<SetBuffer, DecodeError>(set_buffer_from(b@)),
    {
        if b.len() < SET_BUFFER_LEN {
            return Err(DecodeError::EndOfStream);
        }
        Ok(
            SetBuffer {
                x: read_u32_le(b, 0),
                y: read_u32_le(b, 4),
                width: read_u32_le(b, 8),
                height: read_u32_le(b, 12),
                length: read_u32_le(b, 16),
                compression: Compression::from_bits_retain(b[20]),
                compressed_length: read_u32_le(b, 21),
            },
        )
    }

    /// Number of bytes of the bulk transfer that follows this request: the
    /// compressed length when compression is on, the plain length otherwise.
    pub fn transfer_len(&self) -> (r: u32)
        ensures
            r == spec_transfer_len(*self),
    {
        if !self.compression.is_empty() {
            self.compressed_length
        } else {
            self.length
        }
    }
}

/// The bulk transfer after a request carries the compressed length when any
/// compression bit is set, the plain length otherwise.
pub proof fn lemma_transfer_len(v: SetBuffer)
    ensures
        v.compression.0 == 0 ==> spec_transfer_len(v) == v.length,
        v.compression.0 != 0 ==> spec_transfer_len(v) == v.compressed_length,
{
}

/// Decoding the bytes of a request, whatever follows them, gives the request
/// back.
pub proof fn lemma_set_buffer_roundtrip(v: SetBuffer, rest: Seq<u8>)
    ensures
        set_buffer_bytes(v).len() == SET_BUFFER_LEN,
        set_buffer_from(set_buffer_bytes(v) + rest) == v,
{
    let b = set_buffer_bytes(v) + rest;
    lemma_u32_roundtrip(v.x);
    lemma_u32_roundtrip(v.y);
    lemma_u32_roundtrip(v.width);
    lemma_u32_roundtrip(v.height);
    lemma_u32_roundtrip(v.length);
    lemma_u32_roundtrip(v.compressed_length);
    assert(b.subrange(0, 4) =~= le_u32_bytes(v.x));
    assert(b.subrange(4, 8) =~= le_u32_bytes(v.y));
    assert(b.subrange(8, 12) =~= le_u32_bytes(v.width));
    assert(b.subrange(12, 16) =~= le_u32_bytes(v.height));
    assert(b.subrange(16, 20) =~= le_u32_bytes(v.length));
    assert(b.subrange(21, 25) =~= le_u32_bytes(v.compressed_length));
}

/// Decoding reads only the first 25 bytes: what follows them does not change
/// the request.
pub proof fn lemma_set_buffer_ignores_trailing(b: Seq<u8>, extra: Seq<u8>)
    requires
        b.len() >= SET_BUFFER_LEN,
    ensures
        set_buffer_from(b + extra) == set_buffer_from(b),
{
    let c = b + extra;
    assert(forall|i: int| 0 <= i < 25 ==> c[i] == b[i]);
}

/// The timings of a mode for a `width` x `height` display: the visible size
/// is the size modulo 2^16, sync starts right after the visible area and
/// lasts one pixel, which is also the whole blanking; no flag is set.
pub proof fn lemma_mode_timings(width: u32, height: u32, clock: u32)
    requires
        (width as u16) < u16::MAX,
        (height as u16) < u16::MAX,
    ensures
        ({
            let m = mode_with_clock(width, height, clock);
            &&& m.clock == clock
            &&& m.hdisplay as int == width as int % 0x1_0000
            &&& m.hsync_start == m.hdisplay
            &&& m.hsync_end as int == m.hdisplay + 1
            &&& m.htotal as int == m.hdisplay + 1
            &&& m.vdisplay as int == height as int % 0x1_0000
            &&& m.vsync_start == m.vdisplay
            &&& m.vsync_end as int == m.vdisplay + 1
            &&& m.vtotal as int == m.vdisplay + 1
            &&& m.flags.0 == 0
        }),
{
    assert((width as u16) as int == width as int % 0x1_0000) by (bit_vector);
    assert((height as u16) as int == height as int % 0x1_0000) by (bit_vector);
}

/// The descriptor of a display: the GUD magic `0x1d50614d`, protocol version
/// 1, no flags, LZ4 offered (bit 0), a buffer of four bytes per pixel of the
/// largest frame, and the sizes as given.
pub proof fn lemma_descriptor_values(min_width: u32, min_height: u32, max_width: u32, max_height: u32)
    requires
        max_height * max_width * 4 <= u32::MAX,
    ensures
        ({
            let d = descriptor_for(min_width, min_height, max_width, max_height);
            &&& d.magic == 0x1d50614d
            &&& d.version == 1
            &&& d.flags.0 == 0
            &&& d.compression.0 == 1
            &&& d.max_buffer_size as int == max_width as int * max_height as int * 4
            &&& d.min_width == min_width && d.max_width == max_width
            &&& d.min_height == min_height && d.max_height == max_height
        }),
{
    assert(max_height * max_width * 4 == max_width * max_height * 4) by (nonlinear_arith);
}

/// A set-buffer request is read from fixed places, each field a
/// little-endian number: x at bytes 0-3, y at 4-7, width at 8-11, height at
/// 12-15, length at 16-19, the compression byte at 20 and the compressed
/// length at 21-24.
pub proof fn lemma_set_buffer_layout(b: Seq<u8>)
    requires
        b.len() >= SET_BUFFER_LEN,
    ensures
        ({
            let v = set_buffer_from(b);
            &&& v.x as int == b[0] + 0x100 * b[1] + 0x1_0000 * b[2] + 0x100_0000 * b[3]
            &&& v.y as int == b[4] + 0x100 * b[5] + 0x1_0000 * b[6] + 0x100_0000 * b[7]
            &&& v.width as int == b[8] + 0x100 * b[9] + 0x1_0000 * b[10] + 0x100_0000 * b[11]
            &&& v.height as int == b[12] + 0x100 * b[13] + 0x1_0000 * b[14] + 0x100_0000 * b[15]
            &&& v.length as int == b[16] + 0x100 * b[17] + 0x1_0000 * b[18] + 0x100_0000 * b[19]
            &&& v.compression.0 == b[20]
            &&& v.compressed_length as int == b[21] + 0x100 * b[22] + 0x1_0000 * b[23] + 0x100_0000
                * b[24]
        }),
{
    lemma_u32_at_value(b, 0);
    lemma_u32_at_value(b, 4);
    lemma_u32_at_value(b, 8);
    lemma_u32_at_value(b, 12);
    lemma_u32_at_value(b, 16);
    lemma_u32_at_value(b, 21);
}

/// The bytes of a display mode, as little-endian numbers: the clock at 0-3,
/// then the eight 16-bit timings in the order hdisplay, hsync_start,
/// hsync_end, htotal, vdisplay, vsync_start, vsync_end, vtotal at 4-19, and
/// the flags at 20-23.
pub proof fn lemma_display_mode_layout(m: DisplayMode)
    ensures
        ({
            let b = display_mode_bytes(m);
            &&& b.len() == 24
            &&& m.clock as int == b[0] + 0x100 * b[1] + 0x1_0000 * b[2] + 0x100_0000 * b[3]
            &&& m.hdisplay as int == b[4] + 0x100 * b[5]
            &&& m.hsync_start as int == b[6] + 0x100 * b[7]
            &&& m.hsync_end as int == b[8] + 0x100 * b[9]
            &&& m.htotal as int == b[10] + 0x100 * b[11]
            &&& m.vdisplay as int == b[12] + 0x100 * b[13]
            &&& m.vsync_start as int == b[14] + 0x100 * b[15]
            &&& m.vsync_end as int == b[16] + 0x100 * b[17]
            &&& m.vtotal as int == b[18] + 0x100 * b[19]
            &&& m.flags.0 as int == b[20] + 0x100 * b[21] + 0x1_0000 * b[22] + 0x100_0000 * b[23]
        }),
{
    let b = display_mode_bytes(m);
    lemma_display_mode_fields(m);
    lemma_u32_at_value(b, 0);
    lemma_u16_at_value(b, 4);
    lemma_u16_at_value(b, 6);
    lemma_u16_at_value(b, 8);
    lemma_u16_at_value(b, 10);
    lemma_u16_at_value(b, 12);
    lemma_u16_at_value(b, 14);
    lemma_u16_at_value(b, 16);
    lemma_u16_at_value(b, 18);
    lemma_u32_at_value(b, 20);
}

/// The bytes of a display descriptor, as little-endian numbers: the magic
/// at 0-3, the version at 4, the flags at 5-8, the compression at 9, then the
/// buffer size, minimum width, maximum width, minimum height and maximum
/// height, four bytes each from 10.
pub proof fn lemma_display_descriptor_layout(d: DisplayDescriptor)
    ensures
        ({
            let b = display_descriptor_bytes(d);
            &&& b.len() == 30
            &&& d.magic as int == b[0] + 0x100 * b[1] + 0x1_0000 * b[2] + 0x100_0000 * b[3]
            &&& d.version == b[4]
            &&& d.flags.0 as int == b[5] + 0x100 * b[6] + 0x1_0000 * b[7] + 0x100_0000 * b[8]
            &&& d.compression.0 == b[9]
            &&& d.max_buffer_size as int == b[10] + 0x100 * b[11] + 0x1_0000 * b[12] + 0x100_0000
                * b[13]
            &&& d.min_width as int == b[14] + 0x100 * b[15] + 0x1_0000 * b[16] + 0x100_0000 * b[17]
            &&& d.max_width as int == b[18] + 0x100 * b[19] + 0x1_0000 * b[20] + 0x100_0000 * b[21]
            &&& d.min_height as int == b[22] + 0x100 * b[23] + 0x1_0000 * b[24] + 0x100_0000
                * b[25]
            &&& d.max_height as int == b[26] + 0x100 * b[27] + 0x1_0000 * b[28] + 0x100_0000
                * b[29]
        }),
{
    let b = display_descriptor_bytes(d);
    lemma_display_descriptor_fields(d);
    lemma_u32_at_value(b, 0);
    lemma_u32_at_value(b, 5);
    lemma_u32_at_value(b, 10);
    lemma_u32_at_value(b, 14);
    lemma_u32_at_value(b, 18);
    lemma_u32_at_value(b, 22);
    lemma_u32_at_value(b, 26);
}

/// The bytes of a connector descriptor: the connector type's code at 0, then
/// the flags as a little-endian number at 1-4.
pub proof fn lemma_connector_descriptor_layout(c: ConnectorDescriptor)
    ensures
        ({
            let b = connector_descriptor_bytes(c);
            &&& b.len() == 5
            &&& b[0] == c.connector_type.spec_code()
            &&& c.flags.0 as int == b[1] + 0x100 * b[2] + 0x1_0000 * b[3] + 0x100_0000 * b[4]
        }),
{
    let b = connector_descriptor_bytes(c);
    lemma_u32_roundtrip(c.flags.0);
    assert(b.subrange(1, 5) =~= le_u32_bytes(c.flags.0));
    lemma_u32_at_value(b, 1);
}

} // verus!
