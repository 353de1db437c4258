use bytes::BytesMut;
use gud_gadget::backends::BackendNames;
use gud_gadget::colors::{convert_buffer, num_pixels};
use gud_gadget::descriptors::{
    ConnectorDescriptor, DecodeError, DisplayDescriptor, DisplayMode, SetBuffer,
    GUD_DISPLAY_MAGIC,
};
use gud_gadget::flags::{
    Compression, ConnectorDescriptorFlags, ConnectorStatus, DisplayDescriptorFlags,
    DisplayModeFlags,
};
use gud_gadget::formats::{ConnectorType, PixelFormat, Status};
use gud_gadget::frame::{blit_rect, decompress_frame, update_framebuffer, FrameError};
use gud_gadget::protocol::{
    event, modes_payload, pixel_formats_payload, ControlEvent, EventAction, HostRequest,
};

fn set_buffer(x: u32, y: u32, width: u32, height: u32, length: u32) -> SetBuffer {
    SetBuffer {
        x,
        y,
        width,
        height,
        length,
        compression: Compression::empty(),
        compressed_length: 0,
    }
}

#[test]
fn flags_keep_all_bits() {
    assert_eq!(ConnectorStatus::from_bits_retain(0xff).bits(), 0xff);
    assert_eq!(ConnectorStatus::CONNECTED, 1);
    assert_eq!(ConnectorStatus::CHANGED, 0x80);
    assert!(Compression::empty().is_empty());
    assert!(!Compression::from_bits_retain(Compression::LZ4).is_empty());
    let f = DisplayModeFlags::from_bits_retain(DisplayModeFlags::PREFERRED | DisplayModeFlags::NHSYNC);
    assert!(f.contains(DisplayModeFlags::from_bits_retain(DisplayModeFlags::PREFERRED)));
    assert!(!f.contains(DisplayModeFlags::from_bits_retain(DisplayModeFlags::DBLCLK)));
    assert_eq!(DisplayModeFlags::DBLCLK, 1 << 12);
    assert_eq!(ConnectorDescriptorFlags::DOUBLESCAN, 4);
    assert_eq!(DisplayDescriptorFlags::FULL_UPDATE, 2);
    assert!(DisplayDescriptorFlags::empty().contains(DisplayDescriptorFlags::empty()));
}

#[test]
fn format_codes() {
    assert_eq!(PixelFormat::R1.code(), 0x01);
    assert_eq!(PixelFormat::RGB565.code(), 0x40);
    assert_eq!(PixelFormat::ARGB8888.code(), 0x81);
    assert_eq!(PixelFormat::RGB888.bpp(), 24);
    assert_eq!(PixelFormat::XRGB1111.bpp(), 4);
    assert_eq!(ConnectorType::HDMI.code(), 7);
    assert_eq!(Status::Success.code(), 0);
    assert_eq!(Status::Error.code(), 5);
    assert!(PixelFormat::R8 < PixelFormat::XRGB8888);
    assert_ne!(BackendNames::Default, BackendNames::MiniFB);
}

#[test]
fn display_mode_timings_and_encoding() {
    let m = DisplayMode::with_clock(1920, 1080, 148500);
    assert_eq!((m.hdisplay, m.hsync_start, m.hsync_end, m.htotal), (1920, 1920, 1921, 1921));
    assert_eq!((m.vdisplay, m.vsync_start, m.vsync_end, m.vtotal), (1080, 1080, 1081, 1081));
    assert!(m.flags.is_empty());
    assert_eq!(
        m.encode(),
        vec![
            0x14, 0x44, 0x02, 0x00, 0x80, 0x07, 0x80, 0x07, 0x81, 0x07, 0x81, 0x07, 0x38, 0x04,
            0x38, 0x04, 0x39, 0x04, 0x39, 0x04, 0, 0, 0, 0
        ]
    );
    // Widths are taken modulo 2^16.
    let w = DisplayMode::with_clock(65536 + 10, 20, 0);
    assert_eq!(w.hdisplay, 10);
}

#[test]
fn display_descriptor_encoding() {
    let d = DisplayDescriptor::new(640, 480, 800, 600);
    assert_eq!(d.magic, GUD_DISPLAY_MAGIC);
    assert_eq!(d.version, 1);
    assert_eq!(d.max_buffer_size, 800 * 600 * 4);
    assert!(800 * 600 * PixelFormat::ARGB8888.bpp() <= 8 * d.max_buffer_size);
    assert!(!d.compression.is_empty());
    assert_eq!(d.flags.bits() & DisplayDescriptorFlags::FULL_UPDATE, 0);
    assert_eq!(
        d.encode(),
        vec![
            0x4d, 0x61, 0x50, 0x1d, 1, 0, 0, 0, 0, 1, 0x00, 0x4c, 0x1d, 0x00, 0x80, 0x02, 0, 0,
            0x20, 0x03, 0, 0, 0xe0, 0x01, 0, 0, 0x58, 0x02, 0, 0
        ]
    );
}

#[test]
fn connector_descriptor_encoding() {
    let c = ConnectorDescriptor {
        connector_type: ConnectorType::DVI,
        flags: ConnectorDescriptorFlags::from_bits_retain(ConnectorDescriptorFlags::POLL_STATUS),
    };
    assert_eq!(c.encode(), vec![5, 1, 0, 0, 0]);
}

#[test]
fn set_buffer_decoding() {
    let bytes = [1, 0, 0, 0, 2, 0, 0, 0, 3, 0, 0, 0, 4, 0, 0, 0, 5, 1, 0, 0, 1, 6, 0, 0, 0, 99];
    let v = SetBuffer::decode(&bytes).unwrap();
    assert_eq!((v.x, v.y, v.width, v.height, v.length), (1, 2, 3, 4, 261));
    assert_eq!(v.compression.bits(), 1);
    assert_eq!(v.compressed_length, 6);
    assert_eq!(v.transfer_len(), 6);
    assert_eq!(SetBuffer::decode(&bytes[..24]), Err(DecodeError::EndOfStream));
    assert_eq!(set_buffer(0, 0, 1, 1, 7).transfer_len(), 7);
}

#[test]
fn dispatch_device_to_host() {
    assert_eq!(event(ControlEvent::SetupDeviceToHost(0x00)), EventAction::Reply(vec![0]));
    assert_eq!(
        event(ControlEvent::SetupDeviceToHost(0x01)),
        EventAction::Forward(HostRequest::GetDescriptor)
    );
    assert_eq!(
        event(ControlEvent::SetupDeviceToHost(0x40)),
        EventAction::Forward(HostRequest::GetPixelFormats)
    );
    assert_eq!(event(ControlEvent::SetupDeviceToHost(0x41)), EventAction::Reply(vec![0; 10]));
    assert_eq!(event(ControlEvent::SetupDeviceToHost(0x50)), EventAction::Reply(vec![0; 5]));
    assert_eq!(event(ControlEvent::SetupDeviceToHost(0x51)), EventAction::Reply(vec![0; 10]));
    assert_eq!(event(ControlEvent::SetupDeviceToHost(0x54)), EventAction::Reply(vec![1]));
    assert_eq!(
        event(ControlEvent::SetupDeviceToHost(0x55)),
        EventAction::Forward(HostRequest::GetDisplayModes)
    );
    assert_eq!(event(ControlEvent::SetupDeviceToHost(0x56)), EventAction::Reply(vec![0]));
    assert_eq!(event(ControlEvent::SetupDeviceToHost(0x60)), EventAction::Unhandled);
}

#[test]
fn dispatch_host_to_device_and_others() {
    assert_eq!(event(ControlEvent::SetupHostToDevice(0x60)), EventAction::ReceiveSetBuffer);
    for r in [0x53u8, 0x61, 0x62, 0x63, 0x64] {
        assert_eq!(event(ControlEvent::SetupHostToDevice(r)), EventAction::Receive);
    }
    assert_eq!(event(ControlEvent::SetupHostToDevice(0x01)), EventAction::Unhandled);
    assert_eq!(event(ControlEvent::Enable), EventAction::Ignore);
    assert_eq!(event(ControlEvent::Bind), EventAction::Ignore);
    assert_eq!(event(ControlEvent::Other), EventAction::Unhandled);
}

#[test]
fn modes_and_formats_payloads() {
    let a = DisplayMode::with_clock(800, 600, 1);
    let b = DisplayMode::with_clock(640, 480, 2);
    let p = modes_payload(&[a, b], 48).unwrap();
    assert_eq!(p.len(), 48);
    assert_eq!(&p[..24], &a.encode()[..]);
    assert_eq!(&p[24..], &b.encode()[..]);
    assert_eq!(modes_payload(&[a, b], 47), None);
    assert_eq!(modes_payload(&[], 0), Some(vec![]));
    assert_eq!(
        pixel_formats_payload(&[PixelFormat::RGB565, PixelFormat::XRGB8888]),
        vec![0x40, 0x80]
    );
}

#[test]
fn convert_every_format() {
    let r1 = convert_buffer(PixelFormat::R1, &[0b0000_0101]);
    assert_eq!(r1.len(), 8);
    assert_eq!(&r1[..3], &[0xffff_ffff, 0xff00_0000, 0xffff_ffff]);
    assert_eq!(convert_buffer(PixelFormat::R8, &[0x12]), vec![0xff12_1212]);
    assert_eq!(convert_buffer(PixelFormat::XRGB1111, &[0x4a]), vec![0xff00_8000, 0xff80_0000]);
    assert_eq!(convert_buffer(PixelFormat::RGB332, &[0xff]), vec![0xffe0_e0c0]);
    assert_eq!(convert_buffer(PixelFormat::RGB565, &[0x1f, 0xf8]), vec![0xfff8_00f8]);
    assert_eq!(convert_buffer(PixelFormat::RGB888, &[1, 2, 3, 4]), vec![0xff03_0201]);
    assert_eq!(convert_buffer(PixelFormat::XRGB8888, &[9, 1, 2, 3]), vec![0xff03_0201]);
    assert_eq!(convert_buffer(PixelFormat::ARGB8888, &[0x80, 1, 2, 3]), vec![0x8003_0201]);
    assert_eq!(num_pixels(PixelFormat::XRGB8888, 9), 2);
}

#[test]
fn convert_concatenated_inputs() {
    let a = [1u8, 2, 3, 4, 5, 6];
    let c = [7u8, 8, 9];
    let both = [&a[..], &c[..]].concat();
    for f in [PixelFormat::R1, PixelFormat::R8, PixelFormat::XRGB1111, PixelFormat::RGB888] {
        let joined = [convert_buffer(f, &a), convert_buffer(f, &c)].concat();
        assert_eq!(convert_buffer(f, &both), joined);
    }
    let a = [1u8, 2, 3, 4];
    let c = [5u8, 6, 7, 8];
    let both = [&a[..], &c[..]].concat();
    for f in [PixelFormat::RGB565, PixelFormat::XRGB8888, PixelFormat::ARGB8888] {
        let joined = [convert_buffer(f, &a), convert_buffer(f, &c)].concat();
        assert_eq!(convert_buffer(f, &both), joined);
    }
    assert_eq!(num_pixels(PixelFormat::RGB888, 7), 2);
}

#[test]
fn blit_writes_only_the_rectangle() {
    let mut fb = vec![0u8; 12];
    blit_rect(&set_buffer(1, 1, 2, 2, 4), &[1, 2, 3, 4], &mut fb, 4, 1);
    assert_eq!(fb, vec![0, 0, 0, 0, 0, 1, 2, 0, 0, 3, 4, 0]);
    let mut fb = vec![7u8; 8];
    blit_rect(&set_buffer(0, 0, 1, 2, 4), &[1, 2, 3, 4], &mut fb, 4, 2);
    assert_eq!(fb, vec![1, 2, 7, 7, 3, 4, 7, 7]);
}

#[test]
fn update_uncompressed_frame() {
    let mut fb = vec![0u8; 12];
    let mut scratch = BytesMut::new();
    let r = update_framebuffer(&set_buffer(1, 1, 2, 2, 4), &[1, 2, 3, 4], &mut scratch, &mut fb, 4, 1);
    assert_eq!(r, Ok(()));
    assert_eq!(fb, vec![0, 0, 0, 0, 0, 1, 2, 0, 0, 3, 4, 0]);
    assert!(scratch.is_empty());
}

#[test]
fn update_compressed_frame() {
    let data = [1u8, 2, 3, 4];
    let compressed = lz4::block::compress(&data, None, false).unwrap();
    let info = SetBuffer {
        compression: Compression::from_bits_retain(Compression::LZ4),
        compressed_length: compressed.len() as u32,
        ..set_buffer(1, 1, 2, 2, 4)
    };
    let mut fb = vec![0u8; 12];
    let mut scratch = BytesMut::new();
    assert_eq!(update_framebuffer(&info, &compressed, &mut scratch, &mut fb, 4, 1), Ok(()));
    assert_eq!(fb, vec![0, 0, 0, 0, 0, 1, 2, 0, 0, 3, 4, 0]);
    assert_eq!(&scratch[..], &data);
}

#[test]
fn compression_is_transparent() {
    let plain: Vec<u8> = (0u8..24).collect();
    let compressed = lz4::block::compress(&plain, None, false).unwrap();
    let plain_info = set_buffer(1, 0, 3, 2, 24);
    let lz4_info = SetBuffer {
        compression: Compression::from_bits_retain(Compression::LZ4),
        compressed_length: compressed.len() as u32,
        ..plain_info
    };
    let mut fb_a = vec![0xaau8; 40];
    let mut fb_b = fb_a.clone();
    let mut scratch_a = BytesMut::new();
    let mut scratch_b = BytesMut::new();
    assert_eq!(update_framebuffer(&plain_info, &plain, &mut scratch_a, &mut fb_a, 20, 4), Ok(()));
    assert_eq!(update_framebuffer(&lz4_info, &compressed, &mut scratch_b, &mut fb_b, 20, 4), Ok(()));
    assert_eq!(fb_a, fb_b);
}

#[test]
fn compressed_rectangle_out_of_bounds() {
    let plain = [1u8, 2, 3, 4];
    let compressed = lz4::block::compress(&plain, None, false).unwrap();
    let info = SetBuffer {
        compression: Compression::from_bits_retain(Compression::LZ4),
        compressed_length: compressed.len() as u32,
        ..set_buffer(1, 1, 2, 2, 4)
    };
    let mut fb = vec![0u8; 8];
    let mut scratch = BytesMut::new();
    assert_eq!(
        update_framebuffer(&info, &compressed, &mut scratch, &mut fb, 4, 1),
        Err(FrameError::OutOfBounds)
    );
    assert_eq!(fb, vec![0u8; 8]);
    // Invalid data fails before the rectangle is looked at.
    let bad = SetBuffer { compressed_length: 2, ..info };
    let mut scratch = BytesMut::from(&[0u8; 4][..]);
    assert_eq!(
        update_framebuffer(&bad, &[0xff, 0xff], &mut scratch, &mut fb, 4, 1),
        Err(FrameError::Decompress)
    );
    assert_eq!(fb, vec![0u8; 8]);
}

#[test]
fn decompression_failures() {
    let data = [5u8; 16];
    let compressed = lz4::block::compress(&data, None, false).unwrap();
    // A large enough scratch buffer is used as it is.
    let mut scratch = BytesMut::from(&[9u8; 20][..]);
    assert_eq!(decompress_frame(&compressed, 16, &mut scratch), Ok(()));
    assert_eq!(scratch.len(), 20);
    assert_eq!(&scratch[..16], &data);
    // A shorter scratch buffer that already holds bytes cannot be grown.
    let mut scratch = BytesMut::from(&[9u8; 4][..]);
    assert!(decompress_frame(&compressed, 16, &mut scratch).is_err());
    // An empty scratch buffer that has allocated more than the frame needs.
    let mut scratch = BytesMut::with_capacity(64);
    assert_eq!(decompress_frame(&compressed, 16, &mut scratch), Err(FrameError::ScratchCapacity));
    // Invalid data.
    let mut scratch = BytesMut::from(&[0u8; 16][..]);
    assert_eq!(decompress_frame(&[0xff, 0xff], 16, &mut scratch), Err(FrameError::Decompress));
}
