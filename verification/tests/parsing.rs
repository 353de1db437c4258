use gud_gadget::colors::convertible;
use gud_gadget::descriptors::SetBuffer;
use gud_gadget::flags::Compression;
use gud_gadget::formats::PixelFormat;
use gud_gadget::frame::{frame_fits, rect_fits_exec};
use gud_gadget::video_mode::{framerate_separator, only_index_of, parse_dimensions, parse_u32, ModeError};

#[test]
fn u32_text_as_from_str() {
    assert_eq!(parse_u32(b"1920"), Some(1920));
    assert_eq!(parse_u32(b"+7"), Some(7));
    assert_eq!(parse_u32(b"007"), Some(7));
    assert_eq!(parse_u32(b"4294967295"), Some(u32::MAX));
    assert_eq!(parse_u32(b"4294967296"), None);
    assert_eq!(parse_u32(b"99999999999x"), None);
    assert_eq!(parse_u32(b""), None);
    assert_eq!(parse_u32(b"+"), None);
    assert_eq!(parse_u32(b"-1"), None);
    assert_eq!(parse_u32(b"12a"), None);
    assert_eq!(parse_u32(b" 12"), None);
    for s in ["0", "65535", "+42", "x", "", "1_000"] {
        assert_eq!(parse_u32(s.as_bytes()), s.parse::<u32>().ok());
    }
}

#[test]
fn separators() {
    assert_eq!(only_index_of(b"ab@c", b'@'), Some(2));
    assert_eq!(only_index_of(b"abc", b'@'), None);
    assert_eq!(only_index_of(b"a@b@c", b'@'), None);
    assert_eq!(framerate_separator(b"800x600@60"), Ok(7));
    assert_eq!(framerate_separator(b"800x600"), Err(ModeError::Format));
    assert_eq!(framerate_separator(b"8@0x600@60"), Err(ModeError::Format));
}

#[test]
fn dimensions() {
    assert_eq!(parse_dimensions(b"800x600"), Ok((800, 600)));
    assert_eq!(parse_dimensions(b"800"), Err(ModeError::Dimensions));
    assert_eq!(parse_dimensions(b"8x0x6"), Err(ModeError::Dimensions));
    assert_eq!(parse_dimensions(b"ax600"), Err(ModeError::Width));
    assert_eq!(parse_dimensions(b"800x"), Err(ModeError::Height));
    assert_eq!(parse_dimensions(b"x"), Err(ModeError::Width));
}

#[test]
fn frame_fit_checks() {
    let info = SetBuffer {
        x: 1,
        y: 1,
        width: 2,
        height: 2,
        length: 4,
        compression: Compression::empty(),
        compressed_length: 0,
    };
    assert!(frame_fits(&info, 12, 4, 1));
    assert!(!frame_fits(&info, 10, 4, 1));
    assert!(!frame_fits(&SetBuffer { length: 3, ..info }, 12, 4, 1));
    assert!(!frame_fits(&SetBuffer { y: u32::MAX, ..info }, 12, 4, 1));
    assert!(frame_fits(&SetBuffer { height: 0, length: 0, ..info }, 0, 4, 1));
    // A compressed frame's rectangle is tested once it is decompressed.
    let compressed = SetBuffer { compression: Compression::from_bits_retain(Compression::LZ4), ..info };
    assert!(frame_fits(&compressed, 0, 4, 1));
    assert!(rect_fits_exec(&info, 12, 4, 1, 4));
    assert!(!rect_fits_exec(&info, 12, 4, 1, 3));
}

#[test]
fn mode_text_reads_back() {
    for (w, h, f) in [(800u32, 600u32, 60.0f32), (0, 4294967295, 29.97), (1920, 1080, -1.5)] {
        let s = format!("{}x{}@{}", w, h, f);
        let at = framerate_separator(s.as_bytes()).unwrap();
        assert_eq!(&s[at + 1..], format!("{}", f));
        assert_eq!(parse_dimensions(&s.as_bytes()[..at]), Ok((w, h)));
    }
}

#[test]
fn partial_pixels() {
    assert!(convertible(PixelFormat::RGB565, 4));
    assert!(!convertible(PixelFormat::RGB565, 5));
    assert!(convertible(PixelFormat::RGB888, 7));
    assert!(!convertible(PixelFormat::RGB888, 8));
    assert!(convertible(PixelFormat::ARGB8888, 9));
    assert!(!convertible(PixelFormat::ARGB8888, 10));
    assert!(convertible(PixelFormat::R1, 3));
}
