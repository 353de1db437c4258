use bytes::BytesMut;
use gud_gadget::colors::{convert_buffer, display_pixels, DisplayError};
use gud_gadget::flags::{Compression, DisplayModeFlags};
use gud_gadget::formats::PixelFormat;
use gud_gadget::frame::{decompress_with_capacity, scratch_growth, FrameError};

#[test]
fn scratch_growth_cases() {
    assert_eq!(scratch_growth(16, 0, 16), Ok(None));
    assert_eq!(scratch_growth(20, 32, 16), Ok(None));
    assert_eq!(scratch_growth(0, 0, 16), Ok(Some(16)));
    assert_eq!(scratch_growth(4, 10, 16), Ok(Some(6)));
    assert_eq!(scratch_growth(4, 17, 16), Err(FrameError::ScratchCapacity));
}

#[test]
fn decompress_for_each_capacity() {
    let data = [3u8; 16];
    let compressed = lz4::block::compress(&data, None, false).unwrap();
    // Capacity 0: grown to the frame's length.
    let mut scratch = BytesMut::new();
    assert_eq!(decompress_with_capacity(&compressed, 16, &mut scratch, 0), Ok(()));
    assert_eq!(&scratch[..], &data);
    // A capacity that leaves the buffer too short.
    let mut scratch = BytesMut::new();
    assert_eq!(decompress_with_capacity(&compressed, 16, &mut scratch, 8), Err(FrameError::Decompress));
    assert_eq!(scratch.len(), 8);
    // A capacity above the frame's length.
    let mut scratch = BytesMut::new();
    assert_eq!(
        decompress_with_capacity(&compressed, 16, &mut scratch, 17),
        Err(FrameError::ScratchCapacity)
    );
    assert!(scratch.is_empty());
}

#[test]
fn displayed_pixels() {
    // Other formats go through the conversion.
    assert_eq!(display_pixels(PixelFormat::R8, &[0x12]), Ok(convert_buffer(PixelFormat::R8, &[0x12])));
    assert_eq!(display_pixels(PixelFormat::RGB565, &[1, 2, 3]), Err(DisplayError::PartialPixel));
    // 32-bit formats are read as native words.
    let words: Vec<u32> = vec![0x8001_0203, 0xff04_0506];
    let bytes: Vec<u8> = words.iter().flat_map(|w| w.to_ne_bytes()).collect();
    let aligned: &[u32] = &words;
    let aligned_bytes: &[u8] = bytemuck::cast_slice(aligned);
    assert_eq!(aligned_bytes, &bytes[..]);
    assert_eq!(display_pixels(PixelFormat::ARGB8888, aligned_bytes), Ok(words.clone()));
    assert_eq!(display_pixels(PixelFormat::XRGB8888, &aligned_bytes[..7]), Err(DisplayError::Cast));
}

#[test]
fn more_flag_operations() {
    let mut f = DisplayModeFlags::empty();
    f.insert(DisplayModeFlags::from_bits_retain(DisplayModeFlags::PHSYNC | DisplayModeFlags::PVSYNC));
    assert!(f.intersects(DisplayModeFlags::from_bits_retain(DisplayModeFlags::PVSYNC)));
    f.remove(DisplayModeFlags::from_bits_retain(DisplayModeFlags::PHSYNC));
    assert_eq!(f.bits(), DisplayModeFlags::PVSYNC);
    f.toggle(DisplayModeFlags::from_bits_retain(DisplayModeFlags::PVSYNC | DisplayModeFlags::DBLCLK));
    assert_eq!(f.bits(), DisplayModeFlags::DBLCLK);
    f.set(DisplayModeFlags::from_bits_retain(1), true);
    assert_eq!(f.bits(), DisplayModeFlags::DBLCLK | 1);
    assert_eq!(f.complement().bits(), !(DisplayModeFlags::DBLCLK | 1));
    assert!(DisplayModeFlags::all().is_all());
    assert_eq!(Compression::all().bits(), 0xff);
    assert_eq!(Compression::from_bits(0x81), Some(Compression::from_bits_truncate(0x81)));
    let a = Compression::from_bits_retain(0b1100);
    let b = Compression::from_bits_retain(0b1010);
    assert_eq!(a.union(b).bits(), 0b1110);
    assert_eq!(a.intersection(b).bits(), 0b1000);
    assert_eq!(a.difference(b).bits(), 0b0100);
    assert_eq!(a.symmetric_difference(b).bits(), 0b0110);
}
