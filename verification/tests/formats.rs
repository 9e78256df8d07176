use aya::bitmap::{from_reader, BitDepth, Color, Error};
use aya::bytecode::Loader;

/// A four-bit bitmap of two palette colours and the pixel bytes `pixels`.
fn bitmap_file(pixels: &[u8]) -> Vec<u8> {
    let mut buf = vec![0u8; 0x36];
    buf[0] = b'B';
    buf[1] = b'M';
    let put32 = |buf: &mut Vec<u8>, at: usize, v: u32| buf[at..at + 4].copy_from_slice(&v.to_le_bytes());
    let data_offset = 0x36 + 8;
    put32(&mut buf, 0x02, (data_offset + pixels.len()) as u32);
    put32(&mut buf, 0x0A, data_offset as u32);
    put32(&mut buf, 0x12, 2);
    put32(&mut buf, 0x16, 2);
    buf[0x1C] = 4;
    put32(&mut buf, 0x22, pixels.len() as u32);
    put32(&mut buf, 0x2E, 2);
    buf.extend_from_slice(&[1, 2, 3, 0, 4, 5, 6, 0]);
    buf.extend_from_slice(pixels);
    buf
}

#[test]
fn bitmap_four_bit_pixels_come_last_first() {
    let bitmap = from_reader(&bitmap_file(&[0x01, 0x11])).unwrap();
    let c0 = Color::new(3, 2, 1);
    let c1 = Color::new(6, 5, 4);
    assert_eq!(bitmap.palette(), &[c0, c1]);
    assert_eq!(bitmap.data(), &[c1, c1, c1, c0]);
    assert_eq!(bitmap.header().data_offset, 0x3E);
    assert_eq!(bitmap.header().file_size, 0x40);
    assert_eq!(bitmap.info_header().width(), 2);
    assert_eq!(bitmap.info_header().height(), 2);
    assert_eq!(bitmap.info_header().bit_depth, BitDepth::Bit4);
    assert_eq!(bitmap.file_name(), "");
    let named = bitmap.named("tiles.bmp".to_string());
    assert_eq!(named.file_name(), "tiles.bmp");
    assert_eq!(named.data().len(), 4);
}

#[test]
fn bitmap_refuses_what_is_no_bitmap() {
    assert_eq!(from_reader(&[0u8; 10]).unwrap_err(), Error::NonBitmap);
    let mut file = bitmap_file(&[0x01]);
    file[1] = b'X';
    assert_eq!(from_reader(&file).unwrap_err(), Error::NonBitmap);
    let mut file = bitmap_file(&[0x01]);
    file[0x1C] = 3;
    assert_eq!(from_reader(&file).unwrap_err(), Error::NonBitmap);
}

#[test]
fn bitmap_colours_and_depths() {
    assert_eq!(Color::from_bgr([1, 2, 3]), Color::new(3, 2, 1));
    assert_eq!(Color::new(7, 8, 9).to_rgb(), [7, 8, 9]);
    assert_eq!(BitDepth::try_from(24), Ok(BitDepth::Bit24));
    assert_eq!(BitDepth::try_from(2), Err(Error::NonBitmap));
    assert!(BitDepth::Bit8.has_palette());
    assert!(!BitDepth::Bit16.has_palette());
}

#[test]
fn bytecode_text_reads_hex_bytes() {
    assert_eq!(Loader::load("11 02 00 42\n  12 60\t00 02 \n\nff"), vec![0x11, 0x02, 0x00, 0x42, 0x12, 0x60, 0x00, 0x02, 0xFF]);
    assert_eq!(Loader::load("  \n "), Vec::<u8>::new());
    assert_eq!(Loader::load("a\u{2003}B"), vec![0x0A, 0x0B]);
}
