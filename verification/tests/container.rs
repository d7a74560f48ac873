use sstv::crypt::crc;
use sstv::img::Image;
use sstv::png::{encode_png, filter_scanlines, png_container, write_chunk};

const SIGNATURE: [u8; 8] = [0x89, 0x50, 0x4E, 0x47, 0x0D, 0x0A, 0x1A, 0x0A];

#[test]
fn a_record_is_length_tag_payload_checksum() {
    let mut out = vec![0xAA];
    write_chunk(&mut out, b"tEXt", b"hello");
    let mut want = vec![0xAA, 0, 0, 0, 5];
    want.extend(b"tEXt");
    want.extend(b"hello");
    want.extend(crc(b"tEXthello").to_be_bytes());
    assert_eq!(out, want);
}

#[test]
fn an_empty_record() {
    let mut out = Vec::new();
    write_chunk(&mut out, b"IEND", &[]);
    assert_eq!(out, [0, 0, 0, 0, 0x49, 0x45, 0x4E, 0x44, 0xAE, 0x42, 0x60, 0x82]);
}

#[test]
fn a_long_record_has_its_length_in_four_bytes() {
    let payload = vec![7u8; 0x01_02_03];
    let mut out = Vec::new();
    write_chunk(&mut out, b"IDAT", &payload);
    assert_eq!(&out[..4], &[0, 1, 2, 3]);
    assert_eq!(out.len(), 12 + payload.len());
}

#[test]
fn the_container_byte_for_byte() {
    let file = png_container(0x0102_0304, 5, &[9, 8, 7]);
    let mut want = SIGNATURE.to_vec();
    let header = [b'I', b'H', b'D', b'R', 1, 2, 3, 4, 0, 0, 0, 5, 8, 2, 0, 0, 0];
    want.extend([0, 0, 0, 13]);
    want.extend(header);
    want.extend(crc(&header).to_be_bytes());
    want.extend([0, 0, 0, 3]);
    want.extend(b"IDAT");
    want.extend([9, 8, 7]);
    want.extend(crc(&[b'I', b'D', b'A', b'T', 9, 8, 7]).to_be_bytes());
    want.extend([0, 0, 0, 0]);
    want.extend(b"IEND");
    want.extend(crc(b"IEND").to_be_bytes());
    assert_eq!(file, want);
    assert_eq!(file.len(), 57 + 3);
}

#[test]
fn every_scanline_gets_a_filter_byte() {
    let image = Image::from_data(2, 2, (1..=12).collect()).expect("a picture");
    assert_eq!(filter_scanlines(&image), [0, 1, 2, 3, 4, 5, 6, 0, 7, 8, 9, 10, 11, 12]);
    assert!(filter_scanlines(&Image::new(0, 4)).is_empty());
    assert_eq!(filter_scanlines(&Image::new(3, 0)), [0, 0, 0]);
}

#[test]
fn a_picture_goes_into_the_file_and_comes_out_again() {
    let mut image = Image::new(3, 5);
    for y in 0..3 {
        for x in 0..5 {
            assert!(image.set_pixel_usize(x, y, ((x * 40) as usize, (y * 90) as usize, 200)));
        }
    }
    let file = encode_png(&image).expect("a file");
    assert_eq!(&file[..8], &SIGNATURE);
    assert_eq!(&file[8..16], &[0, 0, 0, 13, b'I', b'H', b'D', b'R']);
    assert_eq!(&file[16..24], &[0, 0, 0, 5, 0, 0, 0, 3]);
    assert_eq!(&file[24..29], &[8, 2, 0, 0, 0]);
    assert_eq!(&file[29..33], &crc(&file[12..29]).to_be_bytes());
    let len = u32::from_be_bytes([file[33], file[34], file[35], file[36]]) as usize;
    assert_eq!(&file[37..41], b"IDAT");
    assert_eq!(&file[41 + len..45 + len], &crc(&file[37..41 + len]).to_be_bytes());
    assert_eq!(&file[45 + len..], &[0, 0, 0, 0, b'I', b'E', b'N', b'D', 0xAE, 0x42, 0x60, 0x82]);
    let raw = miniz_oxide::inflate::decompress_to_vec_zlib(&file[41..41 + len]).expect("a stream");
    assert_eq!(raw, filter_scanlines(&image));
    assert_eq!(raw.len(), 3 * 16);
    assert_eq!(&raw[16..23], &[0, 0, 90, 200, 40, 90, 200]);
}

#[test]
fn an_empty_picture_has_a_file_too() {
    let file = encode_png(&Image::new(0, 0)).expect("a file");
    assert_eq!(&file[..8], &SIGNATURE);
    assert_eq!(&file[16..24], &[0; 8]);
    let len = u32::from_be_bytes([file[33], file[34], file[35], file[36]]) as usize;
    let raw = miniz_oxide::inflate::decompress_to_vec_zlib(&file[41..41 + len]).expect("a stream");
    assert!(raw.is_empty());
}

fn raster_header(width: u32, height: u32) -> Vec<u8> {
    let mut header = vec![0x50, 0x36];
    header.extend(format!(" {} {} 255\n", width, height).bytes());
    header
}

#[test]
fn the_plain_raster_file() {
    let image = Image::from_data(2, 3, (1..=18).collect()).expect("a picture");
    let mut want = raster_header(3, 2);
    assert_eq!(want.len(), 11);
    want.extend(1..=18u8);
    assert_eq!(sstv::ppm::encode_ppm(&image), want);
    assert_eq!(sstv::ppm::encode_ppm(&Image::new(0, 0)), raster_header(0, 0));
    let file = sstv::ppm::encode_ppm(&Image::new(256, 320));
    assert_eq!(&file[..15], &raster_header(320, 256));
    assert_eq!(file.len(), 15 + 245_760);
    let file = sstv::ppm::encode_ppm(&Image::new(0, 1_234_567_890));
    assert_eq!(file, raster_header(1_234_567_890, 0));
}
