use sstv::crypt::{crc, encode_data_zlib};

#[test]
fn crc_of_check_string() {
    assert_eq!(crc(b"123456789"), 0xCBF4_3926);
}

#[test]
fn crc_of_nothing() {
    assert_eq!(crc(&[]), 0);
}

#[test]
fn crc_of_end_tag() {
    assert_eq!(crc(b"IEND"), 0xAE42_6082);
}

#[test]
fn crc_of_one_byte() {
    assert_eq!(crc(&[0]), 0xD202_EF8D);
    assert_eq!(crc(b"a"), 0xE8B7_BE43);
}

#[test]
fn crc_keeps_no_state() {
    let first = crc(b"The quick brown fox jumps over the lazy dog");
    let second = crc(b"The quick brown fox jumps over the lazy dog");
    assert_eq!(first, 0x414F_A339);
    assert_eq!(first, second);
}

#[test]
fn zlib_stream_inflates_to_the_data() {
    let data: Vec<u8> = (0..5000u32).map(|i| (i * i % 251) as u8).collect();
    let compressed = encode_data_zlib(&data);
    assert_ne!(compressed, data);
    assert_eq!(compressed[0] & 0x0f, 8);
    let back = miniz_oxide::inflate::decompress_to_vec_zlib(&compressed).expect("a zlib stream");
    assert_eq!(back, data);
}

#[test]
fn zlib_stream_of_nothing() {
    let compressed = encode_data_zlib(&[]);
    let back = miniz_oxide::inflate::decompress_to_vec_zlib(&compressed).expect("a zlib stream");
    assert!(back.is_empty());
    assert!(!compressed.is_empty());
}

#[test]
fn zlib_stream_is_the_same_each_time() {
    let data = vec![7u8; 1000];
    assert_eq!(encode_data_zlib(&data), encode_data_zlib(&data));
    assert!(encode_data_zlib(&data).len() < 100);
}
