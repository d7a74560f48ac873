use sstv::vis::{decode_vis, in_catalog, read_vis, DecodeError};

fn bits(text: &str) -> Vec<bool> {
    text.chars().map(|c| c == '1').collect()
}

#[test]
fn code_44_is_martin_1() {
    // 44 is 0101100 with the highest bit first; the lowest goes first on the air,
    // and the eighth bit makes the ones even
    let received = bits("00110101");
    assert_eq!(read_vis(&received), Ok(44));
    assert_eq!(decode_vis(&received).expect("a mode").name, "Martin 1");
}

#[test]
fn code_44_with_odd_parity_is_refused() {
    let received = bits("00110100");
    assert_eq!(read_vis(&received), Err(DecodeError::InvalidParity));
    assert_eq!(decode_vis(&received).err(), Some(DecodeError::InvalidParity));
}

#[test]
fn reversed_bits_spell_another_code() {
    // 1011000 with the highest bit first is 88, which no mode has
    let received = bits("00011011");
    assert_eq!(read_vis(&received), Err(DecodeError::UnsupportedMode(88)));
    // the same seven bits with the lowest first are 13
    let received = bits("10110001");
    assert_eq!(read_vis(&received), Err(DecodeError::UnsupportedMode(13)));
}

#[test]
fn every_code_of_the_catalog_is_read() {
    for (code, name) in [
        (8usize, "Robot 36"),
        (12, "Robot 72"),
        (40, "Martin 2"),
        (44, "Martin 1"),
        (56, "Scottie 2"),
        (60, "Scottie 1"),
        (76, "Scottie DX"),
    ] {
        let mut received: Vec<bool> = (0..7).map(|bit| (code >> bit) & 1 == 1).collect();
        let ones = received.iter().filter(|bit| **bit).count();
        received.push(ones % 2 == 1);
        assert_eq!(read_vis(&received), Ok(code));
        assert_eq!(decode_vis(&received).expect("a mode").name, name);
        let last = received[7];
        received[7] = !last;
        assert_eq!(read_vis(&received), Err(DecodeError::InvalidParity));
    }
}

#[test]
fn every_other_code_is_refused() {
    for code in 0..128usize {
        let mut received: Vec<bool> = (0..7).map(|bit| (code >> bit) & 1 == 1).collect();
        let ones = received.iter().filter(|bit| **bit).count();
        received.push(ones % 2 == 1);
        let known = [8, 12, 40, 44, 56, 60, 76].contains(&code);
        assert_eq!(in_catalog(code), known);
        if known {
            assert_eq!(read_vis(&received), Ok(code));
        } else {
            assert_eq!(read_vis(&received), Err(DecodeError::UnsupportedMode(code)));
            assert_eq!(decode_vis(&received).err(), Some(DecodeError::UnsupportedMode(code)));
        }
    }
}

#[test]
fn parity_is_looked_at_before_the_code() {
    // 13 is no code of the catalog, and the ones are odd
    assert_eq!(read_vis(&bits("10110000")), Err(DecodeError::InvalidParity));
}

#[test]
fn all_zeros_and_all_ones() {
    assert_eq!(read_vis(&bits("00000000")), Err(DecodeError::UnsupportedMode(0)));
    assert_eq!(read_vis(&bits("11111111")), Err(DecodeError::UnsupportedMode(127)));
    assert_eq!(read_vis(&bits("11111110")), Err(DecodeError::InvalidParity));
}

#[test]
fn failures_in_words() {
    assert_eq!(
        DecodeError::HeaderNotFound.message(),
        "Couldn't find SSTV header in the given audio file"
    );
    assert_eq!(
        DecodeError::CodeCutShort.message(),
        "Reached end of audio whilst decoding the VIS header"
    );
    assert_eq!(
        DecodeError::InvalidParity.message(),
        "Error decoding VIS header (invalid parity bit)"
    );
    assert_eq!(
        DecodeError::UnsupportedMode(88).message(),
        "SSTV mode is unsupported (VIS: 88)"
    );
    assert_eq!(DecodeError::UnsupportedMode(0).message(), "SSTV mode is unsupported (VIS: 0)");
    assert_eq!(DecodeError::UnsupportedMode(7).message(), "SSTV mode is unsupported (VIS: 7)");
    assert_eq!(
        DecodeError::UnsupportedMode(1234567890).message(),
        "SSTV mode is unsupported (VIS: 1234567890)"
    );
    assert_eq!(
        DecodeError::UnsupportedMode(usize::MAX).message(),
        format!("SSTV mode is unsupported (VIS: {})", usize::MAX)
    );
}
