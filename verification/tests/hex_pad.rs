use spacetimedb_lib::hex_pad::{strip_prefix, FromHexError};
use spacetimedb_lib::{from_hex_pad, from_hex_pad_array};

#[test]
fn digits_become_bytes() {
    assert_eq!(from_hex_pad(b"00ff10aB"), Ok(vec![0x00, 0xff, 0x10, 0xab]));
    assert_eq!(from_hex_pad(b""), Ok(vec![]));
    assert_eq!(from_hex_pad(b"48656c6c6f"), Ok(b"Hello".to_vec()));
}

#[test]
fn prefixes_are_ignored() {
    assert_eq!(from_hex_pad(b"0x0102"), Ok(vec![1, 2]));
    assert_eq!(from_hex_pad(b"X'0102"), Ok(vec![1, 2]));
    assert_eq!(from_hex_pad(b"0x"), Ok(vec![]));
    assert_eq!(
        from_hex_pad(b"0x0x01"),
        Err(FromHexError::InvalidHexCharacter { c: 'x', index: 1 })
    );
    assert_eq!(
        from_hex_pad(b"0X01"),
        Err(FromHexError::InvalidHexCharacter { c: 'X', index: 1 })
    );
}

#[test]
fn only_a_prefix_is_stripped() {
    assert_eq!(strip_prefix(b"0x01"), b"01");
    assert_eq!(strip_prefix(b"X'01'"), b"01'");
    assert_eq!(strip_prefix(b"0x0x"), b"0x");
    assert_eq!(strip_prefix(b"0"), b"0");
    assert_eq!(strip_prefix(b"x'01"), b"x'01");
    assert_eq!(strip_prefix(b""), b"");
}

#[test]
fn a_closing_quote_is_not_ignored() {
    assert_eq!(from_hex_pad(b"X'0102'"), Err(FromHexError::OddLength));
}

#[test]
fn the_first_invalid_character_is_told() {
    assert_eq!(
        from_hex_pad(b"01g2h3"),
        Err(FromHexError::InvalidHexCharacter { c: 'g', index: 2 })
    );
    assert_eq!(
        from_hex_pad(&[0x30, 0xE9]),
        Err(FromHexError::InvalidHexCharacter { c: '\u{e9}', index: 1 })
    );
    assert_eq!(from_hex_pad(b"01g"), Err(FromHexError::OddLength));
}

#[test]
fn an_array_takes_digits_that_fill_it() {
    assert_eq!(from_hex_pad_array::<4>(b"0x01020304"), Ok([1, 2, 3, 4]));
    assert_eq!(from_hex_pad_array::<4>(b"010203"), Err(FromHexError::InvalidStringLength));
    assert_eq!(from_hex_pad_array::<4>(b"0102030405"), Err(FromHexError::InvalidStringLength));
    assert_eq!(from_hex_pad_array::<4>(b"0102030"), Err(FromHexError::OddLength));
    assert_eq!(
        from_hex_pad_array::<2>(b"010z"),
        Err(FromHexError::InvalidHexCharacter { c: 'z', index: 3 })
    );
}

#[test]
fn encoded_bytes_come_back() {
    let bytes: Vec<u8> = (0..=255).collect();
    let digits = hex::encode(&bytes);
    assert_eq!(from_hex_pad(digits.as_bytes()), Ok(bytes.clone()));
    assert_eq!(from_hex_pad(format!("0x{}", digits).as_bytes()), Ok(bytes.clone()));
    let digits = hex::encode_upper(&bytes);
    assert_eq!(from_hex_pad(digits.as_bytes()), Ok(bytes.clone()));
    assert_eq!(from_hex_pad(format!("X'{}", digits).as_bytes()), Ok(bytes.clone()));
    assert_eq!(from_hex_pad_array::<256>(digits.as_bytes()).unwrap().to_vec(), bytes);
}
