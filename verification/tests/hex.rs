//! Byte properties as hexadecimal text.

use nv_telemetry::telemetry::hex::{hex_decode, hex_encode, HexError};

#[test]
fn bytes_are_written_as_lowercase_pairs() {
    assert_eq!(hex_encode(&[0x00, 0x0f, 0xa5, 0xff]), "000fa5ff");
    assert_eq!(hex_encode(&[]), "");
}

#[test]
fn hex_reads_back_in_either_case() {
    assert_eq!(hex_decode(b"000fa5ff"), Ok(vec![0x00, 0x0f, 0xa5, 0xff]));
    assert_eq!(hex_decode(b"A5Ff"), Ok(vec![0xa5, 0xff]));
    let bytes: Vec<u8> = (0..=255).collect();
    assert_eq!(hex_decode(hex_encode(&bytes).as_bytes()), Ok(bytes));
}

#[test]
fn malformed_hex_is_refused() {
    let error = hex_decode(b"abc").unwrap_err();
    assert_eq!(error, HexError::OddLength);
    assert_eq!(error.message(), "hex encoded bytes must have an even length");

    // The first offending digit is named, even past a valid pair.
    let error = hex_decode(b"00zgxy").unwrap_err();
    assert_eq!(error, HexError::InvalidDigit(b'z'));
    assert_eq!(error.message(), "invalid hex digit 'z'");
    assert_eq!(hex_decode(b"0g").unwrap_err(), HexError::InvalidDigit(b'g'));
}
