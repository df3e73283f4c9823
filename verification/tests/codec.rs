use roster_rollup::hexcode::{decode_payload, encode_payload, hex_decode, hex_encode, DecodeError};

fn bytes(s: &str) -> Vec<u8> {
    s.as_bytes().to_vec()
}

#[test]
fn round_trip_simple_text() {
    let p = bytes("{\"a\":1}");
    let enc = encode_payload(&p);
    assert_eq!(decode_payload(&enc), Ok(p));
}

#[test]
fn round_trip_multibyte_utf8() {
    let p = bytes("n\u{00e4}me \u{2603}");
    let enc = encode_payload(&p);
    assert_eq!(decode_payload(&enc), Ok(p));
}

#[test]
fn encode_five_is_0x35() {
    assert_eq!(encode_payload(&bytes("5")), bytes("0x35"));
}

#[test]
fn decode_known_payload() {
    assert_eq!(decode_payload(&bytes("0x68656c6c6f")), Ok(bytes("hello")));
}

#[test]
fn decode_accepts_uppercase_hex() {
    assert_eq!(decode_payload(&bytes("0x4142")), Ok(bytes("AB")));
    assert_eq!(decode_payload(&bytes("0x4A")), Ok(bytes("J")));
}

#[test]
fn decode_strips_any_two_marker_chars() {
    assert_eq!(decode_payload(&bytes("zz3535")), Ok(bytes("55")));
}

#[test]
fn decode_rejects_too_short() {
    assert_eq!(decode_payload(&bytes("0")), Err(DecodeError::TooShort));
    assert_eq!(decode_payload(&Vec::new()), Err(DecodeError::TooShort));
}

#[test]
fn decode_rejects_odd_length() {
    assert_eq!(decode_payload(&bytes("0xabc")), Err(DecodeError::OddLength));
}

#[test]
fn decode_rejects_non_hex_digit() {
    assert_eq!(decode_payload(&bytes("0xzz")), Err(DecodeError::BadHexDigit));
    assert_eq!(decode_payload(&bytes("0x4z42")), Err(DecodeError::BadHexDigit));
}

#[test]
fn decode_rejects_invalid_utf8() {
    assert_eq!(decode_payload(&bytes("0xff")), Err(DecodeError::BadUtf8));
    // a lone continuation byte
    assert_eq!(decode_payload(&bytes("0x80")), Err(DecodeError::BadUtf8));
    // an overlong encoding of '/'
    assert_eq!(decode_payload(&bytes("0xc0af")), Err(DecodeError::BadUtf8));
}

#[test]
fn empty_hex_part_is_empty_text() {
    assert_eq!(decode_payload(&bytes("0x")), Ok(Vec::new()));
}

#[test]
fn hex_encode_lowercase() {
    assert_eq!(hex_encode(&vec![0x00u8, 0xAB, 0xFF]), bytes("00abff"));
}

#[test]
fn hex_decode_pairs() {
    assert_eq!(hex_decode(&bytes("00abFF")), Ok(vec![0x00u8, 0xAB, 0xFF]));
    assert_eq!(hex_decode(&bytes("abc")), Err(DecodeError::OddLength));
    assert_eq!(hex_decode(&bytes("ag")), Err(DecodeError::BadHexDigit));
}
