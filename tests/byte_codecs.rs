use alloy_primitives::{Address, B256};
use serde_utils::error::CodecError;
use serde_utils::{address_hex, b256_hex, fixed_bytes_hex, hex_vec, u8_hex};
use std::str::FromStr;

fn quoted(token: String) -> String {
    format!("\"{}\"", token)
}

fn token_of(json: &str) -> String {
    serde_json::from_str::<String>(json).unwrap()
}

fn address(hex: &str) -> [u8; 20] {
    Address::from_str(hex).unwrap().into_array()
}

#[test]
fn address_hex_encoding() {
    assert_eq!(
        quoted(address_hex::serialize(&address("0000000000000000000000000000000000000000"))),
        "\"0x0000000000000000000000000000000000000000\""
    );
    assert_eq!(
        quoted(address_hex::serialize(&address("0000000000000000000000000000000000000001"))),
        "\"0x0000000000000000000000000000000000000001\""
    );
    assert_eq!(
        quoted(address_hex::serialize(&address("1000000000000000000000000000000000000000"))),
        "\"0x1000000000000000000000000000000000000000\""
    );
    assert_eq!(
        quoted(address_hex::serialize(&address("1234567890000000000000000000000000000000"))),
        "\"0x1234567890000000000000000000000000000000\""
    );
    assert_eq!(
        quoted(address_hex::serialize(&Address::ZERO.into_array())),
        "\"0x0000000000000000000000000000000000000000\""
    );
}

#[test]
fn address_hex_decoding() {
    let de = |json: &str| address_hex::deserialize(&token_of(json));
    assert_eq!(
        de("\"0x0000000000000000000000000000000000000000\"").unwrap(),
        Address::ZERO.into_array(),
    );
    assert_eq!(
        de("\"0x0000000000000000000000000000000000000001\"").unwrap(),
        address("0000000000000000000000000000000000000001"),
    );
    assert_eq!(
        de("\"0x1000000000000000000000000000000000000000\"").unwrap(),
        address("1000000000000000000000000000000000000000"),
    );
    assert_eq!(
        de("\"0x1234567890000000000000000000000000000000\"").unwrap(),
        address("1234567890000000000000000000000000000000"),
    );
    // Wrong length.
    de("\"0x0\"").unwrap_err();
    de("\"0x0400\"").unwrap_err();
    de("\"0x12345678900000000000000000000000000000001\"").unwrap_err();
    // Requires 0x.
    de("\"1234567890000000000000000000000000000000\"").unwrap_err();
    de("\"ff34567890000000000000000000000000000000\"").unwrap_err();
    // Contains invalid characters.
    de("\"0x-100000000000000000000000000000000000000\"").unwrap_err();
}

#[test]
fn address_hex_error_kinds() {
    assert_eq!(address_hex::deserialize("0x0"), Err(CodecError::OddLength));
    assert_eq!(
        address_hex::deserialize("0x0400"),
        Err(CodecError::LengthMismatch { expected: 20, actual: 2 })
    );
    assert_eq!(
        address_hex::deserialize("1234567890000000000000000000000000000000"),
        Err(CodecError::MissingPrefix)
    );
    assert_eq!(
        address_hex::deserialize("0x-100000000000000000000000000000000000000"),
        Err(CodecError::InvalidHexDigit)
    );
}

#[test]
fn b256_hex_encoding() {
    assert_eq!(
        quoted(b256_hex::serialize(&B256::ZERO.0)),
        "\"0x0000000000000000000000000000000000000000000000000000000000000000\""
    );
    assert_eq!(
        quoted(b256_hex::serialize(&B256::with_last_byte(0x03).0)),
        "\"0x0000000000000000000000000000000000000000000000000000000000000003\""
    );
    assert_eq!(
        quoted(b256_hex::serialize(&B256::repeat_byte(0x03).0)),
        "\"0x0303030303030303030303030303030303030303030303030303030303030303\""
    );
}

#[test]
fn b256_hex_decoding() {
    let de = |json: &str| b256_hex::deserialize(&token_of(json));
    assert_eq!(
        de("\"0x0000000000000000000000000000000000000000000000000000000000000000\"").unwrap(),
        B256::ZERO.0,
    );
    assert_eq!(
        de("\"0x0000000000000000000000000000000000000000000000000000000000000003\"").unwrap(),
        B256::with_last_byte(0x03).0,
    );
    // Require 0x.
    de("\"0000000000000000000000000000000000000000000000000000000000000000\"").unwrap_err();
    // Wrong length.
    de("\"0x00000000000000000000000000000000000000000000000000000000000000\"").unwrap_err();
}

#[test]
fn b256_hex_length_boundaries() {
    let short = format!("0x{}", "00".repeat(31));
    let long = format!("0x{}", "00".repeat(33));
    assert_eq!(
        b256_hex::deserialize(&short),
        Err(CodecError::LengthMismatch { expected: 32, actual: 31 })
    );
    assert_eq!(
        b256_hex::deserialize(&long),
        Err(CodecError::LengthMismatch { expected: 32, actual: 33 })
    );
}

#[test]
fn hex_vec_encoding() {
    assert_eq!(quoted(hex_vec::serialize(&[0])), "\"0x00\"");
    assert_eq!(quoted(hex_vec::serialize(&[0, 1])), "\"0x0001\"");
    assert_eq!(quoted(hex_vec::serialize(&[0, 1, 2, 3])), "\"0x00010203\"");
}

#[test]
fn hex_vec_decoding() {
    assert_eq!(hex_vec::deserialize(&token_of("\"0x00\"")).unwrap(), vec![0]);
    assert_eq!(hex_vec::deserialize(&token_of("\"0x0001\"")).unwrap(), vec![0, 1]);
    assert_eq!(
        hex_vec::deserialize(&token_of("\"0x00010203\"")).unwrap(),
        vec![0, 1, 2, 3]
    );
}

#[test]
fn hex_vec_edge_cases() {
    assert_eq!(hex_vec::serialize(&[]), "0x");
    assert_eq!(hex_vec::deserialize("0x"), Ok(vec![]));
    assert_eq!(hex_vec::deserialize("0xABcd"), Ok(vec![0xab, 0xcd]));
    assert_eq!(hex_vec::deserialize("00"), Err(CodecError::MissingPrefix));
    assert_eq!(hex_vec::deserialize("0X00"), Err(CodecError::MissingPrefix));
    assert_eq!(hex_vec::deserialize("0x000"), Err(CodecError::OddLength));
    assert_eq!(hex_vec::deserialize("0x0g"), Err(CodecError::InvalidHexDigit));
    assert_eq!(hex_vec::serialize(&[0xde, 0xad, 0xbe, 0xef]), "0xdeadbeef");
}

#[test]
fn hex_vec_round_trip() {
    let bytes: Vec<u8> = (0..=255).collect();
    assert_eq!(hex_vec::deserialize(&hex_vec::serialize(&bytes)), Ok(bytes));
}

#[test]
fn u8_hex_encoding() {
    assert_eq!(quoted(u8_hex::serialize(0)), "\"0x00\"");
    assert_eq!(quoted(u8_hex::serialize(109)), "\"0x6d\"");
    assert_eq!(quoted(u8_hex::serialize(u8::MAX)), "\"0xff\"");
}

#[test]
fn u8_hex_decoding() {
    assert_eq!(u8_hex::deserialize(&token_of("\"0x00\"")).unwrap(), 0);
    assert_eq!(u8_hex::deserialize(&token_of("\"0x6d\"")).unwrap(), 109);
    assert_eq!(u8_hex::deserialize(&token_of("\"0xff\"")).unwrap(), u8::MAX);
    // Require 0x.
    u8_hex::deserialize(&token_of("\"ff\"")).unwrap_err();
    // Wrong length.
    u8_hex::deserialize(&token_of("\"0xfff\"")).unwrap_err();
}

#[test]
fn u8_hex_round_trip_all_values() {
    for b in 0..=255u8 {
        assert_eq!(u8_hex::deserialize(&u8_hex::serialize(b)), Ok(b));
    }
    assert_eq!(
        u8_hex::deserialize("0x0000"),
        Err(CodecError::LengthMismatch { expected: 1, actual: 2 })
    );
}

#[test]
fn fixed_bytes_4_and_8() {
    assert_eq!(fixed_bytes_hex::serialize(&[123u8; 4]), "0x7b7b7b7b");
    assert_eq!(fixed_bytes_hex::serialize(&[u8::MAX; 8]), format!("0x{}", "f".repeat(16)));
    assert_eq!(fixed_bytes_hex::deserialize::<4>("0x7b7b7b7b"), Ok([123u8; 4]));
    assert_eq!(
        fixed_bytes_hex::deserialize::<8>(&format!("0x{}", "0".repeat(16))),
        Ok([0u8; 8])
    );
    assert_eq!(
        fixed_bytes_hex::deserialize::<4>(&"0".repeat(8)),
        Err(CodecError::MissingPrefix)
    );
    assert_eq!(
        fixed_bytes_hex::deserialize::<4>(&format!("0x{}", "f".repeat(9))),
        Err(CodecError::OddLength)
    );
    assert_eq!(
        fixed_bytes_hex::deserialize::<4>("0x010203"),
        Err(CodecError::LengthMismatch { expected: 4, actual: 3 })
    );
    assert_eq!(
        fixed_bytes_hex::deserialize::<4>("0x0102030405"),
        Err(CodecError::LengthMismatch { expected: 4, actual: 5 })
    );
    let b = [1u8, 2, 3, 4, 5, 6, 7, 8];
    assert_eq!(fixed_bytes_hex::deserialize::<8>(&fixed_bytes_hex::serialize(&b)), Ok(b));
}
