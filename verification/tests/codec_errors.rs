//! The decoder's error taxonomy on malformed and truncated input: running
//! out of bytes is `Truncated`, present-but-invalid bytes are `Malformed`,
//! and an unknown tag byte is `Unrecognized`.

use rustyssh::err::SSHError;
use rustyssh::msg::read_next_message;
use rustyssh::wire::{read_string, read_u32, read_bytes};
use rustyssh::namelist::read_namelist;
use rustyssh::codes::{ChannelOpenFailureReasonCode, MAGIC_UNIMPLEMENTED};
use rustyssh::names::Service;

#[test]
fn test_read_next_message_invalid_magic() {
    let invalid_magic_bytes: Vec<u8> = vec![255u8, 0, 0, 0];
    let result = read_next_message(&invalid_magic_bytes, 0);
    assert!(result.is_err(), "Expected an error for invalid magic number");
    assert_eq!(result.unwrap_err(), SSHError::Unrecognized);
}

#[test]
fn test_read_next_message_insufficient_data() {
    // MsgUnimplemented requires a u32, so 4 bytes after the tag; only 2 given.
    let insufficient_data_bytes: Vec<u8> = vec![MAGIC_UNIMPLEMENTED, 1, 2];
    let result = read_next_message(&insufficient_data_bytes, 0);
    assert!(result.is_err(), "Expected an error for insufficient data after magic number");
    assert_eq!(result.unwrap_err(), SSHError::Truncated);
}

#[test]
fn test_string_read_ssh_malformed_data() {
    // Declared length 10, only "hello" (5 bytes) available.
    let bytes_len_too_long: Vec<u8> = vec![0u8, 0, 0, 10, b'h', b'e', b'l', b'l', b'o'];
    let result1 = read_string(&bytes_len_too_long, 0);
    assert!(result1.is_err(), "Expected error for string length > available bytes");
    assert_eq!(result1.unwrap_err(), SSHError::Truncated);

    // Invalid UTF-8 sequence.
    let bytes_invalid_utf8: Vec<u8> = vec![0u8, 0, 0, 4, 0xC3, 0x28, 0xA0, 0xA1];
    let result2 = read_string(&bytes_invalid_utf8, 0);
    assert!(result2.is_err(), "Expected error for invalid UTF-8 sequence");
    assert_eq!(result2.unwrap_err(), SSHError::Malformed);
}

#[test]
fn test_name_list_read_ssh_malformed_data() {
    // Declared length 20, only "a,b" (3 bytes) available.
    let bytes_len_too_long: Vec<u8> = vec![0u8, 0, 0, 20, b'a', b',', b'b'];
    let result1 = read_namelist(&bytes_len_too_long, 0);
    assert!(result1.is_err(), "Expected error for name-list length > available bytes");
    assert_eq!(result1.unwrap_err(), SSHError::Truncated);

    // Invalid UTF-8 sequence in the name-list payload.
    let bytes_invalid_utf8: Vec<u8> = vec![0u8, 0, 0, 4, 0xC3, 0x28, 0xA0, 0xA1];
    let result2 = read_namelist(&bytes_invalid_utf8, 0);
    assert!(result2.is_err(), "Expected error for invalid UTF-8 sequence in name-list");
    assert_eq!(result2.unwrap_err(), SSHError::Malformed);
}

#[test]
fn test_u32_enum_invalid_discriminant() {
    // The largest defined discriminant is 4; 5 must be rejected as malformed.
    let invalid_discriminant_bytes: Vec<u8> = 5u32.to_be_bytes().to_vec();
    let result = ChannelOpenFailureReasonCode::read_ssh(&invalid_discriminant_bytes, 0);
    assert!(result.is_err(), "Expected error for invalid u32 enum discriminant");
    assert_eq!(result.unwrap_err(), SSHError::Malformed);
}

#[test]
fn test_string_enum_invalid_variant() {
    let invalid_variant_str = "this-is-not-a-valid-service-name";
    let mut bytes: Vec<u8> = (invalid_variant_str.len() as u32).to_be_bytes().to_vec();
    bytes.extend_from_slice(invalid_variant_str.as_bytes());
    let result = Service::read_ssh(&bytes, 0);
    assert!(result.is_err(), "Expected error for invalid string enum variant");
    assert_eq!(result.unwrap_err(), SSHError::Malformed);
}

#[test]
fn test_read_u32_exact_value() {
    let bytes: Vec<u8> = vec![0x01, 0x02, 0x03, 0x04];
    let (v, used) = read_u32(&bytes, 0).unwrap();
    assert_eq!(v, 0x01020304);
    assert_eq!(used, 4);
}

#[test]
fn test_read_bytes_truncated() {
    let bytes: Vec<u8> = vec![0, 0, 0, 3, 9];
    assert_eq!(read_bytes(&bytes, 0).unwrap_err(), SSHError::Truncated);
}

#[test]
fn test_namelist_empty_wire() {
    // Encoding the empty list gives wire length 0, and wire length 0 decodes
    // back to the empty list, never to one empty token.
    let mut out = Vec::new();
    rustyssh::namelist::write_namelist(&mut out, &Vec::new());
    assert_eq!(out, vec![0u8, 0, 0, 0]);
    let (names, used) = read_namelist(&out, 0).unwrap();
    assert_eq!(names, Vec::<String>::new());
    assert_eq!(used, 4);
}

#[test]
fn test_namelist_nonzero_length_empty_tokens() {
    // A nonzero wire length always yields at least one token: a single comma
    // is two empty tokens, not the empty list.
    let wire: Vec<u8> = vec![0u8, 0, 0, 1, b','];
    let (names, _) = read_namelist(&wire, 0).unwrap();
    assert_eq!(names, vec!["".to_string(), "".to_string()]);
}

#[test]
fn test_namelist_round_trip_multi() {
    let names = vec!["ecdh-sha2-nistp256".to_string(), "curve25519-sha256".to_string()];
    let mut out = Vec::new();
    rustyssh::namelist::write_namelist(&mut out, &names);
    let mut expected: Vec<u8> = (("ecdh-sha2-nistp256,curve25519-sha256".len()) as u32)
        .to_be_bytes()
        .to_vec();
    expected.extend_from_slice(b"ecdh-sha2-nistp256,curve25519-sha256");
    assert_eq!(out, expected);
    let (back, used) = read_namelist(&out, 0).unwrap();
    assert_eq!(back, names);
    assert_eq!(used, out.len());
}
