//! The packet framer in both regimes: padding arithmetic, plaintext frame
//! round trips and incremental parsing, and the sealed regime's keystream,
//! tag check and peek/commit discipline.

use rustyssh::err::SSHError;
use rustyssh::frame::{padding_length, build_packet, frame_packet, parse_plain_frame, extract_body,
    CryptoState, xor_with_keystream, encrypt_and_mac, decrypt_and_verify, peek_packet_len,
    poll_cipher_frame};

#[test]
fn test_padding_length_values() {
    // padding = B - ((1 + L) mod B), plus B more when below 4.
    assert_eq!(padding_length(0, 8), 7);
    assert_eq!(padding_length(4, 8), 11);
    assert_eq!(padding_length(5, 8), 10);
    assert_eq!(padding_length(7, 8), 8);
    assert_eq!(padding_length(12, 8), 11);
    assert_eq!(padding_length(0, 16), 15);
    assert_eq!(padding_length(12, 16), 19);
    assert_eq!(padding_length(15, 16), 16);
}

#[test]
fn test_padding_length_bounds_hold() {
    for l in 0..200usize {
        for b in [8usize, 16usize] {
            let p = padding_length(l, b);
            assert!(p >= 4 && p <= b + 3);
            assert_eq!((1 + l + p) % b, 0);
        }
    }
}

#[test]
fn test_build_packet_layout() {
    let payload: Vec<u8> = vec![21u8];  // a one-byte body
    let frame = build_packet(&payload);
    // padding = 8 - ((1+1) % 8) = 6 < 4? no, 6 >= 4 -> 6; packet_length = 1+1+6 = 8.
    assert_eq!(frame[0..4], 8u32.to_be_bytes());
    assert_eq!(frame[4], 6);
    assert_eq!(frame[5], 21);
    assert_eq!(frame.len(), 4 + 8);
    assert!(frame[6..].iter().all(|&b| b == 0));
}

#[test]
fn test_plain_frame_round_trip_and_partial() {
    let payload: Vec<u8> = b"hello framing".to_vec();
    let frame = build_packet(&payload);
    // Incomplete prefixes ask for more input instead of erroring.
    for cut in 0..frame.len() {
        let partial = frame[..cut].to_vec();
        assert_eq!(parse_plain_frame(&partial).unwrap(), None);
    }
    let (body, consumed) = parse_plain_frame(&frame).unwrap().unwrap();
    assert_eq!(body, payload);
    assert_eq!(consumed, frame.len());
}

#[test]
fn test_plain_frame_implausible_length() {
    let mut buf: Vec<u8> = 40000u32.to_be_bytes().to_vec();
    buf.extend_from_slice(&[0u8; 16]);
    assert_eq!(parse_plain_frame(&buf).unwrap_err(), SSHError::Malformed);
}

#[test]
fn test_extract_body_bad_padding() {
    // packet_length 8 but padding byte 200: body end would fall before its start.
    let mut frame: Vec<u8> = 8u32.to_be_bytes().to_vec();
    frame.push(200);
    frame.extend_from_slice(&[0u8; 7]);
    assert_eq!(extract_body(&frame).unwrap_err(), SSHError::Malformed);
}

#[test]
fn test_keystream_xor_round_trip() {
    let key: Vec<u8> = vec![1, 2, 3, 4, 5];
    let mut data: Vec<u8> = b"the quick brown fox".to_vec();
    let orig = data.clone();
    xor_with_keystream(&mut data, &key, 7);
    assert_ne!(data, orig);
    xor_with_keystream(&mut data, &key, 7);
    assert_eq!(data, orig);
}

#[test]
fn test_seal_open_round_trip() {
    let key: Vec<u8> = vec![0xAA, 0x55, 0x10, 0x42];
    let mut send = CryptoState { key: key.clone(), bytes_processed: 0 };
    let mut recv = CryptoState { key, bytes_processed: 0 };
    let frame: Vec<u8> = b"one frame of sealed bytes".to_vec();
    let sealed = encrypt_and_mac(&mut send, 0, &frame).unwrap();
    assert_eq!(sealed.len(), frame.len() + 32);
    assert_ne!(&sealed[..frame.len()], &frame[..]);
    assert_eq!(send.bytes_processed, frame.len());
    let opened = decrypt_and_verify(&mut recv, 0, &sealed).unwrap();
    assert_eq!(opened, frame);
    assert_eq!(recv.bytes_processed, frame.len());
}

#[test]
fn test_open_rejects_bad_tag() {
    let key: Vec<u8> = vec![9, 9, 2];
    let mut send = CryptoState { key: key.clone(), bytes_processed: 0 };
    let mut recv = CryptoState { key, bytes_processed: 0 };
    let frame: Vec<u8> = b"payload".to_vec();
    let mut sealed = encrypt_and_mac(&mut send, 0, &frame).unwrap();
    let last = sealed.len() - 1;
    sealed[last] ^= 0xFF;
    assert_eq!(decrypt_and_verify(&mut recv, 0, &sealed).unwrap_err(), SSHError::VerifyFailure);
    // A failed open must not advance the byte counter.
    assert_eq!(recv.bytes_processed, 0);
}

#[test]
fn test_open_rejects_short_frame() {
    let mut recv = CryptoState { key: vec![1], bytes_processed: 0 };
    let short: Vec<u8> = vec![0u8; 31];
    assert_eq!(decrypt_and_verify(&mut recv, 0, &short).unwrap_err(), SSHError::Malformed);
}

#[test]
fn test_cipher_peek_and_commit() {
    let key: Vec<u8> = vec![0x3C, 0xA7, 0x19];
    let mut send = CryptoState { key: key.clone(), bytes_processed: 0 };
    let payload: Vec<u8> = b"an encrypted message body".to_vec();
    let frame = frame_packet(&payload, 16);
    let sealed = encrypt_and_mac(&mut send, 0, &frame).unwrap();

    let recv = CryptoState { key: key.clone(), bytes_processed: 0 };
    // Peeking learns the length word without touching the state.
    let n = peek_packet_len(&recv, &sealed);
    assert_eq!(n as usize, frame.len() - 4);
    assert_eq!(recv.bytes_processed, 0);

    let mut recv = recv;
    // While short of the full frame plus tag, the poller waits.
    for cut in [0usize, 15, sealed.len() - 1] {
        let partial = sealed[..cut].to_vec();
        let polled = poll_cipher_frame(&mut recv, &partial).unwrap();
        assert!(polled.is_none());
        assert_eq!(recv.bytes_processed, 0);
    }
    // With everything buffered, one poll decrypts, checks the tag, extracts
    // the body, and advances the counter exactly once.
    let (body, consumed) = poll_cipher_frame(&mut recv, &sealed).unwrap().unwrap();
    assert_eq!(body, payload);
    assert_eq!(consumed, sealed.len());
    assert_eq!(recv.bytes_processed, frame.len());
}
