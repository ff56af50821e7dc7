//! Wire round trips of whole protocol messages: encoding always writes the
//! tag byte first, and decoding the encoding gives the message back.

use rustyssh::msg::{SSHMsg, MsgDisconnect, MsgIgnore, MsgUnimplemented, MsgDebug, MsgNewKeys,
    MsgKexInit, read_next_message};
use rustyssh::codes::{DisconnectCode, MAGIC_DISCONNECT, MAGIC_IGNORE, MAGIC_UNIMPLEMENTED,
    MAGIC_DEBUG, MAGIC_NEW_KEYS, MAGIC_KEX_INIT};

fn round_trip(msg: SSHMsg, expected_magic: u8) {
    let mut bytes = Vec::new();
    msg.write_ssh(&mut bytes);
    assert!(!bytes.is_empty(), "Serialized bytes should not be empty");
    assert_eq!(bytes[0], expected_magic, "First byte of serialized data should match the tag");
    let (back, used) = read_next_message(&bytes, 0).unwrap();
    assert_eq!(back, msg);
    assert_eq!(used, bytes.len());
}

#[test]
fn test_msg_disconnect_serialization_deserialization() {
    let original_msg = MsgDisconnect {
        code: DisconnectCode::ProtocolError,
        description: "Test disconnect message".to_string(),
        language: "en-US".to_string(),
    };
    round_trip(SSHMsg::Disconnect(original_msg), MAGIC_DISCONNECT);
}

#[test]
fn test_msg_ignore_serialization_deserialization() {
    let original_msg = MsgIgnore { data: "Test ignore message".to_string() };
    round_trip(SSHMsg::Ignore(original_msg), MAGIC_IGNORE);
}

#[test]
fn test_msg_unimplemented_serialization_deserialization() {
    let original_msg = MsgUnimplemented { packet_sequence_number: 12345 };
    round_trip(SSHMsg::Unimplemented(original_msg), MAGIC_UNIMPLEMENTED);
}

#[test]
fn test_msg_debug_serialization_deserialization() {
    let original_msg = MsgDebug {
        always_display: true,
        message: "Test debug message".to_string(),
        language: "en-GB".to_string(),
    };
    round_trip(SSHMsg::Debug(original_msg), MAGIC_DEBUG);
}

#[test]
fn test_msg_newkeys_serialization_deserialization() {
    let original_msg = MsgNewKeys {};
    round_trip(SSHMsg::NewKeys(original_msg), MAGIC_NEW_KEYS);
}

fn kex_init(cookie: [u8; 16], lists: [Vec<String>; 10], follows: bool) -> MsgKexInit {
    let [kex, hostkey, enc_c, enc_s, mac_c, mac_s, comp_c, comp_s, lang_c, lang_s] = lists;
    MsgKexInit {
        cookie,
        kex_algorithms: kex,
        server_host_key_algorithms: hostkey,
        encryption_algorithms_client_to_server: enc_c,
        encryption_algorithms_server_to_client: enc_s,
        mac_algorithms_client_to_server: mac_c,
        mac_algorithms_server_to_client: mac_s,
        compression_algorithms_client_to_server: comp_c,
        compression_algorithms_server_to_client: comp_s,
        languages_client_to_server: lang_c,
        languages_server_to_client: lang_s,
        kex_first_packet_follows: follows,
        reserved: 0,
    }
}

fn names(v: &[&str]) -> Vec<String> {
    v.iter().map(|s| s.to_string()).collect()
}

#[test]
fn test_msg_kex_init_serialization_deserialization() {
    // Empty name-lists.
    let empty = kex_init(
        [1u8; 16],
        [
            Vec::new(),
            Vec::new(),
            Vec::new(),
            Vec::new(),
            Vec::new(),
            Vec::new(),
            Vec::new(),
            Vec::new(),
            Vec::new(),
            Vec::new(),
        ],
        false,
    );
    round_trip(SSHMsg::KexInit(empty), MAGIC_KEX_INIT);

    // Single-item name-lists.
    let single = kex_init(
        [2u8; 16],
        [
            names(&["curve25519-sha256"]),
            names(&["ssh-ed25519"]),
            names(&["aes128-ctr"]),
            names(&["aes128-ctr"]),
            names(&["hmac-sha2-256"]),
            names(&["hmac-sha2-256"]),
            names(&["none"]),
            names(&["none"]),
            names(&["en-US"]),
            names(&["en-US"]),
        ],
        true,
    );
    round_trip(SSHMsg::KexInit(single), MAGIC_KEX_INIT);

    // Multi-item name-lists.
    let multiple = kex_init(
        [3u8; 16],
        [
            names(&["curve25519-sha256", "diffie-hellman-group-exchange-sha256"]),
            names(&["ssh-ed25519", "rsa-sha2-512"]),
            names(&["aes128-ctr", "aes256-ctr"]),
            names(&["aes128-ctr", "aes256-ctr"]),
            names(&["hmac-sha2-256", "hmac-sha1"]),
            names(&["hmac-sha2-256", "hmac-sha1"]),
            names(&["none", "zlib@openssh.com"]),
            names(&["none", "zlib@openssh.com"]),
            names(&["en-US", "en-GB"]),
            names(&["en-US", "en-GB"]),
        ],
        false,
    );
    round_trip(SSHMsg::KexInit(multiple), MAGIC_KEX_INIT);

    // Mixed empty and non-empty name-lists.
    let mixed = kex_init(
        [4u8; 16],
        [
            names(&["curve25519-sha256"]),
            Vec::new(),
            names(&["aes128-ctr", "aes256-ctr"]),
            Vec::new(),
            names(&["hmac-sha2-256"]),
            Vec::new(),
            names(&["none", "zlib@openssh.com"]),
            Vec::new(),
            names(&["en-US"]),
            Vec::new(),
        ],
        true,
    );
    round_trip(SSHMsg::KexInit(mixed), MAGIC_KEX_INIT);
}
