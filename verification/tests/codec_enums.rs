//! Wire round trips of the tagged enums: numeric discriminants and
//! symbolic names.

use rustyssh::codes::{ChannelOpenFailureReasonCode, PseudoTerminalModes};
use rustyssh::names::{Service, AuthenticationMethod, ConnectionProtocolChannelType,
    ConnectionProtocolRequestType, ConnectionProtocolChannelRequestName, SignalName,
    KeyExchangeMethod, EncryptionAlgorithm, MACAlgorithm, PublicKeyAlgorithm,
    CompressionAlgorithm};

fn expected_string_bytes(s: &str) -> Vec<u8> {
    let mut out = (s.len() as u32).to_be_bytes().to_vec();
    out.extend_from_slice(s.as_bytes());
    out
}

fn check_u32_enum_reason(v: ChannelOpenFailureReasonCode, expected: u32) {
    let mut bytes = Vec::new();
    v.write_ssh(&mut bytes);
    assert_eq!(bytes, expected.to_be_bytes().to_vec());
    let (back, used) = ChannelOpenFailureReasonCode::read_ssh(&bytes, 0).unwrap();
    assert_eq!(back, v);
    assert_eq!(used, 4);
}

fn check_u32_enum_pty(v: PseudoTerminalModes, expected: u32) {
    let mut bytes = Vec::new();
    v.write_ssh(&mut bytes);
    assert_eq!(bytes, expected.to_be_bytes().to_vec());
    let (back, used) = PseudoTerminalModes::read_ssh(&bytes, 0).unwrap();
    assert_eq!(back, v);
    assert_eq!(used, 4);
}

fn check_string_enum_service(v: Service, expected: &str) {
    let mut bytes = Vec::new();
    v.write_ssh(&mut bytes);
    assert_eq!(bytes, expected_string_bytes(expected));
    let (back, used) = Service::read_ssh(&bytes, 0).unwrap();
    assert_eq!(back, v);
    assert_eq!(used, bytes.len());
}

fn check_string_enum_auth(v: AuthenticationMethod, expected: &str) {
    let mut bytes = Vec::new();
    v.write_ssh(&mut bytes);
    assert_eq!(bytes, expected_string_bytes(expected));
    let (back, used) = AuthenticationMethod::read_ssh(&bytes, 0).unwrap();
    assert_eq!(back, v);
    assert_eq!(used, bytes.len());
}

fn check_string_enum_chtype(v: ConnectionProtocolChannelType, expected: &str) {
    let mut bytes = Vec::new();
    v.write_ssh(&mut bytes);
    assert_eq!(bytes, expected_string_bytes(expected));
    let (back, used) = ConnectionProtocolChannelType::read_ssh(&bytes, 0).unwrap();
    assert_eq!(back, v);
    assert_eq!(used, bytes.len());
}

fn check_string_enum_reqtype(v: ConnectionProtocolRequestType, expected: &str) {
    let mut bytes = Vec::new();
    v.write_ssh(&mut bytes);
    assert_eq!(bytes, expected_string_bytes(expected));
    let (back, used) = ConnectionProtocolRequestType::read_ssh(&bytes, 0).unwrap();
    assert_eq!(back, v);
    assert_eq!(used, bytes.len());
}

fn check_string_enum_chreq(v: ConnectionProtocolChannelRequestName, expected: &str) {
    let mut bytes = Vec::new();
    v.write_ssh(&mut bytes);
    assert_eq!(bytes, expected_string_bytes(expected));
    let (back, used) = ConnectionProtocolChannelRequestName::read_ssh(&bytes, 0).unwrap();
    assert_eq!(back, v);
    assert_eq!(used, bytes.len());
}

fn check_string_enum_signal(v: SignalName, expected: &str) {
    let mut bytes = Vec::new();
    v.write_ssh(&mut bytes);
    assert_eq!(bytes, expected_string_bytes(expected));
    let (back, used) = SignalName::read_ssh(&bytes, 0).unwrap();
    assert_eq!(back, v);
    assert_eq!(used, bytes.len());
}

fn check_string_enum_kex(v: KeyExchangeMethod, expected: &str) {
    let mut bytes = Vec::new();
    v.write_ssh(&mut bytes);
    assert_eq!(bytes, expected_string_bytes(expected));
    let (back, used) = KeyExchangeMethod::read_ssh(&bytes, 0).unwrap();
    assert_eq!(back, v);
    assert_eq!(used, bytes.len());
}

fn check_string_enum_enc(v: EncryptionAlgorithm, expected: &str) {
    let mut bytes = Vec::new();
    v.write_ssh(&mut bytes);
    assert_eq!(bytes, expected_string_bytes(expected));
    let (back, used) = EncryptionAlgorithm::read_ssh(&bytes, 0).unwrap();
    assert_eq!(back, v);
    assert_eq!(used, bytes.len());
}

fn check_string_enum_mac(v: MACAlgorithm, expected: &str) {
    let mut bytes = Vec::new();
    v.write_ssh(&mut bytes);
    assert_eq!(bytes, expected_string_bytes(expected));
    let (back, used) = MACAlgorithm::read_ssh(&bytes, 0).unwrap();
    assert_eq!(back, v);
    assert_eq!(used, bytes.len());
}

fn check_string_enum_pubkey(v: PublicKeyAlgorithm, expected: &str) {
    let mut bytes = Vec::new();
    v.write_ssh(&mut bytes);
    assert_eq!(bytes, expected_string_bytes(expected));
    let (back, used) = PublicKeyAlgorithm::read_ssh(&bytes, 0).unwrap();
    assert_eq!(back, v);
    assert_eq!(used, bytes.len());
}

fn check_string_enum_comp(v: CompressionAlgorithm, expected: &str) {
    let mut bytes = Vec::new();
    v.write_ssh(&mut bytes);
    assert_eq!(bytes, expected_string_bytes(expected));
    let (back, used) = CompressionAlgorithm::read_ssh(&bytes, 0).unwrap();
    assert_eq!(back, v);
    assert_eq!(used, bytes.len());
}

#[test]
fn test_channel_open_failure_reason_code_serialization() {
    check_u32_enum_reason(ChannelOpenFailureReasonCode::AdministrativelyProhibited, 1u32);
    check_u32_enum_reason(ChannelOpenFailureReasonCode::ConnectFailed, 2u32);
    check_u32_enum_reason(ChannelOpenFailureReasonCode::UnknownChannelType, 3u32);
    check_u32_enum_reason(ChannelOpenFailureReasonCode::ResourceShortage, 4u32);
}

#[test]
fn test_pseudo_terminal_modes_serialization() {
    check_u32_enum_pty(PseudoTerminalModes::TTY_OP_END, 0u32);
    check_u32_enum_pty(PseudoTerminalModes::VINTR, 1u32);
    check_u32_enum_pty(PseudoTerminalModes::VERASE, 3u32);
    check_u32_enum_pty(PseudoTerminalModes::ISIG, 50u32);
    check_u32_enum_pty(PseudoTerminalModes::TTY_OP_OSPEED, 129u32);
}

#[test]
fn test_key_exchange_method_serialization() {
    check_string_enum_kex(KeyExchangeMethod::ecdh__sha2__nistp256, "ecdh-sha2-nistp256");
    check_string_enum_kex(KeyExchangeMethod::Unknown("my-kex@example.com".to_string()), "my-kex@example.com");
}

#[test]
fn test_encryption_algorithm_serialization() {
    check_string_enum_enc(EncryptionAlgorithm::aes128__ctr, "aes128-ctr");
    check_string_enum_enc(EncryptionAlgorithm::none, "none");
    check_string_enum_enc(EncryptionAlgorithm::Unknown("custom-cipher".to_string()), "custom-cipher");
}

#[test]
fn test_mac_algorithm_serialization() {
    check_string_enum_mac(MACAlgorithm::hmac__sha1, "hmac-sha1");
    check_string_enum_mac(MACAlgorithm::hmac__sha2__256, "hmac-sha2-256");
    check_string_enum_mac(MACAlgorithm::none, "none");
    check_string_enum_mac(MACAlgorithm::Unknown("custom-mac".to_string()), "custom-mac");
}

#[test]
fn test_public_key_algorithm_serialization() {
    check_string_enum_pubkey(PublicKeyAlgorithm::ssh__rsa, "ssh-rsa");
    check_string_enum_pubkey(PublicKeyAlgorithm::ssh__ed25519, "ssh-ed25519");
    check_string_enum_pubkey(PublicKeyAlgorithm::Unknown("custom-pubkey".to_string()), "custom-pubkey");
}

#[test]
fn test_compression_algorithm_serialization() {
    check_string_enum_comp(CompressionAlgorithm::zlib, "zlib");
    check_string_enum_comp(CompressionAlgorithm::none, "none");
    check_string_enum_comp(CompressionAlgorithm::Unknown("custom-comp".to_string()), "custom-comp");
}

#[test]
fn test_service_serialization() {
    check_string_enum_service(Service::ssh__userauth, "ssh-userauth");
    check_string_enum_service(Service::ssh__connection, "ssh-connection");
}

#[test]
fn test_authentication_method_serialization() {
    check_string_enum_auth(AuthenticationMethod::publickey, "publickey");
    check_string_enum_auth(AuthenticationMethod::password, "password");
    check_string_enum_auth(AuthenticationMethod::hostBased, "hostBased");
    check_string_enum_auth(AuthenticationMethod::none, "none");
}

#[test]
fn test_connection_protocol_channel_type_serialization() {
    check_string_enum_chtype(ConnectionProtocolChannelType::session, "session");
    check_string_enum_chtype(ConnectionProtocolChannelType::x11, "x11");
    check_string_enum_chtype(ConnectionProtocolChannelType::forwarded__tcpip, "forwarded-tcpip");
    check_string_enum_chtype(ConnectionProtocolChannelType::direct__tcpip, "direct-tcpip");
}

#[test]
fn test_connection_protocol_request_type_serialization() {
    check_string_enum_reqtype(ConnectionProtocolRequestType::tcpip__forward, "tcpip-forward");
    check_string_enum_reqtype(ConnectionProtocolRequestType::cancel__tcpip__forward, "cancel-tcpip-forward");
}

#[test]
fn test_connection_protocol_channel_request_name_serialization() {
    check_string_enum_chreq(ConnectionProtocolChannelRequestName::pty__req, "pty-req");
    check_string_enum_chreq(ConnectionProtocolChannelRequestName::shell, "shell");
    check_string_enum_chreq(ConnectionProtocolChannelRequestName::exit__signal, "exit-signal");
}

#[test]
fn test_signal_name_serialization() {
    check_string_enum_signal(SignalName::ABRT, "ABRT");
    check_string_enum_signal(SignalName::KILL, "KILL");
}
