//! End-to-end handshake scenarios against the server engine, with the client
//! side played by this test using the real crypto crates: version exchange,
//! negotiation, elliptic-curve key exchange with a signature the client
//! verifies over its own recomputation of the exchange hash, key activation,
//! authentication, and the minimal channel lifecycle.

use ed25519_dalek::Verifier;
use sha2::Digest;
use rustyssh::engine::{ServerSession, Phase};
use rustyssh::err::SSHError;
use rustyssh::frame::{build_packet, frame_packet, parse_plain_frame};
use rustyssh::msg::{SSHMsg, MsgKexInit, MsgKexECDHInit, MsgNewKeys, MsgServiceRequest,
    MsgUserauthRequest, MsgChannelOpen, MsgChannelRequest, MsgChannelClose, read_next_message};

fn names(v: &[&str]) -> Vec<String> {
    v.iter().map(|s| s.to_string()).collect()
}

/// Length-prefixed write, as every exchange-hash component is framed.
fn wb(out: &mut Vec<u8>, data: &[u8]) {
    out.extend_from_slice(&(data.len() as u32).to_be_bytes());
    out.extend_from_slice(data);
}

/// Length-prefixed read.
fn rd_bytes(buf: &[u8], pos: usize) -> (Vec<u8>, usize) {
    let n = u32::from_be_bytes(buf[pos..pos + 4].try_into().unwrap()) as usize;
    (buf[pos + 4..pos + 4 + n].to_vec(), pos + 4 + n)
}

fn xor_keystream(data: &mut [u8], key: &[u8], off: usize) {
    for (i, b) in data.iter_mut().enumerate() {
        *b ^= key[(off + i) % key.len()];
    }
}

/// The client's seal: frame at the cipher block size, apply the keystream,
/// append the all-zero tag.
fn client_seal(key: &[u8], ctr: &mut usize, payload: &Vec<u8>) -> Vec<u8> {
    let mut frame = frame_packet(payload, 16);
    xor_keystream(&mut frame, key, *ctr);
    *ctr += frame.len();
    frame.extend_from_slice(&[0u8; 32]);
    frame
}

/// The client's open of one sealed server frame: undo the keystream and
/// extract the body between the padding-length byte and the padding.
fn client_open(key: &[u8], ctr: &mut usize, sealed: &[u8]) -> Vec<u8> {
    let data_len = sealed.len() - 32;
    assert!(sealed[data_len..].iter().all(|&b| b == 0), "tag must be all zero");
    let mut packet = sealed[..data_len].to_vec();
    xor_keystream(&mut packet, key, *ctr);
    *ctr += data_len;
    let pad = packet[4] as usize;
    packet[5..packet.len() - pad].to_vec()
}

fn client_offer() -> MsgKexInit {
    MsgKexInit {
        cookie: [9u8; 16],
        kex_algorithms: names(&["ecdh-sha2-nistp256"]),
        server_host_key_algorithms: names(&["ssh-ed25519"]),
        encryption_algorithms_client_to_server: names(&["aes128-ctr"]),
        encryption_algorithms_server_to_client: names(&["aes128-ctr"]),
        mac_algorithms_client_to_server: names(&["hmac-sha2-256"]),
        mac_algorithms_server_to_client: names(&["hmac-sha2-256"]),
        compression_algorithms_client_to_server: names(&["none"]),
        compression_algorithms_server_to_client: names(&["none"]),
        languages_client_to_server: Vec::new(),
        languages_server_to_client: Vec::new(),
        kex_first_packet_follows: false,
        reserved: 0,
    }
}

fn encode(msg: &SSHMsg) -> Vec<u8> {
    let mut out = Vec::new();
    msg.write_ssh(&mut out);
    out
}

/// Drive a fresh server through version exchange, negotiation, key exchange
/// and key activation; returns the session and the session key both sides
/// derived, with the client having verified the server's signature over its
/// own recomputation of the exchange hash.
fn handshake_to_newkeys() -> (ServerSession, Vec<u8>) {
    let mut server = ServerSession::new(
        vec![7u8; 32],
        b"SSH-2.0-RustSSH_0.1".to_vec(),
        "admin".to_string(),
        "password".to_string(),
    );
    let line = server.version_line();
    assert_eq!(&line[line.len() - 2..], b"\r\n");

    // Version exchange.
    server.feed(&b"SSH-2.0-testclient\r\n".to_vec());
    assert_eq!(server.poll_version_line().unwrap(), true);
    assert_eq!(server.phase, Phase::AwaitingKexInit);
    assert_eq!(server.client_version, b"SSH-2.0-testclient".to_vec());

    // Algorithm negotiation.
    let ckex_payload = encode(&SSHMsg::KexInit(client_offer()));
    server.feed(&build_packet(&ckex_payload));
    let body = server.poll_frame().unwrap().unwrap();
    assert_eq!(body, ckex_payload);
    let replies = server.handle_body(&body).unwrap();
    assert_eq!(replies.len(), 1);
    assert_eq!(server.phase, Phase::KeyExchangeInFlight);
    let suite = server.negotiated.clone().unwrap();
    assert_eq!(suite.kex, "ecdh-sha2-nistp256");
    assert_eq!(suite.host_key, "ssh-ed25519");
    let sealed = server.seal_message(&replies[0]).unwrap();
    let (skex_payload, used) = parse_plain_frame(&sealed).unwrap().unwrap();
    assert_eq!(used, sealed.len());
    // The engine retained exactly the bytes it sent.
    assert_eq!(server.server_kexinit, skex_payload);
    assert_eq!(server.client_kexinit, ckex_payload);

    // Elliptic-curve key exchange.
    let client_secret = p256::ecdh::EphemeralSecret::random(&mut rand::rngs::OsRng);
    let q_c = p256::EncodedPoint::from(client_secret.public_key()).as_bytes().to_vec();
    let ecdh_payload = encode(&SSHMsg::KexECDHInit(MsgKexECDHInit { q_c: q_c.clone() }));
    server.feed(&build_packet(&ecdh_payload));
    let body = server.poll_frame().unwrap().unwrap();
    let replies = server.handle_body(&body).unwrap();
    assert_eq!(replies.len(), 1);
    assert_eq!(server.phase, Phase::AwaitingNewKeys);
    let reply = match &replies[0] {
        SSHMsg::KexECDHReply(r) => r.clone(),
        other => panic!("expected a key-exchange reply, got {:?}", other),
    };
    let _ = server.seal_message(&replies[0]).unwrap();

    // The client derives the same shared secret and exchange hash.
    let server_pub = p256::PublicKey::from_sec1_bytes(&reply.q_s).unwrap();
    let shared = client_secret.diffie_hellman(&server_pub);
    let mut k = shared.raw_secret_bytes().to_vec();
    if k[0] & 0x80 != 0 {
        k.insert(0, 0);
    }
    let mut e = Vec::new();
    wb(&mut e, b"SSH-2.0-testclient");
    wb(&mut e, b"SSH-2.0-RustSSH_0.1");
    wb(&mut e, &ckex_payload);
    wb(&mut e, &skex_payload);
    wb(&mut e, &reply.k_s);
    wb(&mut e, &q_c);
    wb(&mut e, &reply.q_s);
    wb(&mut e, &k);
    let hash = sha2::Sha256::digest(&e).to_vec();
    assert_eq!(server.session_secret, hash, "both sides must derive the same exchange hash");

    // The client verifies the signature over the exchange hash against the
    // host key from the host-key blob.
    let (alg, p1) = rd_bytes(&reply.k_s, 0);
    assert_eq!(alg, b"ssh-ed25519");
    let (pk, _) = rd_bytes(&reply.k_s, p1);
    let (salg, p2) = rd_bytes(&reply.signature, 0);
    assert_eq!(salg, b"ssh-ed25519");
    let (sig, _) = rd_bytes(&reply.signature, p2);
    let vk = ed25519_dalek::VerifyingKey::from_bytes(pk.as_slice().try_into().unwrap()).unwrap();
    let sg = ed25519_dalek::Signature::from_bytes(sig.as_slice().try_into().unwrap());
    vk.verify(&hash, &sg).expect("host signature over the exchange hash must verify");

    // Key activation: the peer's marker switches the receive direction at
    // exactly that frame; our own marker switches the send direction after
    // it has been sent.
    let nk_payload = encode(&SSHMsg::NewKeys(MsgNewKeys {}));
    server.feed(&build_packet(&nk_payload));
    let body = server.poll_frame().unwrap().unwrap();
    let replies = server.handle_body(&body).unwrap();
    assert!(server.recv_active);
    assert!(!server.send_active, "send direction must not activate before our marker is sent");
    let sealed_nk = server.seal_message(&replies[0]).unwrap();
    assert!(server.send_active, "send direction activates right after our marker is sent");
    let (nk_reply, _) = parse_plain_frame(&sealed_nk).unwrap().unwrap();
    assert_eq!(nk_reply, nk_payload, "the marker itself still travels unencrypted");
    assert_eq!(server.phase, Phase::ServiceNegotiation);
    (server, hash)
}

/// One encrypted request-response exchange; returns the decoded reply bodies.
fn exchange(
    server: &mut ServerSession,
    key: &[u8],
    c2s: &mut usize,
    s2c: &mut usize,
    payload: Vec<u8>,
) -> Vec<Vec<u8>> {
    server.feed(&client_seal(key, c2s, &payload));
    let body = server.poll_frame().unwrap().unwrap();
    assert_eq!(body, payload);
    let replies = server.handle_body(&body).unwrap();
    let mut out = Vec::new();
    for m in &replies {
        let sealed = server.seal_message(m).unwrap();
        out.push(client_open(key, s2c, &sealed));
    }
    out
}

#[test]
fn test_end_to_end_session() {
    let (mut server, key) = handshake_to_newkeys();
    let mut c2s = 0usize;
    let mut s2c = 0usize;

    // Service request for the authentication service.
    let sr = encode(&SSHMsg::ServiceRequest(MsgServiceRequest {
        service_name: "ssh-userauth".to_string(),
    }));
    let replies = exchange(&mut server, &key, &mut c2s, &mut s2c, sr);
    assert_eq!(replies.len(), 1);
    match read_next_message(&replies[0], 0).unwrap().0 {
        SSHMsg::ServiceAccept(a) => assert_eq!(a.service_name, "ssh-userauth"),
        other => panic!("expected service accept, got {:?}", other),
    }
    assert_eq!(server.phase, Phase::Authenticating);

    // A wrong password is refused; only the password method may continue.
    let mut bad = encode(&SSHMsg::UserauthRequest(MsgUserauthRequest {
        user_name: "admin".to_string(),
        service_name: "ssh-connection".to_string(),
        method_name: "password".to_string(),
    }));
    bad.push(0);
    wb(&mut bad, b"wrong");
    let replies = exchange(&mut server, &key, &mut c2s, &mut s2c, bad);
    match read_next_message(&replies[0], 0).unwrap().0 {
        SSHMsg::UserauthFailure(f) => {
            assert_eq!(f.authentications_that_can_continue, vec!["password".to_string()]);
            assert!(!f.partial_success);
        },
        other => panic!("expected authentication failure, got {:?}", other),
    }
    assert!(!server.authenticated);

    // The right credentials authenticate, for good.
    let mut good = encode(&SSHMsg::UserauthRequest(MsgUserauthRequest {
        user_name: "admin".to_string(),
        service_name: "ssh-connection".to_string(),
        method_name: "password".to_string(),
    }));
    good.push(0);
    wb(&mut good, b"password");
    let replies = exchange(&mut server, &key, &mut c2s, &mut s2c, good);
    match read_next_message(&replies[0], 0).unwrap().0 {
        SSHMsg::UserauthSuccess(_) => {},
        other => panic!("expected authentication success, got {:?}", other),
    }
    assert!(server.authenticated);
    assert_eq!(server.phase, Phase::Authenticated);

    // Session channel open: exactly one confirmation with the engine's id.
    let open = encode(&SSHMsg::ChannelOpen(MsgChannelOpen {
        channel_type: "session".to_string(),
        sender_channel: 1,
        initial_window_size: 65536,
        maximum_packet_size: 16384,
    }));
    let replies = exchange(&mut server, &key, &mut c2s, &mut s2c, open);
    match read_next_message(&replies[0], 0).unwrap().0 {
        SSHMsg::ChannelOpenConfirmation(c) => {
            assert_eq!(c.recipient_channel, 1);
            assert_eq!(c.sender_channel, 0);
            assert_eq!(c.initial_window_size, 2097152);
            assert_eq!(c.maximum_packet_size, 32768);
        },
        other => panic!("expected open confirmation, got {:?}", other),
    }
    assert_eq!(server.phase, Phase::ChannelOpen);

    // Execute: acknowledgment, then data, end-of-file and close, in that
    // fixed order.
    let exec = encode(&SSHMsg::ChannelRequest(MsgChannelRequest {
        recipient_channel: 0,
        request_type: "exec".to_string(),
        want_reply: true,
    }));
    let replies = exchange(&mut server, &key, &mut c2s, &mut s2c, exec);
    assert_eq!(replies.len(), 4);
    match read_next_message(&replies[0], 0).unwrap().0 {
        SSHMsg::ChannelSuccess(c) => assert_eq!(c.recipient_channel, 0),
        other => panic!("expected success acknowledgment, got {:?}", other),
    }
    match read_next_message(&replies[1], 0).unwrap().0 {
        SSHMsg::ChannelData(d) => {
            assert_eq!(d.recipient_channel, 0);
            assert_eq!(d.data, b"Hello from RustySSH server!\n".to_vec());
        },
        other => panic!("expected channel data, got {:?}", other),
    }
    match read_next_message(&replies[2], 0).unwrap().0 {
        SSHMsg::ChannelEof(c) => assert_eq!(c.recipient_channel, 0),
        other => panic!("expected end-of-file, got {:?}", other),
    }
    match read_next_message(&replies[3], 0).unwrap().0 {
        SSHMsg::ChannelClose(c) => assert_eq!(c.recipient_channel, 0),
        other => panic!("expected close, got {:?}", other),
    }

    // The peer's close is echoed back and the connection may terminate.
    let close = encode(&SSHMsg::ChannelClose(MsgChannelClose { recipient_channel: 0 }));
    let replies = exchange(&mut server, &key, &mut c2s, &mut s2c, close);
    match read_next_message(&replies[0], 0).unwrap().0 {
        SSHMsg::ChannelClose(c) => assert_eq!(c.recipient_channel, 0),
        other => panic!("expected echoed close, got {:?}", other),
    }
    assert_eq!(server.phase, Phase::Closed);
}

#[test]
fn test_double_newkeys_rejected() {
    // Two consecutive key-exchange-complete markers without an intervening
    // key exchange are an illegal transition.
    let (mut server, key) = handshake_to_newkeys();
    let mut c2s = 0usize;
    let nk = encode(&SSHMsg::NewKeys(MsgNewKeys {}));
    server.feed(&client_seal(&key, &mut c2s, &nk));
    let body = server.poll_frame().unwrap().unwrap();
    let result = server.handle_body(&body);
    assert_eq!(result.unwrap_err(), SSHError::Protocol);
    assert_eq!(server.phase, Phase::Closed);
}

#[test]
fn test_version_line_bad_prefix_is_fatal() {
    let mut server = ServerSession::new(
        vec![1u8; 32],
        b"SSH-2.0-RustSSH_0.1".to_vec(),
        "admin".to_string(),
        "password".to_string(),
    );
    server.feed(&b"HTTP/1.1 GET /\r\n".to_vec());
    assert_eq!(server.poll_version_line().unwrap_err(), SSHError::Malformed);
    assert_eq!(server.phase, Phase::Closed);
}

#[test]
fn test_version_line_waits_for_newline() {
    let mut server = ServerSession::new(
        vec![1u8; 32],
        b"SSH-2.0-RustSSH_0.1".to_vec(),
        "admin".to_string(),
        "password".to_string(),
    );
    server.feed(&b"SSH-2.0-half".to_vec());
    assert_eq!(server.poll_version_line().unwrap(), false);
    server.feed(&b"client\r\n".to_vec());
    assert_eq!(server.poll_version_line().unwrap(), true);
    assert_eq!(server.client_version, b"SSH-2.0-halfclient".to_vec());
}

#[test]
fn test_unknown_service_is_ignored() {
    let (mut server, key) = handshake_to_newkeys();
    let mut c2s = 0usize;
    let sr = encode(&SSHMsg::ServiceRequest(MsgServiceRequest {
        service_name: "no-such-service".to_string(),
    }));
    server.feed(&client_seal(&key, &mut c2s, &sr));
    let body = server.poll_frame().unwrap().unwrap();
    let replies = server.handle_body(&body).unwrap();
    assert!(replies.is_empty());
    assert_eq!(server.phase, Phase::ServiceNegotiation);
}

#[test]
fn test_cookie_is_sixteen_bytes() {
    let server = ServerSession::new(
        vec![2u8; 32],
        b"SSH-2.0-RustSSH_0.1".to_vec(),
        "admin".to_string(),
        "password".to_string(),
    );
    assert_eq!(server.cookie.len(), 16);
    assert_eq!(server.eph_secret.len(), 32);
    assert_eq!(server.eph_public.len(), 65);
}
