//! The per-connection handshake engine: a state machine that owns version
//! exchange, algorithm negotiation, elliptic-curve key exchange, key
//! activation, authentication and a minimal channel lifecycle.
//!
//! The engine is driven from outside: the surrounding application reads
//! bytes from the transport and feeds them in, polls for complete frames,
//! hands each decoded message body to [`ServerSession::handle_body`], and
//! sends back the bytes that [`ServerSession::seal_message`] produces for
//! each reply.  All decisions live here; the application only moves bytes.

use vstd::prelude::*;
use crate::err::SSHError;
use crate::wire::{spec_bytes_wire, spec_string_wire, spec_read_bool, spec_read_string, read_bool,
    read_string, write_string, write_bytes, lemma_encode_utf8_len};
use crate::msg::{SSHMsg, SSHMsgV, MsgKexInit, MsgKexInitV, MsgKexECDHInit, MsgKexECDHReply,
    MsgKexECDHReplyV, spec_msg_wire, spec_msg_ok, spec_read_message, read_next_message,
    spec_kex_init_ok};
use crate::frame::{CryptoState, spec_parse_plain_frame, spec_parse_cipher_frame, spec_frame,
    spec_seal, parse_plain_frame, poll_cipher_frame, frame_packet, encrypt_and_mac, MAX_PACKET_LEN,
    PLAIN_BLOCK, CIPHER_BLOCK};
use crate::crypto::{sha256_of, ed25519_sign_of, ed25519_public_of, ecdh_shared_of, sha256,
    ed25519_sign, ed25519_public, ecdh_generate, ecdh_shared, random_bytes};
use crate::negotiate::{AlgorithmSuite, spec_negotiate, negotiate};
use vstd::utf8::encode_utf8;

verus! {

/// The phases of a connection, in handshake order.
#[derive(Clone, Copy, Debug, PartialEq, Eq, Structural)]
pub enum Phase {
    VersionExchange,
    AwaitingKexInit,
    KeyExchangeInFlight,
    AwaitingNewKeys,
    ServiceNegotiation,
    Authenticating,
    Authenticated,
    ChannelOpen,
    Closed,
}

/// Per-connection, single-owner state of the server side of a handshake.
pub struct ServerSession {
    /// Current phase of the connection.
    pub phase: Phase,
    /// Bytes received from the transport and not yet consumed as a version
    /// line or a frame.
    pub inbuf: Vec<u8>,
    /// Whether the receive direction's crypto context is active.
    pub recv_active: bool,
    /// Receive-direction crypto context; meaningful once `recv_active`.
    pub recv: CryptoState,
    /// Whether the send direction's crypto context is active.
    pub send_active: bool,
    /// Send-direction crypto context; meaningful once `send_active`.
    pub send: CryptoState,
    /// The peer's version line, without its line ending.
    pub client_version: Vec<u8>,
    /// Our version line, without its line ending.
    pub server_version: Vec<u8>,
    /// The exact bytes of the peer's algorithm offer, as received.
    pub client_kexinit: Vec<u8>,
    /// The exact bytes of our algorithm offer, as sent.
    pub server_kexinit: Vec<u8>,
    /// The random cookie of our algorithm offer.
    pub cookie: Vec<u8>,
    /// Our ephemeral key-exchange secret scalar.
    pub eph_secret: Vec<u8>,
    /// Our ephemeral key-exchange public key (SEC1, uncompressed).
    pub eph_public: Vec<u8>,
    /// The session secret derived by key exchange; seeds both directions'
    /// crypto contexts.
    pub session_secret: Vec<u8>,
    /// The negotiated algorithm of every category, once negotiation is done.
    pub negotiated: Option<AlgorithmSuite>,
    /// One-way authentication latch: never revoked once set.
    pub authenticated: bool,
    /// The peer's channel number of the single modeled channel, if open.
    pub channel: Option<u32>,
    /// The host identity key (Ed25519 secret).
    pub host_secret: Vec<u8>,
    /// The host public key, derived from `host_secret`.
    pub host_public: Vec<u8>,
    /// The single accepted user name.
    pub expected_user: String,
    /// The single accepted password.
    pub expected_password: String,
}

/// Structural well-formedness of a session: key material has its required
/// lengths and retained transcript pieces stay small enough to length-prefix.
pub open spec fn spec_session_wf(s: ServerSession) -> bool {
    &&& s.host_secret@.len() == 32
    &&& s.host_public@ == ed25519_public_of(s.host_secret@)
    &&& s.host_public@.len() == 32
    &&& s.cookie@.len() == 16
    &&& s.eph_secret@.len() == 32
    &&& s.eph_public@.len() == 65
    &&& s.server_version@.len() <= 255
    &&& s.client_version@.len() <= 255
    &&& s.client_kexinit@.len() <= MAX_PACKET_LEN
    &&& s.server_kexinit@.len() <= MAX_PACKET_LEN
    &&& s.session_secret@.len() <= 64
    &&& (s.phase == Phase::AwaitingNewKeys ==> s.session_secret@.len() == 32)
}

// Helpers that say which parts of the state a step leaves untouched.
/// The connection identity: set at construction, never changed.
pub open spec fn spec_keeps_identity(a: ServerSession, b: ServerSession) -> bool {
    &&& b.host_secret@ == a.host_secret@
    &&& b.host_public@ == a.host_public@
    &&& b.cookie@ == a.cookie@
    &&& b.eph_secret@ == a.eph_secret@
    &&& b.eph_public@ == a.eph_public@
    &&& b.server_version@ == a.server_version@
    &&& b.expected_user@ == a.expected_user@
    &&& b.expected_password@ == a.expected_password@
}

/// The receive buffer.
pub open spec fn spec_keeps_inbuf(a: ServerSession, b: ServerSession) -> bool {
    b.inbuf@ == a.inbuf@
}

/// Both directions' crypto activation state.
pub open spec fn spec_keeps_crypto(a: ServerSession, b: ServerSession) -> bool {
    &&& b.recv_active == a.recv_active
    &&& b.recv.key@ == a.recv.key@
    &&& b.recv.bytes_processed == a.recv.bytes_processed
    &&& b.send_active == a.send_active
    &&& b.send.key@ == a.send.key@
    &&& b.send.bytes_processed == a.send.bytes_processed
}

/// The key-exchange transcript and secrets.
pub open spec fn spec_keeps_kex(a: ServerSession, b: ServerSession) -> bool {
    &&& b.client_version@ == a.client_version@
    &&& b.client_kexinit@ == a.client_kexinit@
    &&& b.server_kexinit@ == a.server_kexinit@
    &&& b.session_secret@ == a.session_secret@
    &&& b.negotiated == a.negotiated
}

/// Phase, authentication latch and channel.
pub open spec fn spec_keeps_conn(a: ServerSession, b: ServerSession) -> bool {
    &&& b.phase == a.phase
    &&& b.authenticated == a.authenticated
    &&& b.channel == a.channel
}

/// Nothing at all changed.
pub open spec fn spec_unchanged(a: ServerSession, b: ServerSession) -> bool {
    &&& spec_keeps_identity(a, b)
    &&& spec_keeps_inbuf(a, b)
    &&& spec_keeps_crypto(a, b)
    &&& spec_keeps_kex(a, b)
    &&& spec_keeps_conn(a, b)
}

impl ServerSession {
    /// A fresh server-side connection in the version-exchange phase, with a
    /// newly generated ephemeral key pair and offer cookie.
    pub fn new(
        host_secret: Vec<u8>,
        server_version: Vec<u8>,
        expected_user: String,
        expected_password: String,
    ) -> (r: ServerSession)
        requires
            host_secret@.len() == 32,
            server_version@.len() <= 255,
        ensures
            spec_session_wf(r),
            r.phase == Phase::VersionExchange,
            r.inbuf@.len() == 0,
            !r.recv_active,
            !r.send_active,
            r.host_secret@ == host_secret@,
            r.host_public@ == ed25519_public_of(host_secret@),
            r.server_version@ == server_version@,
            r.expected_user@ == expected_user@,
            r.expected_password@ == expected_password@,
            r.client_version@.len() == 0,
            r.client_kexinit@.len() == 0,
            r.server_kexinit@.len() == 0,
            r.session_secret@.len() == 0,
            r.negotiated is None,
            !r.authenticated,
            r.channel is None,
    {
        let host_public = ed25519_public(&host_secret);
        let cookie = random_bytes(16);
        let (eph_secret, eph_public) = ecdh_generate();
        ServerSession {
            phase: Phase::VersionExchange,
            inbuf: Vec::new(),
            recv_active: false,
            recv: CryptoState { key: Vec::new(), bytes_processed: 0 },
            send_active: false,
            send: CryptoState { key: Vec::new(), bytes_processed: 0 },
            client_version: Vec::new(),
            server_version,
            client_kexinit: Vec::new(),
            server_kexinit: Vec::new(),
            cookie,
            eph_secret,
            eph_public,
            session_secret: Vec::new(),
            negotiated: None,
            authenticated: false,
            channel: None,
            host_secret,
            host_public,
            expected_user,
            expected_password,
        }
    }

    /// Our newline-terminated version line, ready to send.
    pub fn version_line(&self) -> (r: Vec<u8>)
        ensures
            r@ == self.server_version@ + seq![13u8, 10u8],
    {
        let mut out = self.server_version.clone();
        out.push(13);
        out.push(10);
        proof {
            assert(out@ =~= self.server_version@ + seq![13u8, 10u8]);
        }
        out
    }

    /// Append freshly received transport bytes to the receive buffer.
    /// Incomplete data is never lost: it stays buffered until a whole line
    /// or frame has arrived.
    pub fn feed(&mut self, data: &Vec<u8>)
        ensures
            final(self).inbuf@ == old(self).inbuf@ + data@,
            spec_keeps_identity(*old(self), *final(self)),
            spec_keeps_crypto(*old(self), *final(self)),
            spec_keeps_kex(*old(self), *final(self)),
            spec_keeps_conn(*old(self), *final(self)),
    {
        self.inbuf.extend_from_slice(data.as_slice());
    }
}

/// Index of the first newline byte in `b`, or `b.len()` if there is none.
pub open spec fn spec_find_newline(b: Seq<u8>) -> nat
    decreases b.len(),
{
    if b.len() == 0 {
        0
    } else if b[0] == 10 {
        0
    } else {
        (1 + spec_find_newline(b.drop_first())) as nat
    }
}

/// `b` without its trailing carriage returns.
pub open spec fn spec_trim_cr(b: Seq<u8>) -> Seq<u8>
    decreases b.len(),
{
    if b.len() > 0 && b[b.len() - 1] == 13 {
        spec_trim_cr(b.drop_last())
    } else {
        b
    }
}

/// The fixed protocol prefix every version line must begin with.
pub open spec fn spec_version_prefix() -> Seq<u8> {
    seq![83u8, 83u8, 72u8, 45u8, 50u8, 46u8, 48u8, 45u8]
}

/// Whether `line` begins with the protocol prefix.
pub open spec fn spec_version_line_ok(line: Seq<u8>) -> bool {
    line.len() >= 8 && line.subrange(0, 8) == spec_version_prefix()
}

pub proof fn lemma_find_newline(b: Seq<u8>)
    ensures
        spec_find_newline(b) <= b.len(),
        spec_find_newline(b) < b.len() ==> b[spec_find_newline(b) as int] == 10,
        forall|j: int| 0 <= j < spec_find_newline(b) ==> b[j] != 10,
    decreases b.len(),
{
    if b.len() == 0 {
    } else if b[0] == 10 {
    } else {
        lemma_find_newline(b.drop_first());
        assert forall|j: int| 0 <= j < spec_find_newline(b) implies b[j] != 10 by {
            if j > 0 {
                assert(b.drop_first()[j - 1] == b[j]);
            }
        }
        if spec_find_newline(b) < b.len() {
            assert(b.drop_first()[spec_find_newline(b.drop_first()) as int] == b[spec_find_newline(
                b,
            ) as int]);
        }
    }
}

impl ServerSession {
    /// Try to take the peer's version line from the buffer: `Ok(false)` while
    /// no newline has arrived yet.  On the first complete line, trailing
    /// carriage returns are trimmed, the fixed protocol prefix is checked,
    /// and the line is retained verbatim for the exchange hash.  A line
    /// without the prefix, an overlong line, or a second line are fatal.
    pub fn poll_version_line(&mut self) -> (r: Result<bool, SSHError>)
        requires
            spec_session_wf(*old(self)),
        ensures
            spec_session_wf(*final(self)),
            spec_keeps_identity(*old(self), *final(self)),
            spec_keeps_crypto(*old(self), *final(self)),
            ({
                let buf = old(self).inbuf@;
                let i = spec_find_newline(buf) as int;
                let line = spec_trim_cr(buf.take(i));
                if old(self).phase != Phase::VersionExchange {
                    &&& r == Err::<bool, SSHError>(SSHError::Protocol)
                    &&& final(self).phase == Phase::Closed
                    &&& spec_keeps_inbuf(*old(self), *final(self))
                    &&& spec_keeps_kex(*old(self), *final(self))
                } else if i == buf.len() && buf.len() <= 255 {
                    &&& r == Ok::<bool, SSHError>(false)
                    &&& spec_unchanged(*old(self), *final(self))
                } else if i == buf.len() {
                    &&& r == Err::<bool, SSHError>(SSHError::Malformed)
                    &&& final(self).phase == Phase::Closed
                    &&& spec_keeps_inbuf(*old(self), *final(self))
                    &&& spec_keeps_kex(*old(self), *final(self))
                } else if i > 255 || !spec_version_line_ok(line) {
                    &&& r == Err::<bool, SSHError>(SSHError::Malformed)
                    &&& final(self).phase == Phase::Closed
                    &&& spec_keeps_inbuf(*old(self), *final(self))
                    &&& spec_keeps_kex(*old(self), *final(self))
                } else {
                    &&& r == Ok::<bool, SSHError>(true)
                    &&& final(self).phase == Phase::AwaitingKexInit
                    &&& final(self).client_version@ == line
                    &&& final(self).inbuf@ == buf.skip(i + 1)
                    &&& final(self).client_kexinit@ == old(self).client_kexinit@
                    &&& final(self).server_kexinit@ == old(self).server_kexinit@
                    &&& final(self).session_secret@ == old(self).session_secret@
                    &&& final(self).negotiated == old(self).negotiated
                    &&& final(self).authenticated == old(self).authenticated
                    &&& final(self).channel == old(self).channel
                }
            }),
    {
        if !matches!(self.phase, Phase::VersionExchange) {
            self.phase = Phase::Closed;
            return Err(SSHError::Protocol);
        }
        let ghost buf = self.inbuf@;
        // Find the first newline.
        let mut i: usize = 0;
        while i < self.inbuf.len() && self.inbuf[i] != 10
            invariant
                0 <= i <= self.inbuf@.len(),
                self.inbuf@ == buf,
                forall|j: int| 0 <= j < i ==> buf[j] != 10,
            decreases self.inbuf@.len() - i,
        {
            i += 1;
        }
        proof {
            lemma_find_newline(buf);
            if i < buf.len() {
                assert(spec_find_newline(buf) == i) by {
                    if spec_find_newline(buf) < i {
                        assert(buf[spec_find_newline(buf) as int] == 10);
                    }
                }
            } else {
                assert(spec_find_newline(buf) == buf.len()) by {
                    if spec_find_newline(buf) < buf.len() {
                        assert(buf[spec_find_newline(buf) as int] == 10);
                    }
                }
            }
        }
        if i == self.inbuf.len() {
            // No full line yet; a silent peer may just be slow, but an
            // overlong line without a newline can never become valid.
            if self.inbuf.len() <= 255 {
                return Ok(false);
            }
            self.phase = Phase::Closed;
            return Err(SSHError::Malformed);
        }
        if i > 255 {
            self.phase = Phase::Closed;
            return Err(SSHError::Malformed);
        }
        // Take the line and trim trailing carriage returns.
        let mut line = vstd::slice::slice_to_vec(
            vstd::slice::slice_subrange(self.inbuf.as_slice(), 0, i),
        );
        proof {
            assert(line@ =~= buf.take(i as int));
        }
        while line.len() > 0 && line[line.len() - 1] == 13
            invariant
                line@.len() <= 255,
                spec_trim_cr(line@) == spec_trim_cr(buf.take(spec_find_newline(buf) as int)),
            decreases line@.len(),
        {
            let ghost before = line@;
            line.pop();
            proof {
                assert(line@ =~= before.drop_last());
            }
        }
        proof {
            assert(spec_trim_cr(line@) == line@);
        }
        // Check the protocol prefix.
        let ok = line.len() >= 8 && line[0] == 83 && line[1] == 83 && line[2] == 72 && line[3]
            == 45 && line[4] == 50 && line[5] == 46 && line[6] == 48 && line[7] == 45;
        proof {
            if ok {
                assert(line@.subrange(0, 8) =~= spec_version_prefix());
            } else {
                if line@.len() >= 8 && line@.subrange(0, 8) == spec_version_prefix() {
                    assert(line@[0] == 83 && line@[1] == 83 && line@[2] == 72 && line@[3] == 45
                        && line@[4] == 50 && line@[5] == 46 && line@[6] == 48 && line@[7] == 45);
                }
            }
        }
        if !ok {
            self.phase = Phase::Closed;
            return Err(SSHError::Malformed);
        }
        let rest = self.inbuf.split_off(i + 1);
        self.inbuf = rest;
        self.client_version = line;
        self.phase = Phase::AwaitingKexInit;
        Ok(true)
    }

    /// Try to take one complete frame's message body from the buffer, in
    /// whichever regime the receive direction is in: `Ok(None)` while the
    /// buffered bytes are still short of a whole frame.  A successfully
    /// extracted frame is consumed from the buffer; in the encrypted regime
    /// the receive byte-counter advances exactly once per frame.  Framing
    /// errors are fatal.
    pub fn poll_frame(&mut self) -> (r: Result<Option<Vec<u8>>, SSHError>)
        requires
            spec_session_wf(*old(self)),
        ensures
            spec_session_wf(*final(self)),
            spec_keeps_identity(*old(self), *final(self)),
            spec_keeps_kex(*old(self), *final(self)),
            final(self).authenticated == old(self).authenticated,
            final(self).channel == old(self).channel,
            final(self).send_active == old(self).send_active,
            final(self).send.key@ == old(self).send.key@,
            final(self).send.bytes_processed == old(self).send.bytes_processed,
            final(self).recv_active == old(self).recv_active,
            final(self).recv.key@ == old(self).recv.key@,
            ({
                let buf = old(self).inbuf@;
                let outcome = if !old(self).recv_active {
                    spec_parse_plain_frame(buf)
                } else {
                    spec_parse_cipher_frame(
                        buf,
                        old(self).recv.key@,
                        old(self).recv.bytes_processed as int,
                    )
                };
                match r {
                    Ok(Some(body)) => {
                        &&& outcome matches Ok(Some((b, consumed))) && b == body@
                            && final(self).inbuf@ == buf.skip(consumed) && (if old(self).recv_active {
                            final(self).recv.bytes_processed == old(self).recv.bytes_processed
                                + consumed - 32
                        } else {
                            final(self).recv.bytes_processed == old(self).recv.bytes_processed
                        })
                        &&& final(self).phase == old(self).phase
                        &&& body@.len() <= MAX_PACKET_LEN
                    },
                    Ok(None) => outcome == Ok::<Option<(Seq<u8>, int)>, SSHError>(None)
                        && spec_keeps_inbuf(*old(self), *final(self)) && final(self).phase == old(self).phase && final(self).recv.bytes_processed == old(self).recv.bytes_processed,
                    Err(e) => outcome == Err::<Option<(Seq<u8>, int)>, SSHError>(e) && final(self).phase == Phase::Closed && spec_keeps_inbuf(*old(self), *final(self)) && final(self).recv.bytes_processed == old(self).recv.bytes_processed,
                }
            }),
    {
        if !self.recv_active {
            match parse_plain_frame(&self.inbuf) {
                Ok(Some((body, consumed))) => {
                    proof {
                        let buf = self.inbuf@;
                        let n = crate::wire::spec_u32_of(buf[0], buf[1], buf[2], buf[3]);
                        assert(body@.len() <= MAX_PACKET_LEN);
                    }
                    let rest = self.inbuf.split_off(consumed);
                    self.inbuf = rest;
                    Ok(Some(body))
                },
                Ok(None) => Ok(None),
                Err(e) => {
                    self.phase = Phase::Closed;
                    Err(e)
                },
            }
        } else {
            match poll_cipher_frame(&mut self.recv, &self.inbuf) {
                Ok(Some((body, consumed))) => {
                    proof {
                        assert(body@.len() <= MAX_PACKET_LEN);
                    }
                    let rest = self.inbuf.split_off(consumed);
                    self.inbuf = rest;
                    Ok(Some(body))
                },
                Ok(None) => Ok(None),
                Err(e) => {
                    self.phase = Phase::Closed;
                    Err(e)
                },
            }
        }
    }
}


// ---------------------------------------------------------------------------
// Fixed material of the server's own offer and of the key exchange
// ---------------------------------------------------------------------------

/// Convert an exact 16-byte vector into the fixed array a cookie field holds.
fn vec_to_array16(v: &Vec<u8>) -> (r: [u8; 16])
    requires
        v@.len() == 16,
    ensures
        r@ == v@,
{
    let r: [u8; 16] = [
        v[0],
        v[1],
        v[2],
        v[3],
        v[4],
        v[5],
        v[6],
        v[7],
        v[8],
        v[9],
        v[10],
        v[11],
        v[12],
        v[13],
        v[14],
        v[15],
    ];
    assert(r@ =~= v@);
    r
}

/// The algorithm offer this server always makes: one supported algorithm per
/// required category, no languages.
pub open spec fn spec_server_offer(cookie: Seq<u8>) -> MsgKexInitV {
    MsgKexInitV {
        cookie: cookie,
        kex_algorithms: seq!["ecdh-sha2-nistp256"@],
        server_host_key_algorithms: seq!["ssh-ed25519"@],
        encryption_algorithms_client_to_server: seq!["aes128-ctr"@],
        encryption_algorithms_server_to_client: seq!["aes128-ctr"@],
        mac_algorithms_client_to_server: seq!["hmac-sha2-256"@],
        mac_algorithms_server_to_client: seq!["hmac-sha2-256"@],
        compression_algorithms_client_to_server: seq!["none"@],
        compression_algorithms_server_to_client: seq!["none"@],
        languages_client_to_server: Seq::empty(),
        languages_server_to_client: Seq::empty(),
        kex_first_packet_follows: false,
        reserved: 0,
    }
}

/// Build the server's algorithm offer around its cookie, checking at run
/// time that every offered name-list is faithfully representable.
pub fn make_server_offer(cookie: &Vec<u8>) -> (r: Result<MsgKexInit, SSHError>)
    requires
        cookie@.len() == 16,
    ensures
        match r {
            Ok(m) => m@ == spec_server_offer(cookie@) && spec_kex_init_ok(m@),
            Err(e) => e == SSHError::Protocol && !spec_kex_init_ok(spec_server_offer(cookie@)),
        },
{
    let kex_algorithms = vec![String::from_str("ecdh-sha2-nistp256")];
    let server_host_key_algorithms = vec![String::from_str("ssh-ed25519")];
    let encryption_algorithms_client_to_server = vec![String::from_str("aes128-ctr")];
    let encryption_algorithms_server_to_client = vec![String::from_str("aes128-ctr")];
    let mac_algorithms_client_to_server = vec![String::from_str("hmac-sha2-256")];
    let mac_algorithms_server_to_client = vec![String::from_str("hmac-sha2-256")];
    let compression_algorithms_client_to_server = vec![String::from_str("none")];
    let compression_algorithms_server_to_client = vec![String::from_str("none")];
    let languages_client_to_server: Vec<String> = Vec::new();
    let languages_server_to_client: Vec<String> = Vec::new();
    let m = MsgKexInit {
        cookie: vec_to_array16(cookie),
        kex_algorithms,
        server_host_key_algorithms,
        encryption_algorithms_client_to_server,
        encryption_algorithms_server_to_client,
        mac_algorithms_client_to_server,
        mac_algorithms_server_to_client,
        compression_algorithms_client_to_server,
        compression_algorithms_server_to_client,
        languages_client_to_server,
        languages_server_to_client,
        kex_first_packet_follows: false,
        reserved: 0,
    };
    proof {
        assert(m.kex_algorithms.deep_view() =~= seq!["ecdh-sha2-nistp256"@]);
        assert(m.server_host_key_algorithms.deep_view() =~= seq!["ssh-ed25519"@]);
        assert(m.encryption_algorithms_client_to_server.deep_view() =~= seq!["aes128-ctr"@]);
        assert(m.encryption_algorithms_server_to_client.deep_view() =~= seq!["aes128-ctr"@]);
        assert(m.mac_algorithms_client_to_server.deep_view() =~= seq!["hmac-sha2-256"@]);
        assert(m.mac_algorithms_server_to_client.deep_view() =~= seq!["hmac-sha2-256"@]);
        assert(m.compression_algorithms_client_to_server.deep_view() =~= seq!["none"@]);
        assert(m.compression_algorithms_server_to_client.deep_view() =~= seq!["none"@]);
        assert(m.languages_client_to_server.deep_view() =~= Seq::<Seq<char>>::empty());
        assert(m.languages_server_to_client.deep_view() =~= Seq::<Seq<char>>::empty());
        assert(m@ == spec_server_offer(cookie@));
    }
    let ok = crate::namelist::name_list_ok(&m.kex_algorithms) && crate::namelist::name_list_ok(
        &m.server_host_key_algorithms,
    ) && crate::namelist::name_list_ok(&m.encryption_algorithms_client_to_server)
        && crate::namelist::name_list_ok(&m.encryption_algorithms_server_to_client)
        && crate::namelist::name_list_ok(&m.mac_algorithms_client_to_server)
        && crate::namelist::name_list_ok(&m.mac_algorithms_server_to_client)
        && crate::namelist::name_list_ok(&m.compression_algorithms_client_to_server)
        && crate::namelist::name_list_ok(&m.compression_algorithms_server_to_client)
        && crate::namelist::name_list_ok(&m.languages_client_to_server)
        && crate::namelist::name_list_ok(&m.languages_server_to_client);
    if ok {
        Ok(m)
    } else {
        Err(SSHError::Protocol)
    }
}

/// A shared secret as it enters the exchange hash: a leading zero byte is
/// prepended when the top bit is set, so the value reads as a non-negative
/// integer.
pub open spec fn spec_mpint(k: Seq<u8>) -> Seq<u8> {
    if k.len() > 0 && k[0] >= 128 {
        seq![0u8] + k
    } else {
        k
    }
}

/// The host-key blob: algorithm name and public key bytes, each
/// length-prefixed.
pub open spec fn spec_host_key_blob(pk: Seq<u8>) -> Seq<u8> {
    spec_string_wire("ssh-ed25519"@) + spec_bytes_wire(pk)
}

/// The signature blob: algorithm name and raw signature, each
/// length-prefixed.
pub open spec fn spec_sig_blob(sig: Seq<u8>) -> Seq<u8> {
    spec_string_wire("ssh-ed25519"@) + spec_bytes_wire(sig)
}

/// The exchange-hash input: both version lines, both offers' exact bytes,
/// the host-key blob, both ephemeral public keys and the shared secret, in
/// this order, each length-prefixed.
pub open spec fn spec_exchange_input(
    client_version: Seq<u8>,
    server_version: Seq<u8>,
    client_kexinit: Seq<u8>,
    server_kexinit: Seq<u8>,
    host_key_blob: Seq<u8>,
    q_c: Seq<u8>,
    q_s: Seq<u8>,
    shared: Seq<u8>,
) -> Seq<u8> {
    spec_bytes_wire(client_version) + spec_bytes_wire(server_version) + spec_bytes_wire(
        client_kexinit,
    ) + spec_bytes_wire(server_kexinit) + spec_bytes_wire(host_key_blob) + spec_bytes_wire(q_c)
        + spec_bytes_wire(q_s) + spec_bytes_wire(spec_mpint(shared))
}

/// The payload of the single data message the execute action produces.
pub open spec fn spec_greeting() -> Seq<u8> {
    encode_utf8("Hello from RustySSH server!\n"@)
}

/// Compute the key-exchange reply and the exchange hash from the retained
/// transcript and the shared secret the key-agreement collaborator returned.
/// Everything here is a pure function of its arguments: the reply carries
/// the host-key blob, our ephemeral public key, and a signature blob over
/// the exchange hash.
pub fn kex_reply(
    host_secret: &Vec<u8>,
    host_public: &Vec<u8>,
    client_version: &Vec<u8>,
    server_version: &Vec<u8>,
    client_kexinit: &Vec<u8>,
    server_kexinit: &Vec<u8>,
    q_c: &Vec<u8>,
    eph_public: &Vec<u8>,
    shared: &Vec<u8>,
) -> (r: (MsgKexECDHReply, Vec<u8>))
    requires
        host_secret@.len() == 32,
        host_public@.len() <= 1000,
        client_version@.len() <= 255,
        server_version@.len() <= 255,
        client_kexinit@.len() <= MAX_PACKET_LEN,
        server_kexinit@.len() <= MAX_PACKET_LEN,
        q_c@.len() <= MAX_PACKET_LEN,
        eph_public@.len() <= 1000,
        shared@.len() <= 1000,
    ensures
        ({
            let ks = spec_host_key_blob(host_public@);
            let input = spec_exchange_input(
                client_version@,
                server_version@,
                client_kexinit@,
                server_kexinit@,
                ks,
                q_c@,
                eph_public@,
                shared@,
            );
            let hash = sha256_of(input);
            &&& r.0@.k_s == ks
            &&& r.0@.q_s == eph_public@
            &&& r.0@.signature == spec_sig_blob(ed25519_sign_of(host_secret@, hash))
            &&& r.1@ == hash
            &&& r.1@.len() == 32
        }),
{
    proof {
        reveal_strlit("ssh-ed25519");
        lemma_encode_utf8_len("ssh-ed25519"@);
    }
    let alg = String::from_str("ssh-ed25519");
    // Host-key blob.
    let mut ks: Vec<u8> = Vec::new();
    write_string(&mut ks, &alg);
    write_bytes(&mut ks, host_public);
    proof {
        assert(ks@ =~= spec_host_key_blob(host_public@));
    }
    // Shared secret as a non-negative integer.
    let mut kk: Vec<u8> = Vec::new();
    if shared.len() > 0 && shared[0] >= 128 {
        kk.push(0u8);
    }
    kk.extend_from_slice(shared.as_slice());
    proof {
        assert(kk@ =~= spec_mpint(shared@));
    }
    // The exchange-hash input, in the required order.
    let mut e: Vec<u8> = Vec::new();
    write_bytes(&mut e, client_version);
    write_bytes(&mut e, server_version);
    write_bytes(&mut e, client_kexinit);
    write_bytes(&mut e, server_kexinit);
    write_bytes(&mut e, &ks);
    write_bytes(&mut e, q_c);
    write_bytes(&mut e, eph_public);
    write_bytes(&mut e, &kk);
    proof {
        assert(e@ =~= spec_exchange_input(
            client_version@,
            server_version@,
            client_kexinit@,
            server_kexinit@,
            spec_host_key_blob(host_public@),
            q_c@,
            eph_public@,
            shared@,
        ));
    }
    let hash = sha256(&e);
    let sig = ed25519_sign(host_secret, &hash);
    let mut sig_blob: Vec<u8> = Vec::new();
    write_string(&mut sig_blob, &alg);
    write_bytes(&mut sig_blob, &sig);
    proof {
        assert(sig_blob@ =~= spec_sig_blob(ed25519_sign_of(host_secret@, hash@)));
    }
    let reply = MsgKexECDHReply { k_s: ks, q_s: eph_public.clone(), signature: sig_blob };
    (reply, hash)
}

// ---------------------------------------------------------------------------
// Outcome shapes of one engine step
// ---------------------------------------------------------------------------

/// The step produced no replies.
pub open spec fn spec_replies0(r: Result<Vec<SSHMsg>, SSHError>) -> bool {
    r matches Ok(v) && v@.len() == 0
}

/// The step produced exactly the reply `m`.
pub open spec fn spec_reply1(r: Result<Vec<SSHMsg>, SSHError>, m: SSHMsgV) -> bool {
    r matches Ok(v) && v@.len() == 1 && v@[0]@ == m
}

/// The step failed fatally with `e`: the connection moves to `Closed` and
/// everything else stays as it was.
pub open spec fn spec_fatal(
    r: Result<Vec<SSHMsg>, SSHError>,
    e: SSHError,
    a: ServerSession,
    b: ServerSession,
) -> bool {
    &&& r == Err::<Vec<SSHMsg>, SSHError>(e)
    &&& b.phase == Phase::Closed
    &&& spec_keeps_crypto(a, b)
    &&& spec_keeps_kex(a, b)
    &&& b.authenticated == a.authenticated
    &&& b.channel == a.channel
}

/// The step ignored the message: no replies, nothing changed.
pub open spec fn spec_benign(
    r: Result<Vec<SSHMsg>, SSHError>,
    a: ServerSession,
    b: ServerSession,
) -> bool {
    &&& spec_replies0(r)
    &&& spec_keeps_crypto(a, b)
    &&& spec_keeps_kex(a, b)
    &&& spec_keeps_conn(a, b)
}

/// The step replied without touching any state.
pub open spec fn spec_steady_reply(
    r: Result<Vec<SSHMsg>, SSHError>,
    m: SSHMsgV,
    a: ServerSession,
    b: ServerSession,
) -> bool {
    &&& spec_reply1(r, m)
    &&& spec_keeps_crypto(a, b)
    &&& spec_keeps_kex(a, b)
    &&& spec_keeps_conn(a, b)
}

/// The authentication-failure reply: only the password method may continue.
pub open spec fn spec_auth_failure() -> SSHMsgV {
    SSHMsgV::UserauthFailure(
        crate::msg::MsgUserauthFailureV {
            authentications_that_can_continue: seq!["password"@],
            partial_success: false,
        },
    )
}

impl ServerSession {
    /// One step of the key-exchange phase: on the peer's offer, negotiate,
    /// retain both offers' exact bytes, and reply with our own offer.
    fn step_kexinit(&mut self, k: MsgKexInit, body: &Vec<u8>) -> (r: Result<
        Vec<SSHMsg>,
        SSHError,
    >)
        requires
            spec_session_wf(*old(self)),
            body@.len() <= MAX_PACKET_LEN,
        ensures
            spec_session_wf(*final(self)),
            spec_keeps_identity(*old(self), *final(self)),
            spec_keeps_inbuf(*old(self), *final(self)),
            final(self).send_active == old(self).send_active,
            final(self).send.key@ == old(self).send.key@,
            final(self).send.bytes_processed == old(self).send.bytes_processed,
            final(self).recv_active == old(self).recv_active,
            final(self).recv.key@ == old(self).recv.key@,
            final(self).recv.bytes_processed == old(self).recv.bytes_processed,
            ({
                let a = *old(self);
                let b = *final(self);
                let offer = spec_server_offer(a.cookie@);
                if a.phase != Phase::AwaitingKexInit {
                    spec_fatal(r, SSHError::Protocol, a, b)
                } else if !spec_kex_init_ok(offer) {
                    spec_fatal(r, SSHError::Protocol, a, b)
                } else {
                    match spec_negotiate(k@, offer) {
                        None => spec_fatal(r, SSHError::NegotiationFailure, a, b),
                        Some(suite) => {
                            if spec_msg_wire(SSHMsgV::KexInit(offer)).len() > MAX_PACKET_LEN {
                                spec_fatal(r, SSHError::Protocol, a, b)
                            } else {
                                &&& spec_reply1(r, SSHMsgV::KexInit(offer))
                                &&& b.phase == Phase::KeyExchangeInFlight
                                &&& b.client_kexinit@ == body@
                                &&& b.server_kexinit@ == spec_msg_wire(SSHMsgV::KexInit(offer))
                                &&& b.negotiated matches Some(su) && su@ == suite
                                &&& b.client_version@ == a.client_version@
                                &&& b.session_secret@ == a.session_secret@
                                &&& b.authenticated == a.authenticated
                                &&& b.channel == a.channel
                            }
                        },
                    }
                }
            }),
    {
        if !matches!(self.phase, Phase::AwaitingKexInit) {
            self.phase = Phase::Closed;
            return Err(SSHError::Protocol);
        }
        let offer = match make_server_offer(&self.cookie) {
            Ok(o) => o,
            Err(_) => {
                self.phase = Phase::Closed;
                return Err(SSHError::Protocol);
            },
        };
        let suite = match negotiate(&k, &offer) {
            Ok(s) => s,
            Err(e) => {
                self.phase = Phase::Closed;
                return Err(e);
            },
        };
        let omsg = SSHMsg::KexInit(offer);
        let mut enc: Vec<u8> = Vec::new();
        omsg.write_ssh(&mut enc);
        if enc.len() > MAX_PACKET_LEN as usize {
            self.phase = Phase::Closed;
            return Err(SSHError::Protocol);
        }
        self.client_kexinit = body.clone();
        self.server_kexinit = enc;
        self.negotiated = Some(suite);
        self.phase = Phase::KeyExchangeInFlight;
        let mut replies: Vec<SSHMsg> = Vec::new();
        replies.push(omsg);
        Ok(replies)
    }

    /// One step of the key exchange itself: derive the shared secret, build
    /// the exchange hash over the retained transcript, sign it, and reply.
    fn step_kex_ecdh(&mut self, q: MsgKexECDHInit) -> (r: Result<Vec<SSHMsg>, SSHError>)
        requires
            spec_session_wf(*old(self)),
        ensures
            spec_session_wf(*final(self)),
            spec_keeps_identity(*old(self), *final(self)),
            spec_keeps_inbuf(*old(self), *final(self)),
            final(self).send_active == old(self).send_active,
            final(self).send.key@ == old(self).send.key@,
            final(self).send.bytes_processed == old(self).send.bytes_processed,
            final(self).recv_active == old(self).recv_active,
            final(self).recv.key@ == old(self).recv.key@,
            final(self).recv.bytes_processed == old(self).recv.bytes_processed,
            ({
                let a = *old(self);
                let b = *final(self);
                if a.phase != Phase::KeyExchangeInFlight {
                    spec_fatal(r, SSHError::Protocol, a, b)
                } else {
                    ||| spec_fatal(r, SSHError::Malformed, a, b)
                    ||| ({
                        let shared = ecdh_shared_of(a.eph_secret@, q.q_c@);
                        let ks = spec_host_key_blob(a.host_public@);
                        let input = spec_exchange_input(
                            a.client_version@,
                            a.server_version@,
                            a.client_kexinit@,
                            a.server_kexinit@,
                            ks,
                            q.q_c@,
                            a.eph_public@,
                            shared,
                        );
                        let hash = sha256_of(input);
                        &&& spec_reply1(
                            r,
                            SSHMsgV::KexECDHReply(
                                MsgKexECDHReplyV {
                                    k_s: ks,
                                    q_s: a.eph_public@,
                                    signature: spec_sig_blob(
                                        ed25519_sign_of(a.host_secret@, hash),
                                    ),
                                },
                            ),
                        )
                        &&& b.phase == Phase::AwaitingNewKeys
                        &&& b.session_secret@ == hash
                        &&& b.client_version@ == a.client_version@
                        &&& b.client_kexinit@ == a.client_kexinit@
                        &&& b.server_kexinit@ == a.server_kexinit@
                        &&& b.negotiated == a.negotiated
                        &&& b.authenticated == a.authenticated
                        &&& b.channel == a.channel
                    })
                }
            }),
    {
        if !matches!(self.phase, Phase::KeyExchangeInFlight) {
            self.phase = Phase::Closed;
            return Err(SSHError::Protocol);
        }
        if q.q_c.len() > MAX_PACKET_LEN as usize {
            self.phase = Phase::Closed;
            return Err(SSHError::Malformed);
        }
        let shared = match ecdh_shared(&self.eph_secret, &q.q_c) {
            Some(v) => v,
            None => {
                self.phase = Phase::Closed;
                return Err(SSHError::Malformed);
            },
        };
        let (reply, hash) = kex_reply(
            &self.host_secret,
            &self.host_public,
            &self.client_version,
            &self.server_version,
            &self.client_kexinit,
            &self.server_kexinit,
            &q.q_c,
            &self.eph_public,
            &shared,
        );
        self.session_secret = hash;
        self.phase = Phase::AwaitingNewKeys;
        let mut replies: Vec<SSHMsg> = Vec::new();
        replies.push(SSHMsg::KexECDHReply(reply));
        Ok(replies)
    }

    /// One step of the service-negotiation and connection phases.
    fn step_service_request(&mut self, sr: crate::msg::MsgServiceRequest) -> (r: Result<
        Vec<SSHMsg>,
        SSHError,
    >)
        requires
            spec_session_wf(*old(self)),
        ensures
            spec_session_wf(*final(self)),
            spec_keeps_identity(*old(self), *final(self)),
            spec_keeps_inbuf(*old(self), *final(self)),
            final(self).send_active == old(self).send_active,
            final(self).send.key@ == old(self).send.key@,
            final(self).send.bytes_processed == old(self).send.bytes_processed,
            ({
                let a = *old(self);
                let b = *final(self);
                if a.phase == Phase::ServiceNegotiation {
                    if sr.service_name@ == "ssh-userauth"@ {
                        &&& spec_reply1(
                            r,
                            SSHMsgV::ServiceAccept(
                                crate::msg::MsgServiceAcceptV { service_name: "ssh-userauth"@ },
                            ),
                        )
                        &&& b.phase == Phase::Authenticating
                        &&& spec_keeps_crypto(a, b)
                        &&& spec_keeps_kex(a, b)
                        &&& b.authenticated == a.authenticated
                        &&& b.channel == a.channel
                    } else {
                        spec_benign(r, a, b)
                    }
                } else if a.phase == Phase::Authenticated {
                    if sr.service_name@ == "ssh-connection"@ {
                        spec_steady_reply(
                            r,
                            SSHMsgV::ServiceAccept(
                                crate::msg::MsgServiceAcceptV { service_name: "ssh-connection"@ },
                            ),
                            a,
                            b,
                        )
                    } else {
                        spec_benign(r, a, b)
                    }
                } else {
                    spec_fatal(r, SSHError::Protocol, a, b)
                }
            }),
    {
        if matches!(self.phase, Phase::ServiceNegotiation) {
            if sr.service_name == String::from_str("ssh-userauth") {
                self.phase = Phase::Authenticating;
                let mut replies: Vec<SSHMsg> = Vec::new();
                replies.push(
                    SSHMsg::ServiceAccept(
                        crate::msg::MsgServiceAccept {
                            service_name: String::from_str("ssh-userauth"),
                        },
                    ),
                );
                Ok(replies)
            } else {
                Ok(Vec::new())
            }
        } else if matches!(self.phase, Phase::Authenticated) {
            if sr.service_name == String::from_str("ssh-connection") {
                let mut replies: Vec<SSHMsg> = Vec::new();
                replies.push(
                    SSHMsg::ServiceAccept(
                        crate::msg::MsgServiceAccept {
                            service_name: String::from_str("ssh-connection"),
                        },
                    ),
                );
                Ok(replies)
            } else {
                Ok(Vec::new())
            }
        } else {
            self.phase = Phase::Closed;
            Err(SSHError::Protocol)
        }
    }

    /// One step of the authentication phase: the none method always fails
    /// (offering password), the password method reads its two method-specific
    /// fields from the rest of the body and checks the credentials, anything
    /// else is fatal.  Success latches `authenticated` for good.
    fn step_userauth(
        &mut self,
        ar: crate::msg::MsgUserauthRequest,
        body: &Vec<u8>,
        n: usize,
    ) -> (r: Result<Vec<SSHMsg>, SSHError>)
        requires
            spec_session_wf(*old(self)),
            n <= body@.len(),
        ensures
            spec_session_wf(*final(self)),
            spec_keeps_identity(*old(self), *final(self)),
            spec_keeps_inbuf(*old(self), *final(self)),
            final(self).send_active == old(self).send_active,
            final(self).send.key@ == old(self).send.key@,
            final(self).send.bytes_processed == old(self).send.bytes_processed,
            old(self).authenticated ==> final(self).authenticated,
            ({
                let a = *old(self);
                let b = *final(self);
                if a.phase != Phase::Authenticating {
                    spec_fatal(r, SSHError::Protocol, a, b)
                } else if ar.method_name@ == "none"@ {
                    spec_steady_reply(r, spec_auth_failure(), a, b)
                } else if ar.method_name@ == "password"@ {
                    match spec_read_bool(body@, n as int) {
                        Err(e) => spec_fatal(r, e, a, b),
                        Ok((_change, p)) => match spec_read_string(body@, p) {
                            Err(e) => spec_fatal(r, e, a, b),
                            Ok((pw, _end)) => {
                                if ar.user_name@ == a.expected_user@ && pw
                                    == a.expected_password@ {
                                    &&& spec_reply1(
                                        r,
                                        SSHMsgV::UserauthSuccess(
                                            crate::msg::MsgUserauthSuccessV {  },
                                        ),
                                    )
                                    &&& b.phase == Phase::Authenticated
                                    &&& b.authenticated
                                    &&& spec_keeps_crypto(a, b)
                                    &&& spec_keeps_kex(a, b)
                                    &&& b.channel == a.channel
                                } else {
                                    spec_steady_reply(r, spec_auth_failure(), a, b)
                                }
                            },
                        },
                    }
                } else {
                    spec_fatal(r, SSHError::Protocol, a, b)
                }
            }),
    {
        if !matches!(self.phase, Phase::Authenticating) {
            self.phase = Phase::Closed;
            return Err(SSHError::Protocol);
        }
        if ar.method_name == String::from_str("none") {
            let mut replies: Vec<SSHMsg> = Vec::new();
            replies.push(auth_failure_msg());
            Ok(replies)
        } else if ar.method_name == String::from_str("password") {
            let (_change, p) = match read_bool(body, n) {
                Ok(v) => v,
                Err(e) => {
                    self.phase = Phase::Closed;
                    return Err(e);
                },
            };
            let (pw, _end) = match read_string(body, p) {
                Ok(v) => v,
                Err(e) => {
                    self.phase = Phase::Closed;
                    return Err(e);
                },
            };
            if ar.user_name == self.expected_user && pw == self.expected_password {
                self.authenticated = true;
                self.phase = Phase::Authenticated;
                let mut replies: Vec<SSHMsg> = Vec::new();
                replies.push(SSHMsg::UserauthSuccess(crate::msg::MsgUserauthSuccess {  }));
                Ok(replies)
            } else {
                let mut replies: Vec<SSHMsg> = Vec::new();
                replies.push(auth_failure_msg());
                Ok(replies)
            }
        } else {
            self.phase = Phase::Closed;
            Err(SSHError::Protocol)
        }
    }

    /// One step of the channel lifecycle: a session-type open yields exactly
    /// one confirmation with the engine-assigned channel id.
    fn step_channel_open(&mut self, co: crate::msg::MsgChannelOpen) -> (r: Result<
        Vec<SSHMsg>,
        SSHError,
    >)
        requires
            spec_session_wf(*old(self)),
        ensures
            spec_session_wf(*final(self)),
            spec_keeps_identity(*old(self), *final(self)),
            spec_keeps_inbuf(*old(self), *final(self)),
            final(self).send_active == old(self).send_active,
            final(self).send.key@ == old(self).send.key@,
            final(self).send.bytes_processed == old(self).send.bytes_processed,
            ({
                let a = *old(self);
                let b = *final(self);
                if a.phase != Phase::Authenticated {
                    spec_fatal(r, SSHError::Protocol, a, b)
                } else if co.channel_type@ == "session"@ {
                    &&& spec_reply1(
                        r,
                        SSHMsgV::ChannelOpenConfirmation(
                            crate::msg::MsgChannelOpenConfirmationV {
                                recipient_channel: co.sender_channel,
                                sender_channel: 0,
                                initial_window_size: 2097152,
                                maximum_packet_size: 32768,
                            },
                        ),
                    )
                    &&& b.phase == Phase::ChannelOpen
                    &&& b.channel == Some(co.sender_channel)
                    &&& spec_keeps_crypto(a, b)
                    &&& spec_keeps_kex(a, b)
                    &&& b.authenticated == a.authenticated
                } else {
                    spec_benign(r, a, b)
                }
            }),
    {
        if !matches!(self.phase, Phase::Authenticated) {
            self.phase = Phase::Closed;
            return Err(SSHError::Protocol);
        }
        if co.channel_type == String::from_str("session") {
            self.channel = Some(co.sender_channel);
            self.phase = Phase::ChannelOpen;
            let mut replies: Vec<SSHMsg> = Vec::new();
            replies.push(
                SSHMsg::ChannelOpenConfirmation(
                    crate::msg::MsgChannelOpenConfirmation {
                        recipient_channel: co.sender_channel,
                        sender_channel: 0,
                        initial_window_size: 2097152,
                        maximum_packet_size: 32768,
                    },
                ),
            );
            Ok(replies)
        } else {
            Ok(Vec::new())
        }
    }

    /// One step of the channel lifecycle: an execute request on the open
    /// channel acknowledges (if asked), sends the data, end-of-file, and a
    /// close, in that fixed order.
    fn step_channel_request(&mut self, cr: crate::msg::MsgChannelRequest) -> (r: Result<
        Vec<SSHMsg>,
        SSHError,
    >)
        requires
            spec_session_wf(*old(self)),
        ensures
            spec_session_wf(*final(self)),
            spec_keeps_identity(*old(self), *final(self)),
            spec_keeps_inbuf(*old(self), *final(self)),
            final(self).send_active == old(self).send_active,
            final(self).send.key@ == old(self).send.key@,
            final(self).send.bytes_processed == old(self).send.bytes_processed,
            ({
                let a = *old(self);
                let b = *final(self);
                if a.phase != Phase::ChannelOpen {
                    spec_fatal(r, SSHError::Protocol, a, b)
                } else if cr.recipient_channel == 0 && cr.request_type@ == "exec"@ {
                    &&& r matches Ok(v)
                    &&& spec_keeps_crypto(a, b)
                    &&& spec_keeps_kex(a, b)
                    &&& spec_keeps_conn(a, b)
                    &&& ({
                        let base: int = if cr.want_reply {
                            1
                        } else {
                            0
                        };
                        let v = r.unwrap();
                        &&& v@.len() == base + 3
                        &&& (cr.want_reply ==> v@[0]@ == SSHMsgV::ChannelSuccess(
                            crate::msg::MsgChannelSuccessV {
                                recipient_channel: cr.recipient_channel,
                            },
                        ))
                        &&& v@[base]@ == SSHMsgV::ChannelData(
                            crate::msg::MsgChannelDataV {
                                recipient_channel: cr.recipient_channel,
                                data: spec_greeting(),
                            },
                        )
                        &&& v@[base + 1]@ == SSHMsgV::ChannelEof(
                            crate::msg::MsgChannelEofV {
                                recipient_channel: cr.recipient_channel,
                            },
                        )
                        &&& v@[base + 2]@ == SSHMsgV::ChannelClose(
                            crate::msg::MsgChannelCloseV {
                                recipient_channel: cr.recipient_channel,
                            },
                        )
                    })
                } else {
                    spec_benign(r, a, b)
                }
            }),
    {
        if !matches!(self.phase, Phase::ChannelOpen) {
            self.phase = Phase::Closed;
            return Err(SSHError::Protocol);
        }
        if cr.recipient_channel == 0 && cr.request_type == String::from_str("exec") {
            let gs = String::from_str("Hello from RustySSH server!\n");
            let data = vstd::slice::slice_to_vec(gs.as_str().as_bytes());
            let mut replies: Vec<SSHMsg> = Vec::new();
            if cr.want_reply {
                replies.push(
                    SSHMsg::ChannelSuccess(
                        crate::msg::MsgChannelSuccess {
                            recipient_channel: cr.recipient_channel,
                        },
                    ),
                );
            }
            replies.push(
                SSHMsg::ChannelData(
                    crate::msg::MsgChannelData { recipient_channel: cr.recipient_channel, data },
                ),
            );
            replies.push(
                SSHMsg::ChannelEof(
                    crate::msg::MsgChannelEof { recipient_channel: cr.recipient_channel },
                ),
            );
            replies.push(
                SSHMsg::ChannelClose(
                    crate::msg::MsgChannelClose { recipient_channel: cr.recipient_channel },
                ),
            );
            Ok(replies)
        } else {
            Ok(Vec::new())
        }
    }

    /// One step of the channel lifecycle: the peer's close of the open
    /// channel is echoed back, and the connection may then terminate.
    fn step_channel_close(&mut self, cc: crate::msg::MsgChannelClose) -> (r: Result<
        Vec<SSHMsg>,
        SSHError,
    >)
        requires
            spec_session_wf(*old(self)),
        ensures
            spec_session_wf(*final(self)),
            spec_keeps_identity(*old(self), *final(self)),
            spec_keeps_inbuf(*old(self), *final(self)),
            final(self).send_active == old(self).send_active,
            final(self).send.key@ == old(self).send.key@,
            final(self).send.bytes_processed == old(self).send.bytes_processed,
            ({
                let a = *old(self);
                let b = *final(self);
                if a.phase != Phase::ChannelOpen {
                    spec_fatal(r, SSHError::Protocol, a, b)
                } else if cc.recipient_channel == 0 {
                    &&& spec_reply1(
                        r,
                        SSHMsgV::ChannelClose(
                            crate::msg::MsgChannelCloseV {
                                recipient_channel: cc.recipient_channel,
                            },
                        ),
                    )
                    &&& b.phase == Phase::Closed
                    &&& spec_keeps_crypto(a, b)
                    &&& spec_keeps_kex(a, b)
                    &&& b.authenticated == a.authenticated
                    &&& b.channel == a.channel
                } else {
                    spec_benign(r, a, b)
                }
            }),
    {
        if !matches!(self.phase, Phase::ChannelOpen) {
            self.phase = Phase::Closed;
            return Err(SSHError::Protocol);
        }
        if cc.recipient_channel == 0 {
            self.phase = Phase::Closed;
            let mut replies: Vec<SSHMsg> = Vec::new();
            replies.push(
                SSHMsg::ChannelClose(
                    crate::msg::MsgChannelClose { recipient_channel: cc.recipient_channel },
                ),
            );
            Ok(replies)
        } else {
            Ok(Vec::new())
        }
    }

    /// Consume one decoded frame body: decode exactly one message and drive
    /// the state machine, returning the replies to send (in order).  Illegal
    /// messages for the current phase terminate the connection with
    /// `Protocol`; benign filler is ignored; decode failures are fatal with
    /// their own kind.  Receiving the key-exchange-complete marker in the one
    /// phase where it is legal activates the receive-direction crypto context
    /// at exactly that frame boundary; anywhere else it is rejected.
    /// Authentication, once granted, is never revoked.
    #[verifier::rlimit(100)]
    #[verifier::spinoff_prover]
    pub fn handle_body(&mut self, body: &Vec<u8>) -> (r: Result<Vec<SSHMsg>, SSHError>)
        requires
            spec_session_wf(*old(self)),
            body@.len() <= MAX_PACKET_LEN,
        ensures
            spec_session_wf(*final(self)),
            spec_keeps_identity(*old(self), *final(self)),
            spec_keeps_inbuf(*old(self), *final(self)),
            final(self).send_active == old(self).send_active,
            final(self).send.key@ == old(self).send.key@,
            final(self).send.bytes_processed == old(self).send.bytes_processed,
            old(self).authenticated ==> final(self).authenticated,
            r is Err ==> final(self).phase == Phase::Closed,
            ({
                let a = *old(self);
                let b = *final(self);
                match spec_read_message(body@, 0) {
                    Err(e) => spec_fatal(r, e, a, b),
                    Ok((m, n)) => match m {
                        SSHMsgV::Ignore(_) => spec_benign(r, a, b),
                        SSHMsgV::Debug(_) => spec_benign(r, a, b),
                        SSHMsgV::Unimplemented(_) => spec_benign(r, a, b),
                        SSHMsgV::Disconnect(_) => {
                            &&& spec_replies0(r)
                            &&& b.phase == Phase::Closed
                            &&& spec_keeps_crypto(a, b)
                            &&& spec_keeps_kex(a, b)
                            &&& b.authenticated == a.authenticated
                            &&& b.channel == a.channel
                        },
                        SSHMsgV::KexInit(k) => {
                            let offer = spec_server_offer(a.cookie@);
                            if a.phase != Phase::AwaitingKexInit {
                                spec_fatal(r, SSHError::Protocol, a, b)
                            } else if !spec_kex_init_ok(offer) {
                                spec_fatal(r, SSHError::Protocol, a, b)
                            } else {
                                match spec_negotiate(k, offer) {
                                    None => spec_fatal(r, SSHError::NegotiationFailure, a, b),
                                    Some(suite) => {
                                        if spec_msg_wire(SSHMsgV::KexInit(offer)).len()
                                            > MAX_PACKET_LEN {
                                            spec_fatal(r, SSHError::Protocol, a, b)
                                        } else {
                                            &&& spec_reply1(r, SSHMsgV::KexInit(offer))
                                            &&& b.phase == Phase::KeyExchangeInFlight
                                            &&& b.client_kexinit@ == body@
                                            &&& b.server_kexinit@ == spec_msg_wire(
                                                SSHMsgV::KexInit(offer),
                                            )
                                            &&& b.negotiated matches Some(su) && su@ == suite
                                            &&& spec_keeps_crypto(a, b)
                                            &&& b.client_version@ == a.client_version@
                                            &&& b.session_secret@ == a.session_secret@
                                            &&& b.authenticated == a.authenticated
                                            &&& b.channel == a.channel
                                        }
                                    },
                                }
                            }
                        },
                        SSHMsgV::KexECDHInit(q) => {
                            if a.phase != Phase::KeyExchangeInFlight {
                                spec_fatal(r, SSHError::Protocol, a, b)
                            } else {
                                ||| spec_fatal(r, SSHError::Malformed, a, b)
                                ||| ({
                                    let shared = ecdh_shared_of(a.eph_secret@, q.q_c);
                                    let ks = spec_host_key_blob(a.host_public@);
                                    let input = spec_exchange_input(
                                        a.client_version@,
                                        a.server_version@,
                                        a.client_kexinit@,
                                        a.server_kexinit@,
                                        ks,
                                        q.q_c,
                                        a.eph_public@,
                                        shared,
                                    );
                                    let hash = sha256_of(input);
                                    &&& spec_reply1(
                                        r,
                                        SSHMsgV::KexECDHReply(
                                            MsgKexECDHReplyV {
                                                k_s: ks,
                                                q_s: a.eph_public@,
                                                signature: spec_sig_blob(
                                                    ed25519_sign_of(a.host_secret@, hash),
                                                ),
                                            },
                                        ),
                                    )
                                    &&& b.phase == Phase::AwaitingNewKeys
                                    &&& b.session_secret@ == hash
                                    &&& spec_keeps_crypto(a, b)
                                    &&& b.client_version@ == a.client_version@
                                    &&& b.client_kexinit@ == a.client_kexinit@
                                    &&& b.server_kexinit@ == a.server_kexinit@
                                    &&& b.negotiated == a.negotiated
                                    &&& b.authenticated == a.authenticated
                                    &&& b.channel == a.channel
                                })
                            }
                        },
                        SSHMsgV::NewKeys(_) => {
                            if a.phase != Phase::AwaitingNewKeys {
                                spec_fatal(r, SSHError::Protocol, a, b)
                            } else {
                                &&& spec_reply1(r, SSHMsgV::NewKeys(crate::msg::MsgNewKeysV {  }))
                                &&& b.phase == Phase::ServiceNegotiation
                                &&& b.recv_active
                                &&& b.recv.key@ == a.session_secret@
                                &&& b.recv.bytes_processed == 0
                                &&& spec_keeps_kex(a, b)
                                &&& b.send_active == a.send_active
                                &&& b.send.key@ == a.send.key@
                                &&& b.send.bytes_processed == a.send.bytes_processed
                                &&& b.authenticated == a.authenticated
                                &&& b.channel == a.channel
                            }
                        },
                        SSHMsgV::ServiceRequest(sr) => {
                            if a.phase == Phase::ServiceNegotiation {
                                if sr.service_name == "ssh-userauth"@ {
                                    &&& spec_reply1(
                                        r,
                                        SSHMsgV::ServiceAccept(
                                            crate::msg::MsgServiceAcceptV {
                                                service_name: "ssh-userauth"@,
                                            },
                                        ),
                                    )
                                    &&& b.phase == Phase::Authenticating
                                    &&& spec_keeps_crypto(a, b)
                                    &&& spec_keeps_kex(a, b)
                                    &&& b.authenticated == a.authenticated
                                    &&& b.channel == a.channel
                                } else {
                                    spec_benign(r, a, b)
                                }
                            } else if a.phase == Phase::Authenticated {
                                if sr.service_name == "ssh-connection"@ {
                                    spec_steady_reply(
                                        r,
                                        SSHMsgV::ServiceAccept(
                                            crate::msg::MsgServiceAcceptV {
                                                service_name: "ssh-connection"@,
                                            },
                                        ),
                                        a,
                                        b,
                                    )
                                } else {
                                    spec_benign(r, a, b)
                                }
                            } else {
                                spec_fatal(r, SSHError::Protocol, a, b)
                            }
                        },
                        SSHMsgV::UserauthRequest(ar) => {
                            if a.phase != Phase::Authenticating {
                                spec_fatal(r, SSHError::Protocol, a, b)
                            } else if ar.method_name == "none"@ {
                                spec_steady_reply(r, spec_auth_failure(), a, b)
                            } else if ar.method_name == "password"@ {
                                match spec_read_bool(body@, n) {
                                    Err(e) => spec_fatal(r, e, a, b),
                                    Ok((_change, p)) => match spec_read_string(body@, p) {
                                        Err(e) => spec_fatal(r, e, a, b),
                                        Ok((pw, _end)) => {
                                            if ar.user_name == a.expected_user@ && pw
                                                == a.expected_password@ {
                                                &&& spec_reply1(
                                                    r,
                                                    SSHMsgV::UserauthSuccess(
                                                        crate::msg::MsgUserauthSuccessV {  },
                                                    ),
                                                )
                                                &&& b.phase == Phase::Authenticated
                                                &&& b.authenticated
                                                &&& spec_keeps_crypto(a, b)
                                                &&& spec_keeps_kex(a, b)
                                                &&& b.channel == a.channel
                                            } else {
                                                spec_steady_reply(r, spec_auth_failure(), a, b)
                                            }
                                        },
                                    },
                                }
                            } else {
                                spec_fatal(r, SSHError::Protocol, a, b)
                            }
                        },
                        SSHMsgV::ChannelOpen(co) => {
                            if a.phase != Phase::Authenticated {
                                spec_fatal(r, SSHError::Protocol, a, b)
                            } else if co.channel_type == "session"@ {
                                &&& spec_reply1(
                                    r,
                                    SSHMsgV::ChannelOpenConfirmation(
                                        crate::msg::MsgChannelOpenConfirmationV {
                                            recipient_channel: co.sender_channel,
                                            sender_channel: 0,
                                            initial_window_size: 2097152,
                                            maximum_packet_size: 32768,
                                        },
                                    ),
                                )
                                &&& b.phase == Phase::ChannelOpen
                                &&& b.channel == Some(co.sender_channel)
                                &&& spec_keeps_crypto(a, b)
                                &&& spec_keeps_kex(a, b)
                                &&& b.authenticated == a.authenticated
                            } else {
                                spec_benign(r, a, b)
                            }
                        },
                        SSHMsgV::ChannelRequest(cr) => {
                            if a.phase != Phase::ChannelOpen {
                                spec_fatal(r, SSHError::Protocol, a, b)
                            } else if cr.recipient_channel == 0 && cr.request_type == "exec"@ {
                                &&& r matches Ok(v)
                                &&& spec_keeps_crypto(a, b)
                                &&& spec_keeps_kex(a, b)
                                &&& spec_keeps_conn(a, b)
                                &&& ({
                                    let base: int = if cr.want_reply {
                                        1
                                    } else {
                                        0
                                    };
                                    let v = r.unwrap();
                                    &&& v@.len() == base + 3
                                    &&& (cr.want_reply ==> v@[0]@ == SSHMsgV::ChannelSuccess(
                                        crate::msg::MsgChannelSuccessV {
                                            recipient_channel: cr.recipient_channel,
                                        },
                                    ))
                                    &&& v@[base]@ == SSHMsgV::ChannelData(
                                        crate::msg::MsgChannelDataV {
                                            recipient_channel: cr.recipient_channel,
                                            data: spec_greeting(),
                                        },
                                    )
                                    &&& v@[base + 1]@ == SSHMsgV::ChannelEof(
                                        crate::msg::MsgChannelEofV {
                                            recipient_channel: cr.recipient_channel,
                                        },
                                    )
                                    &&& v@[base + 2]@ == SSHMsgV::ChannelClose(
                                        crate::msg::MsgChannelCloseV {
                                            recipient_channel: cr.recipient_channel,
                                        },
                                    )
                                })
                            } else {
                                spec_benign(r, a, b)
                            }
                        },
                        SSHMsgV::ChannelClose(cc) => {
                            if a.phase != Phase::ChannelOpen {
                                spec_fatal(r, SSHError::Protocol, a, b)
                            } else if cc.recipient_channel == 0 {
                                &&& spec_reply1(
                                    r,
                                    SSHMsgV::ChannelClose(
                                        crate::msg::MsgChannelCloseV {
                                            recipient_channel: cc.recipient_channel,
                                        },
                                    ),
                                )
                                &&& b.phase == Phase::Closed
                                &&& spec_keeps_crypto(a, b)
                                &&& spec_keeps_kex(a, b)
                                &&& b.authenticated == a.authenticated
                                &&& b.channel == a.channel
                            } else {
                                spec_benign(r, a, b)
                            }
                        },
                        _ => spec_fatal(r, SSHError::Protocol, a, b),
                    },
                }
            }),
    {
        let (msg, n) = match read_next_message(body, 0) {
            Ok(v) => v,
            Err(e) => {
                self.phase = Phase::Closed;
                return Err(e);
            },
        };
        match msg {
            SSHMsg::Ignore(_) => Ok(Vec::new()),
            SSHMsg::Debug(_) => Ok(Vec::new()),
            SSHMsg::Unimplemented(_) => Ok(Vec::new()),
            SSHMsg::Disconnect(_) => {
                self.phase = Phase::Closed;
                Ok(Vec::new())
            },
            SSHMsg::KexInit(k) => self.step_kexinit(k, body),
            SSHMsg::KexECDHInit(q) => self.step_kex_ecdh(q),
            SSHMsg::NewKeys(_) => {
                if !matches!(self.phase, Phase::AwaitingNewKeys) {
                    self.phase = Phase::Closed;
                    return Err(SSHError::Protocol);
                }
                self.recv_active = true;
                self.recv = CryptoState::activate(self.session_secret.clone());
                self.phase = Phase::ServiceNegotiation;
                let mut replies: Vec<SSHMsg> = Vec::new();
                replies.push(SSHMsg::NewKeys(crate::msg::MsgNewKeys {  }));
                Ok(replies)
            },
            SSHMsg::ServiceRequest(sr) => self.step_service_request(sr),
            SSHMsg::UserauthRequest(ar) => self.step_userauth(ar, body, n),
            SSHMsg::ChannelOpen(co) => self.step_channel_open(co),
            SSHMsg::ChannelRequest(cr) => self.step_channel_request(cr),
            SSHMsg::ChannelClose(cc) => self.step_channel_close(cc),
            _ => {
                self.phase = Phase::Closed;
                Err(SSHError::Protocol)
            },
        }
    }

    /// Encode one message, frame it in the active send regime, and seal it if
    /// the send direction is encrypted.  The send-direction crypto context
    /// activates exactly after this side's own key-exchange-complete marker
    /// has been sealed, never before and never after; each sealed frame
    /// advances the send byte-counter exactly once.
    pub fn seal_message(&mut self, msg: &SSHMsg) -> (r: Result<Vec<u8>, SSHError>)
        requires
            spec_session_wf(*old(self)),
            spec_msg_ok(msg@),
        ensures
            spec_session_wf(*final(self)),
            spec_keeps_identity(*old(self), *final(self)),
            spec_keeps_inbuf(*old(self), *final(self)),
            spec_keeps_kex(*old(self), *final(self)),
            final(self).phase == old(self).phase,
            final(self).authenticated == old(self).authenticated,
            final(self).channel == old(self).channel,
            final(self).recv_active == old(self).recv_active,
            final(self).recv.key@ == old(self).recv.key@,
            final(self).recv.bytes_processed == old(self).recv.bytes_processed,
            ({
                let a = *old(self);
                let b = *final(self);
                let payload = spec_msg_wire(msg@);
                let sent_new_keys = msg@ matches SSHMsgV::NewKeys(_);
                let activation_ok = if sent_new_keys {
                    b.send_active && b.send.key@ == a.session_secret@ && b.send.bytes_processed
                        == 0
                } else {
                    b.send_active == a.send_active && b.send.key@ == a.send.key@
                };
                if payload.len() + 24 > u32::MAX {
                    r == Err::<Vec<u8>, SSHError>(SSHError::Protocol) && spec_keeps_crypto(a, b)
                } else if !a.send_active {
                    &&& r matches Ok(out) && out@ == spec_frame(payload, 8)
                    &&& activation_ok
                    &&& (!sent_new_keys ==> b.send.bytes_processed == a.send.bytes_processed)
                } else {
                    let framed = spec_frame(payload, 16);
                    if a.send.bytes_processed + framed.len() > usize::MAX {
                        r == Err::<Vec<u8>, SSHError>(SSHError::Protocol) && spec_keeps_crypto(
                            a,
                            b,
                        )
                    } else {
                        &&& r matches Ok(out) && out@ == spec_seal(
                            framed,
                            a.send.key@,
                            a.send.bytes_processed as int,
                        )
                        &&& activation_ok
                        &&& (!sent_new_keys ==> b.send.bytes_processed == a.send.bytes_processed
                            + framed.len())
                    }
                }
            }),
    {
        let mut payload: Vec<u8> = Vec::new();
        msg.write_ssh(&mut payload);
        if payload.len() > (0xffff_ffffusize - 24) {
            return Err(SSHError::Protocol);
        }
        let out = if self.send_active {
            let framed = frame_packet(&payload, CIPHER_BLOCK);
            match encrypt_and_mac(&mut self.send, 0, &framed) {
                Ok(c) => c,
                Err(e) => {
                    return Err(e);
                },
            }
        } else {
            frame_packet(&payload, PLAIN_BLOCK)
        };
        if matches!(msg, SSHMsg::NewKeys(_)) {
            self.send_active = true;
            self.send = CryptoState::activate(self.session_secret.clone());
        }
        Ok(out)
    }
}

/// The only authentication-failure reply this engine sends.
fn auth_failure_msg() -> (r: SSHMsg)
    ensures
        r@ == spec_auth_failure(),
{
    let methods = vec![String::from_str("password")];
    proof {
        assert(methods.deep_view() =~= seq!["password"@]);
    }
    SSHMsg::UserauthFailure(
        crate::msg::MsgUserauthFailure {
            authentications_that_can_continue: methods,
            partial_success: false,
        },
    )
}

} // verus!
