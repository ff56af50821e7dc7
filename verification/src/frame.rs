//! Packet framing: the wire envelope around a serialized message body, in the
//! plaintext and encrypted regimes.
//!
//! A frame is a 4-byte big-endian `packet_length`, one byte of padding
//! length, the body, then the padding; `1 + body_len + padding_len` is a
//! multiple of the active block size and the padding length lies in
//! `[4, block + 3]`.  In the encrypted regime the whole frame is passed
//! through a per-direction stream transform and followed by an
//! authentication tag.
//!
//! The stream transform here is a repeating-XOR keystream with a constant
//! (all-zero) tag, standing in for a real cipher and MAC behind the same
//! sequence-counter interface; swapping in real primitives changes none of
//! the framing logic.  Padding filler bytes are zero: deterministic frames
//! keep the contracts exact and the output testable, at the cost of
//! revealing the padding before encryption is active, which a hardened
//! deployment would avoid by filling the padding from a random source.

use vstd::prelude::*;
use vstd::arithmetic::div_mod::{lemma_add_mod_noop, lemma_mod_bound, lemma_mod_self_0, lemma_small_mod};
use crate::err::SSHError;
use crate::wire::{spec_be32, spec_u32_of, read_u32, write_u32, write_u8};

verus! {

/// Block size of the plaintext regime.
pub const PLAIN_BLOCK: usize = 8;

/// Block size of the active cipher in the encrypted regime.
pub const CIPHER_BLOCK: usize = 16;

/// Length of the authentication tag that follows an encrypted frame.
pub const MAC_LEN: usize = 32;

/// Ceiling on a plausible `packet_length`; larger values are rejected before
/// any allocation proportional to the claimed size.
pub const MAX_PACKET_LEN: u32 = 35000;

// ---------------------------------------------------------------------------
// Padding
// ---------------------------------------------------------------------------

/// Padding length for a body of length `l` at block size `bs`:
/// `bs - ((1 + l) % bs)`, plus `bs` more if that falls below 4.
pub open spec fn spec_padding_len(l: int, bs: int) -> int
    recommends
        bs > 0,
{
    let base = bs - ((1 + l) % bs);
    if base < 4 {
        base + bs
    } else {
        base
    }
}

/// The padding length always lies in `[4, bs + 3]` and completes
/// `1 + l + padding` to a multiple of the block size.
pub proof fn lemma_padding_bounds(l: int, bs: int)
    requires
        l >= 0,
        bs == 8 || bs == 16,
    ensures
        4 <= spec_padding_len(l, bs) <= bs + 3,
        (1 + l + spec_padding_len(l, bs)) % bs == 0,
{
    let r = (1 + l) % bs;
    lemma_mod_bound(1 + l, bs);
    let p = spec_padding_len(l, bs);
    assert((1 + l + p) % bs == 0) by {
        lemma_add_mod_noop(1 + l, p, bs);
        if bs - r < 4 {
            assert((r + p) % bs == 0) by {
                lemma_add_mod_noop(r, p, bs);
                lemma_mod_self_0(bs);
                assert((r + p) == 2 * bs);
                assert((2 * bs) % bs == 0) by {
                    lemma_add_mod_noop(bs, bs, bs);
                    lemma_mod_self_0(bs);
                }
            }
        } else {
            assert((r + p) == bs);
            lemma_mod_self_0(bs);
        }
    }
}

/// Compute the padding length for a body of `l` bytes at block size `bs`.
pub fn padding_length(l: usize, bs: usize) -> (r: usize)
    requires
        bs == 8 || bs == 16,
        l + 24 <= u32::MAX,
    ensures
        r == spec_padding_len(l as int, bs as int),
        4 <= r <= bs + 3,
        (1 + l + r) % (bs as int) == 0,
{
    proof {
        lemma_padding_bounds(l as int, bs as int);
        lemma_mod_bound(1 + l as int, bs as int);
    }
    let base = bs - ((1 + l) % bs);
    if base < 4 {
        base + bs
    } else {
        base
    }
}

// ---------------------------------------------------------------------------
// Building frames
// ---------------------------------------------------------------------------

/// `n` zero filler bytes.
pub open spec fn spec_zero_filler(n: int) -> Seq<u8> {
    Seq::new(n as nat, |i: int| 0u8)
}

/// The frame around `payload` at block size `bs`: length word, padding
/// length, body, zero filler.
pub open spec fn spec_frame(payload: Seq<u8>, bs: int) -> Seq<u8> {
    let pad = spec_padding_len(payload.len() as int, bs);
    spec_be32((1 + payload.len() + pad) as u32) + seq![pad as u8] + payload + spec_zero_filler(pad)
}

/// Frame a message body for the wire at block size `bs`.
pub fn frame_packet(payload: &Vec<u8>, bs: usize) -> (r: Vec<u8>)
    requires
        bs == 8 || bs == 16,
        payload@.len() + 24 <= u32::MAX,
    ensures
        r@ == spec_frame(payload@, bs as int),
        r@.len() == 5 + payload@.len() + spec_padding_len(payload@.len() as int, bs as int),
{
    let pad = padding_length(payload.len(), bs);
    let packet_len: u32 = (1 + payload.len() + pad) as u32;
    let mut out: Vec<u8> = Vec::new();
    write_u32(&mut out, packet_len);
    write_u8(&mut out, pad as u8);
    out.extend_from_slice(payload.as_slice());
    let mut k: usize = 0;
    let ghost mid = out@;
    while k < pad
        invariant
            0 <= k <= pad,
            out@ == mid + spec_zero_filler(k as int),
        decreases pad - k,
    {
        out.push(0u8);
        proof {
            assert(out@ =~= mid + spec_zero_filler(k + 1));
        }
        k += 1;
    }
    proof {
        assert(out@ =~= spec_frame(payload@, bs as int));
    }
    out
}

/// Frame a message body in the plaintext regime (block size 8).
pub fn build_packet(payload: &Vec<u8>) -> (r: Vec<u8>)
    requires
        payload@.len() + 24 <= u32::MAX,
    ensures
        r@ == spec_frame(payload@, 8),
{
    frame_packet(payload, PLAIN_BLOCK)
}

// ---------------------------------------------------------------------------
// Extracting the body of a complete frame
// ---------------------------------------------------------------------------

/// The body of a complete frame `p` (length word included): the bytes between
/// the padding-length byte and the padding.  A padding length that would push
/// the body's end before its start is `Malformed`.
pub open spec fn spec_extract_body(p: Seq<u8>) -> Result<Seq<u8>, SSHError> {
    if p.len() < 5 {
        Err(SSHError::Malformed)
    } else {
        let pad = p[4];
        if 5 + pad > p.len() {
            Err(SSHError::Malformed)
        } else {
            Ok(p.subrange(5, p.len() - pad))
        }
    }
}

/// Extract the message body from a complete frame.
pub fn extract_body(p: &Vec<u8>) -> (r: Result<Vec<u8>, SSHError>)
    ensures
        match r {
            Ok(body) => spec_extract_body(p@) == Ok::<Seq<u8>, SSHError>(body@),
            Err(e) => spec_extract_body(p@) == Err::<Seq<u8>, SSHError>(e),
        },
{
    if p.len() < 5 {
        return Err(SSHError::Malformed);
    }
    let pad = p[4] as usize;
    if pad > p.len() - 5 {
        return Err(SSHError::Malformed);
    }
    let body = vstd::slice::slice_to_vec(vstd::slice::slice_subrange(p.as_slice(), 5, p.len() - pad));
    Ok(body)
}

/// The body of a built frame is the payload that went in.
pub proof fn lemma_frame_extract(payload: Seq<u8>, bs: int)
    requires
        bs == 8 || bs == 16,
        payload.len() + 24 <= u32::MAX,
    ensures
        spec_extract_body(spec_frame(payload, bs)) == Ok::<Seq<u8>, SSHError>(payload),
{
    let f = spec_frame(payload, bs);
    let pad = spec_padding_len(payload.len() as int, bs);
    lemma_padding_bounds(payload.len() as int, bs);
    assert(f[4] == pad as u8);
    assert(f.len() == 5 + payload.len() + pad);
    assert(f.subrange(5, f.len() - pad) =~= payload);
}

// ---------------------------------------------------------------------------
// Plaintext-regime frame parsing
// ---------------------------------------------------------------------------

/// Outcome of looking for one complete plaintext frame at the front of `b`:
/// `None` while fewer bytes than a full frame are buffered (wait for more);
/// otherwise the body and the number of bytes the frame occupies.  An
/// implausibly large length word or an inconsistent padding length is fatal.
pub open spec fn spec_parse_plain_frame(b: Seq<u8>) -> Result<Option<(Seq<u8>, int)>, SSHError> {
    if b.len() < 4 {
        Ok(None)
    } else {
        let n = spec_u32_of(b[0], b[1], b[2], b[3]);
        if n > MAX_PACKET_LEN {
            Err(SSHError::Malformed)
        } else if b.len() < 4 + n {
            Ok(None)
        } else {
            match spec_extract_body(b.take(4 + n as int)) {
                Ok(body) => Ok(Some((body, 4 + n as int))),
                Err(e) => Err(e),
            }
        }
    }
}

/// Look for one complete plaintext frame at the front of `buf`.
pub fn parse_plain_frame(buf: &Vec<u8>) -> (r: Result<Option<(Vec<u8>, usize)>, SSHError>)
    ensures
        match r {
            Ok(Some((body, consumed))) => consumed <= buf@.len() && spec_parse_plain_frame(buf@)
                == Ok::<Option<(Seq<u8>, int)>, SSHError>(Some((body@, consumed as int))),
            Ok(None) => spec_parse_plain_frame(buf@) == Ok::<Option<(Seq<u8>, int)>, SSHError>(None),
            Err(e) => spec_parse_plain_frame(buf@) == Err::<Option<(Seq<u8>, int)>, SSHError>(e),
        },
{
    if buf.len() < 4 {
        return Ok(None);
    }
    let (n, _) = match read_u32(buf, 0) {
        Ok(v) => v,
        Err(_) => {
            return Ok(None);
        },
    };
    if n > MAX_PACKET_LEN {
        return Err(SSHError::Malformed);
    }
    if buf.len() - 4 < n as usize {
        return Ok(None);
    }
    let total = 4 + n as usize;
    let packet = vstd::slice::slice_to_vec(vstd::slice::slice_subrange(buf.as_slice(), 0, total));
    proof {
        assert(packet@ =~= buf@.take(4 + n as int));
    }
    match extract_body(&packet) {
        Ok(body) => Ok(Some((body, total))),
        Err(e) => Err(e),
    }
}


// ---------------------------------------------------------------------------
// The per-direction stream transform
// ---------------------------------------------------------------------------

/// Per-direction crypto state: the session key bytes and the number of
/// keystream bytes consumed so far.  One instance exists per direction and
/// each is activated independently.
pub struct CryptoState {
    pub key: Vec<u8>,
    pub bytes_processed: usize,
}

/// `data` combined with the repeating keystream of `key`, starting `off`
/// bytes into the stream.  An empty key leaves the data unchanged.
pub open spec fn spec_keystream_xor(data: Seq<u8>, key: Seq<u8>, off: int) -> Seq<u8> {
    if key.len() == 0 {
        data
    } else {
        Seq::new(data.len(), |i: int| data[i] ^ key[(off + i) % key.len() as int])
    }
}

/// Applying the keystream twice at the same offset restores the data.
pub proof fn lemma_keystream_involutive(data: Seq<u8>, key: Seq<u8>, off: int)
    ensures
        spec_keystream_xor(spec_keystream_xor(data, key, off), key, off) == data,
{
    if key.len() == 0 {
    } else {
        let once = spec_keystream_xor(data, key, off);
        let twice = spec_keystream_xor(once, key, off);
        assert(twice =~= data) by {
            assert forall|i: int| 0 <= i < data.len() implies twice[i] == data[i] by {
                let d = data[i];
                let x = key[(off + i) % key.len() as int];
                assert((d ^ x) ^ x == d) by (bit_vector);
            }
        }
    }
}

/// Combine `data` in place with the repeating keystream of `key`, starting at
/// stream position `start_offset`.
pub fn xor_with_keystream(data: &mut Vec<u8>, key: &Vec<u8>, start_offset: usize)
    ensures
        final(data)@ == spec_keystream_xor(old(data)@, key@, start_offset as int),
{
    if key.len() == 0 {
        return ;
    }
    let n = key.len();
    proof {
        lemma_mod_bound(start_offset as int, n as int);
    }
    let mut k: usize = start_offset % n;
    let mut i: usize = 0;
    while i < data.len()
        invariant
            key@.len() == n,
            n > 0,
            0 <= i <= data@.len(),
            data@.len() == old(data)@.len(),
            k == (start_offset as int + i) % n as int,
            0 <= k < n,
            forall|j: int|
                0 <= j < i ==> data@[j] == spec_keystream_xor(
                    old(data)@,
                    key@,
                    start_offset as int,
                )[j],
            forall|j: int| i <= j < data@.len() ==> data@[j] == old(data)@[j],
        decreases data@.len() - i,
    {
        let c = data[i] ^ key[k];
        data[i] = c;
        proof {
            lemma_add_mod_noop(start_offset as int + i, 1, n as int);
            if n == 1 {
                assert((start_offset as int + i) % 1int == 0);
                assert((start_offset as int + i + 1) % 1int == 0);
            } else {
                lemma_small_mod(1nat, n as nat);
                if k + 1 < n {
                    lemma_small_mod((k + 1) as nat, n as nat);
                } else {
                    lemma_mod_self_0(n as int);
                }
            }
        }
        if k + 1 == n {
            k = 0;
        } else {
            k = k + 1;
        }
        i += 1;
    }
    proof {
        assert(data@ =~= spec_keystream_xor(old(data)@, key@, start_offset as int));
    }
}

/// The constant authentication tag of the stand-in transform.
pub open spec fn spec_mac_tag() -> Seq<u8> {
    Seq::new(32, |i: int| 0u8)
}

/// The sealed wire form of a frame: the frame through the keystream, then the tag.
pub open spec fn spec_seal(packet: Seq<u8>, key: Seq<u8>, off: int) -> Seq<u8> {
    spec_keystream_xor(packet, key, off) + spec_mac_tag()
}

impl CryptoState {
    /// A freshly activated direction: key set, no keystream consumed.
    pub fn activate(key: Vec<u8>) -> (r: CryptoState)
        ensures
            r.key@ == key@,
            r.bytes_processed == 0,
    {
        CryptoState { key, bytes_processed: 0 }
    }
}

/// Seal one frame for sending: pass it through this direction's keystream,
/// advance the byte counter once by the frame's length, and append the tag.
/// Fails only when the byte counter would overflow, leaving the state as it
/// was.
pub fn encrypt_and_mac(crypto: &mut CryptoState, _sequence_num: u32, plaintext_packet: &Vec<u8>)
    -> (r: Result<Vec<u8>, SSHError>)
    ensures
        final(crypto).key@ == old(crypto).key@,
        match r {
            Ok(c) => old(crypto).bytes_processed + plaintext_packet@.len() <= usize::MAX && c@
                == spec_seal(
                plaintext_packet@,
                old(crypto).key@,
                old(crypto).bytes_processed as int,
            ) && final(crypto).bytes_processed == old(crypto).bytes_processed
                + plaintext_packet@.len(),
            Err(e) => e == SSHError::Protocol && old(crypto).bytes_processed
                + plaintext_packet@.len() > usize::MAX && final(crypto).bytes_processed == old(crypto).bytes_processed,
        },
{
    let advanced = match crypto.bytes_processed.checked_add(plaintext_packet.len()) {
        Some(v) => v,
        None => {
            return Err(SSHError::Protocol);
        },
    };
    let mut c = plaintext_packet.clone();
    xor_with_keystream(&mut c, &crypto.key, crypto.bytes_processed);
    crypto.bytes_processed = advanced;
    let mut k: usize = 0;
    let ghost mid = c@;
    while k < MAC_LEN
        invariant
            0 <= k <= 32,
            c@ =~= mid + spec_mac_tag().take(k as int),
        decreases 32 - k,
    {
        c.push(0u8);
        proof {
            assert(c@ =~= mid + spec_mac_tag().take(k + 1));
        }
        k += 1;
    }
    proof {
        assert(spec_mac_tag().take(32) =~= spec_mac_tag());
        assert(c@ =~= spec_seal(plaintext_packet@, old(crypto).key@, old(crypto).bytes_processed as int));
    }
    Ok(c)
}

/// Open one sealed frame: check the tag, undo the keystream, and advance the
/// byte counter once by the frame's length.  A frame too short to carry a tag
/// is `Malformed`; a wrong tag is `VerifyFailure`; both leave the state as it
/// was.
pub fn decrypt_and_verify(crypto: &mut CryptoState, _sequence_num: u32, packet_with_mac: &Vec<u8>)
    -> (r: Result<Vec<u8>, SSHError>)
    ensures
        final(crypto).key@ == old(crypto).key@,
        match r {
            Ok(p) => {
                let data_len = packet_with_mac@.len() - 32;
                &&& packet_with_mac@.len() >= 32
                &&& packet_with_mac@.skip(data_len) == spec_mac_tag()
                &&& old(crypto).bytes_processed + data_len <= usize::MAX
                &&& p@ == spec_keystream_xor(
                    packet_with_mac@.take(data_len),
                    old(crypto).key@,
                    old(crypto).bytes_processed as int,
                )
                &&& final(crypto).bytes_processed == old(crypto).bytes_processed + data_len
            },
            Err(e) => {
                let data_len = packet_with_mac@.len() - 32;
                &&& final(crypto).bytes_processed == old(crypto).bytes_processed
                &&& (if packet_with_mac@.len() < 32 {
                    e == SSHError::Malformed
                } else if packet_with_mac@.skip(data_len) != spec_mac_tag() {
                    e == SSHError::VerifyFailure
                } else {
                    e == SSHError::Protocol && old(crypto).bytes_processed + data_len > usize::MAX
                })
            },
        },
{
    if packet_with_mac.len() < MAC_LEN {
        return Err(SSHError::Malformed);
    }
    let data_len = packet_with_mac.len() - MAC_LEN;
    let ghost tag = packet_with_mac@.skip(data_len as int);
    let mut j: usize = data_len;
    while j < packet_with_mac.len()
        invariant
            data_len + 32 == packet_with_mac@.len(),
            data_len <= j <= packet_with_mac@.len(),
            tag == packet_with_mac@.skip(data_len as int),
            forall|t: int| data_len <= t < j ==> packet_with_mac@[t] == 0,
        decreases packet_with_mac@.len() - j,
    {
        if packet_with_mac[j] != 0 {
            proof {
                assert(tag[j - data_len] != 0);
                assert(spec_mac_tag()[j - data_len] == 0);
                assert(tag != spec_mac_tag());
            }
            return Err(SSHError::VerifyFailure);
        }
        j += 1;
    }
    proof {
        assert(tag =~= spec_mac_tag());
    }
    let advanced = match crypto.bytes_processed.checked_add(data_len) {
        Some(v) => v,
        None => {
            return Err(SSHError::Protocol);
        },
    };
    let mut data = vstd::slice::slice_to_vec(
        vstd::slice::slice_subrange(packet_with_mac.as_slice(), 0, data_len),
    );
    proof {
        assert(data@ =~= packet_with_mac@.take(data_len as int));
    }
    xor_with_keystream(&mut data, &crypto.key, crypto.bytes_processed);
    crypto.bytes_processed = advanced;
    Ok(data)
}

// ---------------------------------------------------------------------------
// Encrypted-regime frame parsing: peek, then commit
// ---------------------------------------------------------------------------

/// The length word of a sealed frame, read by undoing the keystream over the
/// first cipher block only.
pub open spec fn spec_peek_len(b: Seq<u8>, key: Seq<u8>, off: int) -> u32 {
    let x = spec_keystream_xor(b.take(16), key, off);
    spec_u32_of(x[0], x[1], x[2], x[3])
}

/// Decrypt a copy of the first cipher block to learn the next frame's length
/// word.  Takes the state immutably: peeking never advances the keystream.
pub fn peek_packet_len(crypto: &CryptoState, buf: &Vec<u8>) -> (r: u32)
    requires
        buf@.len() >= 16,
    ensures
        r == spec_peek_len(buf@, crypto.key@, crypto.bytes_processed as int),
{
    let mut head = vstd::slice::slice_to_vec(vstd::slice::slice_subrange(buf.as_slice(), 0, 16));
    proof {
        assert(head@ =~= buf@.take(16));
    }
    xor_with_keystream(&mut head, &crypto.key, crypto.bytes_processed);
    let (n, _) = match read_u32(&head, 0) {
        Ok(v) => v,
        Err(_) => {
            proof {
                assert(false);
            }
            (0, 0)
        },
    };
    n
}

/// Outcome of looking for one complete sealed frame at the front of `b`, for
/// a receive direction with key `key` at stream position `off`: `None` while
/// fewer bytes than the first cipher block, or than the whole frame plus tag,
/// are buffered; the decrypted body and the bytes consumed otherwise.
pub open spec fn spec_parse_cipher_frame(b: Seq<u8>, key: Seq<u8>, off: int) -> Result<
    Option<(Seq<u8>, int)>,
    SSHError,
> {
    if b.len() < 16 {
        Ok(None)
    } else {
        let n = spec_peek_len(b, key, off);
        if n > MAX_PACKET_LEN {
            Err(SSHError::Malformed)
        } else if b.len() < 4 + n + 32 {
            Ok(None)
        } else if b.subrange(4 + n as int, 4 + n + 32) != spec_mac_tag() {
            Err(SSHError::VerifyFailure)
        } else if off + 4 + n > usize::MAX {
            Err(SSHError::Protocol)
        } else {
            match spec_extract_body(spec_keystream_xor(b.take(4 + n as int), key, off)) {
                Ok(body) => Ok(Some((body, 4 + n + 32))),
                Err(e) => Err(e),
            }
        }
    }
}

/// Look for one complete sealed frame at the front of `buf`.  The first
/// cipher block is decrypted as a peek to learn the length; only once the
/// whole frame and its tag are buffered and the tag verifies is the real
/// decryption done and the byte counter advanced, exactly once per frame.  On
/// every other outcome the state is left as it was.
pub fn poll_cipher_frame(crypto: &mut CryptoState, buf: &Vec<u8>) -> (r: Result<
    Option<(Vec<u8>, usize)>,
    SSHError,
>)
    ensures
        final(crypto).key@ == old(crypto).key@,
        match r {
            Ok(Some((body, consumed))) => consumed <= buf@.len() && spec_parse_cipher_frame(
                buf@,
                old(crypto).key@,
                old(crypto).bytes_processed as int,
            ) == Ok::<Option<(Seq<u8>, int)>, SSHError>(Some((body@, consumed as int))) && final(crypto).bytes_processed == old(crypto).bytes_processed + consumed - 32,
            Ok(None) => spec_parse_cipher_frame(
                buf@,
                old(crypto).key@,
                old(crypto).bytes_processed as int,
            ) == Ok::<Option<(Seq<u8>, int)>, SSHError>(None) && final(crypto).bytes_processed
                == old(crypto).bytes_processed,
            Err(e) => spec_parse_cipher_frame(
                buf@,
                old(crypto).key@,
                old(crypto).bytes_processed as int,
            ) == Err::<Option<(Seq<u8>, int)>, SSHError>(e) && final(crypto).bytes_processed == old(crypto).bytes_processed,
        },
{
    if buf.len() < 16 {
        return Ok(None);
    }
    let n = peek_packet_len(crypto, buf);
    if n > MAX_PACKET_LEN {
        return Err(SSHError::Malformed);
    }
    let data_len = 4 + n as usize;
    let total = data_len + MAC_LEN;
    if buf.len() < total {
        return Ok(None);
    }
    let ghost key = crypto.key@;
    let ghost off = crypto.bytes_processed as int;
    let mut j: usize = data_len;
    let ghost tag = buf@.subrange(data_len as int, total as int);
    while j < total
        invariant
            buf@.len() >= 16,
            crypto.key@ == old(crypto).key@,
            crypto.bytes_processed == old(crypto).bytes_processed,
            key == old(crypto).key@,
            off == old(crypto).bytes_processed as int,
            n == spec_peek_len(buf@, key, off),
            n <= MAX_PACKET_LEN,
            data_len == 4 + n as int,
            data_len + 32 == total <= buf@.len(),
            data_len <= j <= total,
            tag == buf@.subrange(data_len as int, total as int),
            forall|t: int| data_len <= t < j ==> buf@[t] == 0,
        decreases total - j,
    {
        if buf[j] != 0 {
            proof {
                assert(tag[j - data_len] != 0);
                assert(spec_mac_tag()[j - data_len] == 0);
                assert(tag != spec_mac_tag());
            }
            return Err(SSHError::VerifyFailure);
        }
        j += 1;
    }
    proof {
        assert(tag =~= spec_mac_tag());
    }
    let advanced = match crypto.bytes_processed.checked_add(data_len) {
        Some(v) => v,
        None => {
            return Err(SSHError::Protocol);
        },
    };
    let mut packet = vstd::slice::slice_to_vec(
        vstd::slice::slice_subrange(buf.as_slice(), 0, data_len),
    );
    proof {
        assert(packet@ =~= buf@.take(data_len as int));
    }
    xor_with_keystream(&mut packet, &crypto.key, crypto.bytes_processed);
    proof {
        let x16 = spec_keystream_xor(buf@.take(16), key, off);
        assert forall|t: int| 0 <= t < 4 implies packet@[t] == x16[t] by {
            assert(buf@.take(data_len as int)[t] == buf@.take(16)[t]);
        }
    }
    match extract_body(&packet) {
        Ok(body) => {
            crypto.bytes_processed = advanced;
            Ok(Some((body, total)))
        },
        Err(e) => Err(e),
    }
}

} // verus!
