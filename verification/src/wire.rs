//! Byte-level wire codec: the primitive value encodings shared by every
//! protocol message.
//!
//! Every primitive has three faces: a `spec_*_wire` function giving the exact
//! byte sequence a value encodes to, a `spec_read_*` function giving the exact
//! outcome of decoding at a position in a buffer, and executable `read_*` /
//! `write_*` functions proved against them.  Decoding reports `Truncated`
//! when the buffer ends mid-value and `Malformed` when the bytes are present
//! but invalid.

use vstd::prelude::*;
use vstd::utf8::{valid_utf8, decode_utf8, encode_utf8};
use crate::err::SSHError;

verus! {

/// The ASCII comma that separates tokens of a name-list on the wire.
pub const COMMA: u8 = 44;

// ---------------------------------------------------------------------------
// 32-bit big-endian integers
// ---------------------------------------------------------------------------

/// The four big-endian bytes of `n`.
pub open spec fn spec_be32(n: u32) -> Seq<u8> {
    seq![
        ((n >> 24) & 0xff) as u8,
        ((n >> 16) & 0xff) as u8,
        ((n >> 8) & 0xff) as u8,
        (n & 0xff) as u8,
    ]
}

/// The value of four bytes read big-endian.
pub open spec fn spec_u32_of(b0: u8, b1: u8, b2: u8, b3: u8) -> u32 {
    ((b0 as u32) << 24 | (b1 as u32) << 16 | (b2 as u32) << 8 | (b3 as u32)) as u32
}

pub proof fn lemma_be32_roundtrip(n: u32)
    ensures
        spec_u32_of(
            ((n >> 24) & 0xff) as u8,
            ((n >> 16) & 0xff) as u8,
            ((n >> 8) & 0xff) as u8,
            (n & 0xff) as u8,
        ) == n,
{
    assert((((((n >> 24) & 0xff) as u8) as u32) << 24 | ((((n >> 16) & 0xff) as u8) as u32) << 16
        | ((((n >> 8) & 0xff) as u8) as u32) << 8 | (((n & 0xff) as u8) as u32)) as u32 == n)
        by (bit_vector);
}

/// Outcome of decoding a 32-bit big-endian integer at `pos`:
/// the value and the position just past it.
pub open spec fn spec_read_u32(b: Seq<u8>, pos: int) -> Result<(u32, int), SSHError> {
    if pos + 4 <= b.len() {
        Ok((spec_u32_of(b[pos], b[pos + 1], b[pos + 2], b[pos + 3]), pos + 4))
    } else {
        Err(SSHError::Truncated)
    }
}

pub fn read_u32(buf: &Vec<u8>, pos: usize) -> (r: Result<(u32, usize), SSHError>)
    requires
        pos <= buf.len(),
    ensures
        match r {
            Ok((v, end)) => pos <= end <= buf.len() && spec_read_u32(buf@, pos as int) == Ok::<
                (u32, int),
                SSHError,
            >((v, end as int)),
            Err(e) => spec_read_u32(buf@, pos as int) == Err::<(u32, int), SSHError>(e),
        },
{
    if buf.len() - pos < 4 {
        return Err(SSHError::Truncated);
    }
    let b0 = buf[pos];
    let b1 = buf[pos + 1];
    let b2 = buf[pos + 2];
    let b3 = buf[pos + 3];
    let v: u32 = (b0 as u32) << 24 | (b1 as u32) << 16 | (b2 as u32) << 8 | (b3 as u32);
    Ok((v, pos + 4))
}

pub fn write_u32(out: &mut Vec<u8>, v: u32)
    ensures
        final(out)@ == old(out)@ + spec_be32(v),
{
    proof {
        assert((v >> 24) & 0xff < 256 && (v >> 16) & 0xff < 256 && (v >> 8) & 0xff < 256 && v
            & 0xff < 256) by (bit_vector);
    }
    out.push(((v >> 24) & 0xff) as u8);
    out.push(((v >> 16) & 0xff) as u8);
    out.push(((v >> 8) & 0xff) as u8);
    out.push((v & 0xff) as u8);
    assert(final(out)@ =~= old(out)@ + spec_be32(v));
}

/// Reading four bytes that are the big-endian form of `n` yields `n`.
pub proof fn lemma_read_u32_at(b: Seq<u8>, pos: int, n: u32)
    requires
        0 <= pos,
        pos + 4 <= b.len(),
        b.subrange(pos, pos + 4) == spec_be32(n),
    ensures
        spec_read_u32(b, pos) == Ok::<(u32, int), SSHError>((n, pos + 4)),
{
    assert(b[pos] == spec_be32(n)[0]);
    assert(b[pos + 1] == spec_be32(n)[1]);
    assert(b[pos + 2] == spec_be32(n)[2]);
    assert(b[pos + 3] == spec_be32(n)[3]);
    lemma_be32_roundtrip(n);
}

// ---------------------------------------------------------------------------
// Single bytes and booleans
// ---------------------------------------------------------------------------

/// Outcome of decoding one byte at `pos`.
pub open spec fn spec_read_u8(b: Seq<u8>, pos: int) -> Result<(u8, int), SSHError> {
    if pos + 1 <= b.len() {
        Ok((b[pos], pos + 1))
    } else {
        Err(SSHError::Truncated)
    }
}

pub fn read_u8(buf: &Vec<u8>, pos: usize) -> (r: Result<(u8, usize), SSHError>)
    requires
        pos <= buf.len(),
    ensures
        match r {
            Ok((v, end)) => pos <= end <= buf.len() && spec_read_u8(buf@, pos as int) == Ok::<
                (u8, int),
                SSHError,
            >((v, end as int)),
            Err(e) => spec_read_u8(buf@, pos as int) == Err::<(u8, int), SSHError>(e),
        },
{
    if pos < buf.len() {
        Ok((buf[pos], pos + 1))
    } else {
        Err(SSHError::Truncated)
    }
}

pub fn write_u8(out: &mut Vec<u8>, v: u8)
    ensures
        final(out)@ == old(out)@ + seq![v],
{
    out.push(v);
    assert(final(out)@ =~= old(out)@ + seq![v]);
}

/// The single wire byte of a boolean: 1 for true, 0 for false.
pub open spec fn spec_bool_wire(v: bool) -> Seq<u8> {
    seq![if v { 1u8 } else { 0u8 }]
}

/// Outcome of decoding a boolean at `pos`: any nonzero byte reads as true.
pub open spec fn spec_read_bool(b: Seq<u8>, pos: int) -> Result<(bool, int), SSHError> {
    if pos + 1 <= b.len() {
        Ok((b[pos] != 0, pos + 1))
    } else {
        Err(SSHError::Truncated)
    }
}

pub fn read_bool(buf: &Vec<u8>, pos: usize) -> (r: Result<(bool, usize), SSHError>)
    requires
        pos <= buf.len(),
    ensures
        match r {
            Ok((v, end)) => pos <= end <= buf.len() && spec_read_bool(buf@, pos as int) == Ok::<
                (bool, int),
                SSHError,
            >((v, end as int)),
            Err(e) => spec_read_bool(buf@, pos as int) == Err::<(bool, int), SSHError>(e),
        },
{
    if pos < buf.len() {
        Ok((buf[pos] != 0, pos + 1))
    } else {
        Err(SSHError::Truncated)
    }
}

pub fn write_bool(out: &mut Vec<u8>, v: bool)
    ensures
        final(out)@ == old(out)@ + spec_bool_wire(v),
{
    out.push(if v { 1u8 } else { 0u8 });
    assert(final(out)@ =~= old(out)@ + spec_bool_wire(v));
}


// ---------------------------------------------------------------------------
// Length-prefixed opaque byte strings
// ---------------------------------------------------------------------------

/// Wire form of an opaque byte string: 4-byte big-endian length, then the bytes.
pub open spec fn spec_bytes_wire(d: Seq<u8>) -> Seq<u8> {
    spec_be32(d.len() as u32) + d
}

/// Outcome of decoding a length-prefixed byte string at `pos`.
pub open spec fn spec_read_bytes(b: Seq<u8>, pos: int) -> Result<(Seq<u8>, int), SSHError> {
    match spec_read_u32(b, pos) {
        Ok((n, p)) => if p + n <= b.len() {
            Ok((b.subrange(p, p + n), p + n))
        } else {
            Err(SSHError::Truncated)
        },
        Err(e) => Err(e),
    }
}

pub fn read_bytes(buf: &Vec<u8>, pos: usize) -> (r: Result<(Vec<u8>, usize), SSHError>)
    requires
        pos <= buf.len(),
    ensures
        match r {
            Ok((d, end)) => pos <= end <= buf.len() && spec_read_bytes(buf@, pos as int) == Ok::<
                (Seq<u8>, int),
                SSHError,
            >((d@, end as int)),
            Err(e) => spec_read_bytes(buf@, pos as int) == Err::<(Seq<u8>, int), SSHError>(e),
        },
{
    let (n, p) = match read_u32(buf, pos) {
        Ok(v) => v,
        Err(e) => {
            return Err(e);
        },
    };
    if (n as usize) > buf.len() - p {
        return Err(SSHError::Truncated);
    }
    let d = vstd::slice::slice_to_vec(vstd::slice::slice_subrange(buf.as_slice(), p, p + n as usize));
    Ok((d, p + n as usize))
}

pub fn write_bytes(out: &mut Vec<u8>, d: &Vec<u8>)
    requires
        d@.len() <= u32::MAX,
    ensures
        final(out)@ == old(out)@ + spec_bytes_wire(d@),
{
    write_u32(out, d.len() as u32);
    out.extend_from_slice(d.as_slice());
    assert(final(out)@ =~= old(out)@ + spec_bytes_wire(d@));
}

/// Reading bytes that are the wire form of `d` yields `d`.
pub proof fn lemma_read_bytes_at(b: Seq<u8>, pos: int, d: Seq<u8>)
    requires
        0 <= pos,
        pos + 4 + d.len() <= b.len(),
        d.len() <= u32::MAX,
        b.subrange(pos, pos + 4 + d.len()) == spec_bytes_wire(d),
    ensures
        spec_read_bytes(b, pos) == Ok::<(Seq<u8>, int), SSHError>((d, pos + 4 + d.len())),
{
    let w = spec_bytes_wire(d);
    let n = d.len() as u32;
    assert(b.subrange(pos, pos + 4) =~= spec_be32(n)) by {
        assert forall|i: int| 0 <= i < 4 implies b.subrange(pos, pos + 4)[i] == spec_be32(n)[i] by {
            assert(b.subrange(pos, pos + 4 + d.len() as int)[i] == w[i]);
        }
    }
    lemma_read_u32_at(b, pos, n);
    assert(b.subrange(pos + 4, pos + 4 + d.len() as int) =~= d) by {
        assert forall|i: int| 0 <= i < d.len() implies b.subrange(
            pos + 4,
            pos + 4 + d.len() as int,
        )[i] == d[i] by {
            assert(b.subrange(pos, pos + 4 + d.len() as int)[i + 4] == w[i + 4]);
        }
    }
}


// ---------------------------------------------------------------------------
// Length-prefixed UTF-8 strings
// ---------------------------------------------------------------------------

/// Whether the UTF-8 form of `s` fits behind a 32-bit length prefix.
pub open spec fn spec_string_fits(s: Seq<char>) -> bool {
    encode_utf8(s).len() <= u32::MAX
}

/// Wire form of a string: 4-byte big-endian length of its UTF-8 form, then
/// that UTF-8 form.
pub open spec fn spec_string_wire(s: Seq<char>) -> Seq<u8> {
    spec_bytes_wire(encode_utf8(s))
}

/// Outcome of decoding a length-prefixed UTF-8 string at `pos`: truncation if
/// the declared length overruns the buffer, `Malformed` if the bytes are not
/// valid UTF-8.
pub open spec fn spec_read_string(b: Seq<u8>, pos: int) -> Result<(Seq<char>, int), SSHError> {
    match spec_read_bytes(b, pos) {
        Ok((d, end)) => if valid_utf8(d) {
            Ok((decode_utf8(d), end))
        } else {
            Err(SSHError::Malformed)
        },
        Err(e) => Err(e),
    }
}

/// Relies on `String::from_utf8`: it succeeds exactly on valid UTF-8 input,
/// and the resulting string consists of the characters the bytes encode.
#[verifier::external_body]
pub(crate) fn string_from_utf8(v: Vec<u8>) -> (r: Option<String>)
    ensures
        r is Some <==> valid_utf8(v@),
        r matches Some(s) ==> s@ == decode_utf8(v@),
{
    String::from_utf8(v).ok()
}

pub fn read_string(buf: &Vec<u8>, pos: usize) -> (r: Result<(String, usize), SSHError>)
    requires
        pos <= buf.len(),
    ensures
        match r {
            Ok((s, end)) => pos <= end <= buf.len() && spec_read_string(buf@, pos as int) == Ok::<
                (Seq<char>, int),
                SSHError,
            >((s@, end as int)),
            Err(e) => spec_read_string(buf@, pos as int) == Err::<(Seq<char>, int), SSHError>(e),
        },
{
    let (d, end) = match read_bytes(buf, pos) {
        Ok(v) => v,
        Err(e) => {
            return Err(e);
        },
    };
    match string_from_utf8(d) {
        Some(s) => Ok((s, end)),
        None => Err(SSHError::Malformed),
    }
}

pub fn write_string(out: &mut Vec<u8>, s: &String)
    requires
        spec_string_fits(s@),
    ensures
        final(out)@ == old(out)@ + spec_string_wire(s@),
{
    let bytes = s.as_str().as_bytes();
    write_u32(out, bytes.len() as u32);
    out.extend_from_slice(bytes);
    assert(final(out)@ =~= old(out)@ + spec_string_wire(s@));
}

/// Reading bytes that are the wire form of `s` yields `s`.
pub proof fn lemma_read_string_at(b: Seq<u8>, pos: int, s: Seq<char>)
    requires
        0 <= pos,
        pos + spec_string_wire(s).len() <= b.len(),
        spec_string_fits(s),
        b.subrange(pos, pos + spec_string_wire(s).len()) == spec_string_wire(s),
    ensures
        spec_read_string(b, pos) == Ok::<(Seq<char>, int), SSHError>(
            (s, pos + spec_string_wire(s).len()),
        ),
{
    lemma_read_bytes_at(b, pos, encode_utf8(s));
    vstd::utf8::encode_utf8_valid_utf8(s);
    vstd::utf8::encode_utf8_decode_utf8(s);
}

// ---------------------------------------------------------------------------
// Fixed 16-byte blocks (random cookies)
// ---------------------------------------------------------------------------

/// Outcome of decoding 16 raw bytes at `pos`.
pub open spec fn spec_read_raw16(b: Seq<u8>, pos: int) -> Result<(Seq<u8>, int), SSHError> {
    if pos + 16 <= b.len() {
        Ok((b.subrange(pos, pos + 16), pos + 16))
    } else {
        Err(SSHError::Truncated)
    }
}

pub fn read_raw16(buf: &Vec<u8>, pos: usize) -> (r: Result<([u8; 16], usize), SSHError>)
    requires
        pos <= buf.len(),
    ensures
        match r {
            Ok((a, end)) => pos <= end <= buf.len() && spec_read_raw16(buf@, pos as int) == Ok::<
                (Seq<u8>, int),
                SSHError,
            >((a@, end as int)),
            Err(e) => spec_read_raw16(buf@, pos as int) == Err::<(Seq<u8>, int), SSHError>(e),
        },
{
    if buf.len() - pos < 16 {
        return Err(SSHError::Truncated);
    }
    let a: [u8; 16] = [
        buf[pos],
        buf[pos + 1],
        buf[pos + 2],
        buf[pos + 3],
        buf[pos + 4],
        buf[pos + 5],
        buf[pos + 6],
        buf[pos + 7],
        buf[pos + 8],
        buf[pos + 9],
        buf[pos + 10],
        buf[pos + 11],
        buf[pos + 12],
        buf[pos + 13],
        buf[pos + 14],
        buf[pos + 15],
    ];
    assert(a@ =~= buf@.subrange(pos as int, pos + 16));
    Ok((a, pos + 16))
}

pub fn write_raw16(out: &mut Vec<u8>, a: &[u8; 16])
    ensures
        final(out)@ == old(out)@ + a@,
{
    out.extend_from_slice(a.as_slice());
}

/// Reading 16 bytes that are exactly `d` yields `d`.
pub proof fn lemma_read_raw16_at(b: Seq<u8>, pos: int, d: Seq<u8>)
    requires
        0 <= pos,
        d.len() == 16,
        pos + 16 <= b.len(),
        b.subrange(pos, pos + 16) == d,
    ensures
        spec_read_raw16(b, pos) == Ok::<(Seq<u8>, int), SSHError>((d, pos + 16)),
{
}


// ---------------------------------------------------------------------------
// Helpers for composite decoding proofs
// ---------------------------------------------------------------------------

/// Reading one byte that is the wire form of `v` yields `v`.
pub proof fn lemma_read_bool_at(b: Seq<u8>, pos: int, v: bool)
    requires
        0 <= pos,
        pos + 1 <= b.len(),
        b.subrange(pos, pos + 1) == spec_bool_wire(v),
    ensures
        spec_read_bool(b, pos) == Ok::<(bool, int), SSHError>((v, pos + 1)),
{
    assert(b[pos] == spec_bool_wire(v)[0]);
}

/// A buffer region equal to a concatenation splits into regions equal to the parts.
pub proof fn lemma_subrange_concat(b: Seq<u8>, pos: int, w1: Seq<u8>, w2: Seq<u8>)
    requires
        0 <= pos,
        pos + w1.len() + w2.len() <= b.len(),
        b.subrange(pos, pos + w1.len() + w2.len()) == w1 + w2,
    ensures
        b.subrange(pos, pos + w1.len()) == w1,
        b.subrange(pos + w1.len(), pos + w1.len() + w2.len()) == w2,
{
    let whole = b.subrange(pos, pos + w1.len() + w2.len());
    assert(b.subrange(pos, pos + w1.len()) =~= w1) by {
        assert forall|i: int| 0 <= i < w1.len() implies b.subrange(pos, pos + w1.len())[i]
            == w1[i] by {
            assert(whole[i] == (w1 + w2)[i]);
        }
    }
    assert(b.subrange(pos + w1.len(), pos + w1.len() + w2.len()) =~= w2) by {
        assert forall|i: int| 0 <= i < w2.len() implies b.subrange(
            pos + w1.len(),
            pos + w1.len() + w2.len(),
        )[i] == w2[i] by {
            assert(whole[i + w1.len()] == (w1 + w2)[i + w1.len()]);
        }
    }
}

/// UTF-8 encoding takes at most four bytes per character.
pub proof fn lemma_encode_utf8_len(s: Seq<char>)
    ensures
        encode_utf8(s).len() <= 4 * s.len(),
    decreases s.len(),
{
    if s.len() == 0 {
    } else {
        assert(vstd::utf8::encode_scalar(s[0] as u32).len() <= 4);
        lemma_encode_utf8_len(s.drop_first());
    }
}


/// UTF-8 encoding is empty exactly for the empty string.
pub proof fn lemma_encode_utf8_empty(s: Seq<char>)
    ensures
        encode_utf8(s).len() == 0 <==> s.len() == 0,
{
    if s.len() > 0 {
        assert(vstd::utf8::encode_scalar(s[0] as u32).len() >= 1);
    }
}

} // verus!
