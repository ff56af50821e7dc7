//! Name-lists: ordered sequences of algorithm-name tokens, wire-encoded as a
//! single length-prefixed string whose tokens are joined by commas.
//!
//! An empty sequence encodes to wire length 0, and only wire length 0 decodes
//! to the empty sequence; a nonzero length always yields at least one token.

use vstd::prelude::*;
use vstd::utf8::{valid_utf8, decode_utf8, encode_utf8};
use crate::err::SSHError;
use crate::wire::{COMMA, spec_bytes_wire, spec_read_bytes, read_bytes, write_bytes, string_from_utf8,
    lemma_read_bytes_at};

verus! {

/// No byte of `b` is the comma separator.
pub open spec fn comma_free(b: Seq<u8>) -> bool {
    forall|i: int| 0 <= i < b.len() ==> b[i] != COMMA
}

/// Index of the first comma in `b`, or `b.len()` if there is none.
pub open spec fn first_comma(b: Seq<u8>) -> nat
    decreases b.len(),
{
    if b.len() == 0 {
        0
    } else if b[0] == COMMA {
        0
    } else {
        (1 + first_comma(b.drop_first())) as nat
    }
}

/// The comma-separated tokens of `b`, in order.  A buffer without commas is a
/// single token (possibly empty); each comma ends the token before it.
pub open spec fn spec_split(b: Seq<u8>) -> Seq<Seq<u8>>
    decreases b.len(),
{
    let i = first_comma(b);
    if i >= b.len() {
        seq![b]
    } else {
        seq![b.take(i as int)] + spec_split(b.skip(i as int + 1))
    }
}

/// The tokens joined with a single comma between neighbours.
pub open spec fn spec_join(parts: Seq<Seq<u8>>) -> Seq<u8>
    decreases parts.len(),
{
    if parts.len() == 0 {
        Seq::empty()
    } else if parts.len() == 1 {
        parts[0]
    } else {
        parts[0] + seq![COMMA] + spec_join(parts.drop_first())
    }
}

pub proof fn lemma_first_comma(b: Seq<u8>)
    ensures
        first_comma(b) <= b.len(),
        first_comma(b) < b.len() ==> b[first_comma(b) as int] == COMMA,
        forall|j: int| 0 <= j < first_comma(b) ==> b[j] != COMMA,
    decreases b.len(),
{
    if b.len() == 0 {
    } else if b[0] == COMMA {
    } else {
        lemma_first_comma(b.drop_first());
        assert forall|j: int| 0 <= j < first_comma(b) implies b[j] != COMMA by {
            if j > 0 {
                assert(b.drop_first()[j - 1] == b[j]);
            }
        }
        if first_comma(b) < b.len() {
            assert(b.drop_first()[first_comma(b.drop_first()) as int] == b[first_comma(b) as int]);
        }
    }
}

pub proof fn lemma_first_comma_concat(pre: Seq<u8>, rest: Seq<u8>)
    requires
        comma_free(pre),
    ensures
        first_comma(pre + rest) == pre.len() + first_comma(rest),
    decreases pre.len(),
{
    if pre.len() == 0 {
        assert(pre + rest =~= rest);
    } else {
        assert((pre + rest)[0] == pre[0]);
        assert(pre[0] != COMMA);
        assert(comma_free(pre.drop_first())) by {
            assert(forall|j: int|
                0 <= j < pre.drop_first().len() ==> pre.drop_first()[j] == pre[j + 1]);
        }
        assert((pre + rest).drop_first() =~= pre.drop_first() + rest);
        lemma_first_comma_concat(pre.drop_first(), rest);
    }
}

/// A comma-free buffer splits into exactly itself.
pub proof fn lemma_split_comma_free(b: Seq<u8>)
    requires
        comma_free(b),
    ensures
        spec_split(b) == seq![b],
{
    lemma_first_comma(b);
}

/// Splitting peels one comma-free token off the front at its closing comma.
pub proof fn lemma_split_at_comma(pre: Seq<u8>, rest: Seq<u8>)
    requires
        comma_free(pre),
    ensures
        spec_split(pre + seq![COMMA] + rest) == seq![pre] + spec_split(rest),
{
    let whole = pre + seq![COMMA] + rest;
    assert(whole =~= pre + (seq![COMMA] + rest));
    lemma_first_comma_concat(pre, seq![COMMA] + rest);
    assert((seq![COMMA] + rest)[0] == COMMA);
    assert(first_comma(seq![COMMA] + rest) == 0);
    let i = first_comma(whole);
    assert(i == pre.len());
    assert(whole.take(i as int) =~= pre);
    assert(whole.skip(i as int + 1) =~= rest);
}

/// Joining one more token appends a comma (if anything precedes it) and the token.
pub proof fn lemma_join_push(parts: Seq<Seq<u8>>, p: Seq<u8>)
    ensures
        spec_join(parts.push(p)) == if parts.len() == 0 {
            p
        } else {
            spec_join(parts) + seq![COMMA] + p
        },
    decreases parts.len(),
{
    if parts.len() == 0 {
        assert(parts.push(p)[0] == p);
    } else {
        assert(parts.push(p).drop_first() =~= parts.drop_first().push(p));
        lemma_join_push(parts.drop_first(), p);
        assert(parts.push(p)[0] == parts[0]);
        if parts.len() == 1 {
            assert(spec_join(parts.push(p)) == parts[0] + seq![COMMA] + p);
        } else {
            assert(spec_join(parts.push(p)) == parts[0] + seq![COMMA] + (spec_join(
                parts.drop_first(),
            ) + seq![COMMA] + p));
            assert(parts[0] + seq![COMMA] + (spec_join(parts.drop_first()) + seq![COMMA] + p) =~= (
            parts[0] + seq![COMMA] + spec_join(parts.drop_first())) + seq![COMMA] + p);
        }
    }
}

/// Splitting the join of comma-free tokens gives the tokens back.
pub proof fn lemma_split_of_join(parts: Seq<Seq<u8>>)
    requires
        parts.len() >= 1,
        forall|i: int| 0 <= i < parts.len() ==> comma_free(#[trigger] parts[i]),
    ensures
        spec_split(spec_join(parts)) == parts,
    decreases parts.len(),
{
    if parts.len() == 1 {
        lemma_split_comma_free(parts[0]);
        assert(seq![parts[0]] =~= parts);
    } else {
        let rest = parts.drop_first();
        assert(forall|i: int| 0 <= i < rest.len() ==> rest[i] == parts[i + 1]);
        lemma_split_at_comma(parts[0], spec_join(rest));
        lemma_split_of_join(rest);
        assert(seq![parts[0]] + rest =~= parts);
    }
}

// ---------------------------------------------------------------------------
// The name-list wire form
// ---------------------------------------------------------------------------

/// The UTF-8 forms of the tokens.
pub open spec fn enc_parts(names: Seq<Seq<char>>) -> Seq<Seq<u8>> {
    names.map_values(|s: Seq<char>| encode_utf8(s))
}

/// The characters of each byte-level token.
pub open spec fn dec_parts(parts: Seq<Seq<u8>>) -> Seq<Seq<char>> {
    parts.map_values(|p: Seq<u8>| decode_utf8(p))
}

/// The comma-joined payload of a name-list.
pub open spec fn spec_namelist_payload(names: Seq<Seq<char>>) -> Seq<u8> {
    spec_join(enc_parts(names))
}

/// Wire form of a name-list: the payload behind a 4-byte length prefix.
pub open spec fn spec_namelist_wire(names: Seq<Seq<char>>) -> Seq<u8> {
    spec_bytes_wire(spec_namelist_payload(names))
}

/// A name-list that the wire form represents faithfully: no token contains a
/// comma, the list is not the single empty token (whose wire form would be
/// indistinguishable from the empty list), and the payload fits behind a
/// 32-bit length.
pub open spec fn spec_namelist_ok(names: Seq<Seq<char>>) -> bool {
    &&& forall|i: int| 0 <= i < names.len() ==> comma_free(encode_utf8(#[trigger] names[i]))
    &&& !(names.len() == 1 && names[0].len() == 0)
    &&& spec_namelist_payload(names).len() <= u32::MAX
}

/// Every byte-level token is valid UTF-8.
pub open spec fn all_parts_valid(parts: Seq<Seq<u8>>) -> bool {
    forall|i: int| 0 <= i < parts.len() ==> valid_utf8(#[trigger] parts[i])
}

/// Outcome of decoding a name-list at `pos`: wire length 0 yields the empty
/// list; otherwise the payload splits at commas and every token must be valid
/// UTF-8.
pub open spec fn spec_read_namelist(b: Seq<u8>, pos: int) -> Result<
    (Seq<Seq<char>>, int),
    SSHError,
> {
    match spec_read_bytes(b, pos) {
        Ok((payload, end)) => if payload.len() == 0 {
            Ok((Seq::empty(), end))
        } else if all_parts_valid(spec_split(payload)) {
            Ok((dec_parts(spec_split(payload)), end))
        } else {
            Err(SSHError::Malformed)
        },
        Err(e) => Err(e),
    }
}

pub fn read_namelist(buf: &Vec<u8>, pos: usize) -> (r: Result<(Vec<String>, usize), SSHError>)
    requires
        pos <= buf.len(),
    ensures
        match r {
            Ok((names, end)) => pos <= end <= buf.len() && spec_read_namelist(buf@, pos as int)
                == Ok::<(Seq<Seq<char>>, int), SSHError>((names.deep_view(), end as int)),
            Err(e) => spec_read_namelist(buf@, pos as int) == Err::<(Seq<Seq<char>>, int), SSHError>(
                e,
            ),
        },
{
    let (payload, end) = match read_bytes(buf, pos) {
        Ok(v) => v,
        Err(e) => {
            return Err(e);
        },
    };
    if payload.len() == 0 {
        let names: Vec<String> = Vec::new();
        assert(names.deep_view() =~= Seq::<Seq<char>>::empty());
        return Ok((names, end));
    }
    let ghost whole = payload@;
    let ghost parts = spec_split(whole);
    let mut names: Vec<String> = Vec::new();
    let mut cur: Vec<u8> = Vec::new();
    let ghost mut done: Seq<Seq<u8>> = Seq::empty();
    let mut i: usize = 0;
    proof {
        assert(cur@ + whole.skip(0) =~= whole);
        assert(parts =~= done + spec_split(cur@ + whole.skip(0)));
    }
    while i < payload.len()
        invariant
            payload@ == whole,
            0 <= i <= whole.len(),
            whole.len() > 0,
            pos <= end <= buf.len(),
            spec_read_bytes(buf@, pos as int) == Ok::<(Seq<u8>, int), SSHError>(
                (whole, end as int),
            ),
            comma_free(cur@),
            parts == spec_split(whole),
            parts =~= done + spec_split(cur@ + whole.skip(i as int)),
            names@.len() == done.len(),
            forall|k: int|
                0 <= k < done.len() ==> valid_utf8(#[trigger] done[k]) && names@[k]@ == decode_utf8(
                    done[k],
                ),
        decreases whole.len() - i,
    {
        let b = payload[i];
        if b == COMMA {
            proof {
                lemma_split_at_comma(cur@, whole.skip(i + 1));
                assert(cur@ + whole.skip(i as int) =~= cur@ + seq![COMMA] + whole.skip(i + 1));
                assert(spec_split(cur@ + whole.skip(i as int)) == seq![cur@] + spec_split(
                    whole.skip(i + 1),
                ));
                assert(parts[done.len() as int] == cur@);
            }
            match string_from_utf8(cur) {
                Some(s) => {
                    names.push(s);
                },
                None => {
                    proof {
                        let k = done.len() as int;
                        assert(spec_split(cur@ + whole.skip(i as int)).len() >= 1);
                        assert(0 <= k < parts.len());
                        assert(!valid_utf8(spec_split(whole)[k]));
                        assert(!all_parts_valid(spec_split(whole)));
                    }
                    return Err(SSHError::Malformed);
                },
            }
            proof {
                done = done + seq![cur@];
                assert(parts =~= done + spec_split(whole.skip(i + 1)));
            }
            cur = Vec::new();
            assert(cur@ + whole.skip(i + 1) =~= whole.skip(i + 1));
        } else {
            let ghost cur0 = cur@;
            cur.push(b);
            proof {
                assert(cur@ + whole.skip(i + 1) =~= cur0 + whole.skip(i as int));
            }
        }
        i += 1;
    }
    proof {
        assert(cur@ + whole.skip(i as int) =~= cur@);
        lemma_split_comma_free(cur@);
        assert(parts =~= done + seq![cur@]);
        assert(parts[done.len() as int] == cur@);
    }
    match string_from_utf8(cur) {
        Some(s) => {
            names.push(s);
            proof {
                assert forall|k: int|
                    0 <= k < parts.len() implies valid_utf8(#[trigger] parts[k]) by {
                    if k < done.len() {
                    } else {
                        assert(parts[k] == cur@);
                    }
                }
                assert(all_parts_valid(spec_split(whole)));
                assert(names.deep_view() =~= dec_parts(parts));
            }
            Ok((names, end))
        },
        None => {
            proof {
                let k = done.len() as int;
                assert(0 <= k < parts.len());
                assert(!valid_utf8(spec_split(whole)[k]));
                assert(!all_parts_valid(spec_split(whole)));
            }
            Err(SSHError::Malformed)
        },
    }
}

pub fn write_namelist(out: &mut Vec<u8>, names: &Vec<String>)
    requires
        spec_namelist_ok(names.deep_view()),
    ensures
        final(out)@ == old(out)@ + spec_namelist_wire(names.deep_view()),
{
    let ghost parts = enc_parts(names.deep_view());
    let mut payload: Vec<u8> = Vec::new();
    let mut k: usize = 0;
    while k < names.len()
        invariant
            0 <= k <= names.len(),
            spec_namelist_ok(names.deep_view()),
            parts == enc_parts(names.deep_view()),
            payload@ == spec_join(parts.take(k as int)),
        decreases names.len() - k,
    {
        proof {
            assert(parts.take(k + 1) =~= parts.take(k as int).push(parts[k as int]));
            lemma_join_push(parts.take(k as int), parts[k as int]);
        }
        if k > 0 {
            payload.push(COMMA);
        }
        payload.extend_from_slice(names[k].as_str().as_bytes());
        proof {
            assert(parts[k as int] == encode_utf8(names.deep_view()[k as int]));
            assert(names.deep_view()[k as int] == names@[k as int]@);
            if k > 0 {
                assert(payload@ =~= spec_join(parts.take(k + 1)));
            } else {
                assert(parts.take(0int).len() == 0);
                assert(payload@ =~= spec_join(parts.take(1int)));
            }
        }
        k += 1;
    }
    proof {
        assert(parts.take(names@.len() as int) =~= parts);
    }
    write_bytes(out, &payload);
}

/// Reading bytes that are the wire form of a faithful name-list yields it.
pub proof fn lemma_read_namelist_at(b: Seq<u8>, pos: int, names: Seq<Seq<char>>)
    requires
        0 <= pos,
        pos + spec_namelist_wire(names).len() <= b.len(),
        spec_namelist_ok(names),
        b.subrange(pos, pos + spec_namelist_wire(names).len()) == spec_namelist_wire(names),
    ensures
        spec_read_namelist(b, pos) == Ok::<(Seq<Seq<char>>, int), SSHError>(
            (names, pos + spec_namelist_wire(names).len()),
        ),
{
    let payload = spec_namelist_payload(names);
    lemma_read_bytes_at(b, pos, payload);
    if names.len() == 0 {
        assert(payload.len() == 0);
        assert(names =~= Seq::<Seq<char>>::empty());
    } else {
        let parts = enc_parts(names);
        assert(parts.len() == names.len());
        assert forall|i: int| 0 <= i < parts.len() implies comma_free(#[trigger] parts[i]) by {
            assert(parts[i] == encode_utf8(names[i]));
        }
        lemma_split_of_join(parts);
        assert(payload.len() > 0) by {
            if names.len() == 1 {
                assert(names[0].len() > 0);
                assert(payload == encode_utf8(names[0]));
                assert(vstd::utf8::encode_scalar(names[0][0] as u32).len() >= 1);
            } else {
                assert(payload == parts[0] + seq![COMMA] + spec_join(parts.drop_first()));
            }
        }
        assert forall|i: int|
            0 <= i < spec_split(payload).len() implies valid_utf8(
            #[trigger] spec_split(payload)[i]) by {
            assert(spec_split(payload)[i] == encode_utf8(names[i]));
            vstd::utf8::encode_utf8_valid_utf8(names[i]);
        }
        assert(all_parts_valid(spec_split(payload)));
        assert(dec_parts(spec_split(payload)) =~= names) by {
            assert forall|i: int| 0 <= i < names.len() implies dec_parts(spec_split(payload))[i]
                == names[i] by {
                assert(spec_split(payload)[i] == encode_utf8(names[i]));
                vstd::utf8::encode_utf8_decode_utf8(names[i]);
            }
        }
    }
}

/// The empty name-list encodes to wire length 0, and wire length 0 always
/// decodes to the empty list.
pub proof fn lemma_namelist_empty(b: Seq<u8>, pos: int)
    requires
        0 <= pos,
        pos + 4 <= b.len(),
        b.subrange(pos, pos + 4) == crate::wire::spec_be32(0),
    ensures
        spec_namelist_wire(Seq::empty()) == crate::wire::spec_be32(0),
        spec_read_namelist(b, pos) == Ok::<(Seq<Seq<char>>, int), SSHError>(
            (Seq::empty(), pos + 4),
        ),
{
    assert(spec_namelist_payload(Seq::empty()).len() == 0);
    assert(spec_namelist_wire(Seq::empty()) =~= crate::wire::spec_be32(0));
    crate::wire::lemma_read_u32_at(b, pos, 0);
    assert(b.subrange(pos + 4, pos + 4) =~= Seq::<u8>::empty());
}


/// Decide [`spec_namelist_ok`] at run time: every token free of commas, not
/// the single empty token, and a payload that fits behind a 32-bit length.
/// A caller tests this before encoding a name-list of unknown provenance.
pub fn name_list_ok(names: &Vec<String>) -> (r: bool)
    ensures
        r == spec_namelist_ok(names.deep_view()),
{
    let ghost dv = names.deep_view();
    let ghost parts = enc_parts(dv);
    if names.len() == 1 {
        proof {
            assert(dv[0] == names@[0]@);
            crate::wire::lemma_encode_utf8_empty(dv[0]);
        }
        if names[0].as_str().as_bytes().len() == 0 {
            return false;
        }
    }
    proof {
        if names@.len() == 1 {
            crate::wire::lemma_encode_utf8_empty(dv[0]);
        }
    }
    let mut payload: Vec<u8> = Vec::new();
    let mut k: usize = 0;
    while k < names.len()
        invariant
            0 <= k <= names@.len(),
            dv == names.deep_view(),
            parts == enc_parts(dv),
            !(dv.len() == 1 && dv[0].len() == 0),
            payload@ == spec_join(parts.take(k as int)),
            forall|t: int| 0 <= t < k ==> comma_free(#[trigger] parts[t]),
        decreases names@.len() - k,
    {
        let bs = names[k].as_str().as_bytes();
        proof {
            assert(dv[k as int] == names@[k as int]@);
            assert(bs@ == parts[k as int]);
        }
        let mut j: usize = 0;
        while j < bs.len()
            invariant
                0 <= j <= bs@.len(),
                dv == names.deep_view(),
                parts == enc_parts(dv),
                bs@ == parts[k as int],
                0 <= k < parts.len(),
                forall|t: int| 0 <= t < j ==> bs@[t] != COMMA,
            decreases bs@.len() - j,
        {
            if bs[j] == COMMA {
                proof {
                    assert(parts[k as int] == encode_utf8(dv[k as int]));
                    assert(!comma_free(encode_utf8(dv[k as int])));
                }
                return false;
            }
            j += 1;
        }
        proof {
            assert(comma_free(parts[k as int]));
            assert(parts.take(k + 1) =~= parts.take(k as int).push(parts[k as int]));
            lemma_join_push(parts.take(k as int), parts[k as int]);
        }
        if k > 0 {
            payload.push(COMMA);
        }
        payload.extend_from_slice(bs);
        proof {
            if k > 0 {
                assert(payload@ =~= spec_join(parts.take(k + 1)));
            } else {
                assert(parts.take(0int).len() == 0);
                assert(payload@ =~= spec_join(parts.take(1int)));
            }
        }
        k += 1;
    }
    proof {
        assert(parts.take(names@.len() as int) =~= parts);
        assert forall|i: int| 0 <= i < dv.len() implies comma_free(
            encode_utf8(#[trigger] dv[i])) by {
            assert(parts[i] == encode_utf8(dv[i]));
        }
        assert(payload@ == spec_namelist_payload(dv));
    }
    payload.len() <= 0xffff_ffff
}

} // verus!
