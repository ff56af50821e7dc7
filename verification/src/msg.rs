//! The protocol messages: a closed set of record shapes, each identified on
//! the wire by a one-byte tag and followed by its fields in declaration
//! order.  Encoding always writes the tag first; [`read_next_message`] reads
//! exactly one tag byte and dispatches to the matching field decoder, and is
//! the exact inverse of encoding for every variant
//! ([`lemma_msg_round_trip`]).

use vstd::prelude::*;
use crate::err::SSHError;
use crate::wire::{spec_be32, spec_bool_wire, spec_string_wire, spec_bytes_wire, spec_string_fits,
    spec_read_u8, spec_read_u32, spec_read_bool, spec_read_string, spec_read_bytes, spec_read_raw16,
    read_u8, read_u32, read_bool, read_string, read_bytes, read_raw16,
    write_u8, write_u32, write_bool, write_string, write_bytes, write_raw16,
    lemma_read_u32_at, lemma_read_bool_at, lemma_read_string_at, lemma_read_bytes_at,
    lemma_read_raw16_at, lemma_subrange_concat};
use crate::namelist::{spec_namelist_wire, spec_namelist_ok, spec_read_namelist, read_namelist,
    write_namelist, lemma_read_namelist_at};
use crate::codes::{DisconnectCode, ChannelOpenFailureReasonCode, spec_disconnect_code_u32,
    spec_open_failure_code_u32, spec_read_disconnect_code, spec_read_open_failure_code,
    lemma_read_disconnect_code_at, lemma_read_open_failure_code_at, MAGIC_DISCONNECT,
    MAGIC_IGNORE, MAGIC_UNIMPLEMENTED, MAGIC_DEBUG, MAGIC_SERVICE_REQUEST, MAGIC_SERVICE_ACCEPT,
    MAGIC_KEX_INIT, MAGIC_NEW_KEYS, MAGIC_KEX_ECDH_INIT, MAGIC_KEX_ECDH_REPLY,
    MAGIC_USERAUTH_REQUEST, MAGIC_USERAUTH_FAILURE, MAGIC_USERAUTH_SUCCESS, MAGIC_USERAUTH_BANNER,
    MAGIC_GLOBAL_REQUEST, MAGIC_REQUEST_SUCCESS, MAGIC_REQUEST_FAILURE, MAGIC_CHANNEL_OPEN,
    MAGIC_CHANNEL_OPEN_CONFIRMATION, MAGIC_CHANNEL_OPEN_FAILURE, MAGIC_CHANNEL_WINDOW_ADJUST,
    MAGIC_CHANNEL_DATA, MAGIC_CHANNEL_EXTENDED_DATA, MAGIC_CHANNEL_EOF, MAGIC_CHANNEL_CLOSE,
    MAGIC_CHANNEL_REQUEST, MAGIC_CHANNEL_SUCCESS, MAGIC_CHANNEL_FAILURE};

verus! {

#[derive(Clone, Debug, PartialEq)]
pub struct MsgDisconnect {
    pub code: DisconnectCode,
    pub description: String,
    pub language: String,
}

/// Mathematical view of [`MsgDisconnect`].
pub struct MsgDisconnectV {
    pub code: DisconnectCode,
    pub description: Seq<char>,
    pub language: Seq<char>,
}

impl View for MsgDisconnect {
    type V = MsgDisconnectV;

    open spec fn view(&self) -> MsgDisconnectV {
        MsgDisconnectV {
            code: self.code,
            description: self.description@,
            language: self.language@,
        }
    }
}

/// Field bytes of the message, after its tag byte.
pub open spec fn spec_disconnect_fields(v: MsgDisconnectV) -> Seq<u8> {
    spec_be32(spec_disconnect_code_u32(v.code)) + spec_string_wire(v.description) + spec_string_wire(v.language)
}

/// Views whose wire form is faithful: lengths fit their prefixes and
/// name-lists contain representable tokens.
pub open spec fn spec_disconnect_ok(v: MsgDisconnectV) -> bool {
    spec_string_fits(v.description) && spec_string_fits(v.language)
}

/// Outcome of decoding the fields of a `MsgDisconnect` at `pos`.
pub open spec fn spec_read_disconnect(b: Seq<u8>, pos: int) -> Result<(MsgDisconnectV, int), SSHError> {
    match spec_read_disconnect_code(b, pos) {
        Ok((code, p0)) => {
            match spec_read_string(b, p0) {
                Ok((description, p1)) => {
                    match spec_read_string(b, p1) {
                        Ok((language, p2)) => {
                            Ok((MsgDisconnectV { code, description, language }, p2))
                        },
                        Err(e) => Err(e),
                    }
                },
                Err(e) => Err(e),
            }
        },
        Err(e) => Err(e),
    }
}

impl MsgDisconnect {
    /// Tag byte of this message on the wire.
    pub fn magic() -> (r: u8)
        ensures
            r == MAGIC_DISCONNECT,
    {
        MAGIC_DISCONNECT
    }

    /// Decode the fields (the bytes after the tag) starting at `pos`.
    pub fn read_ssh(buf: &Vec<u8>, pos: usize) -> (r: Result<(MsgDisconnect, usize), SSHError>)
        requires
            pos <= buf.len(),
        ensures
            match r {
                Ok((m, end)) => pos <= end <= buf.len() && spec_read_disconnect(buf@, pos as int)
                    == Ok::<(MsgDisconnectV, int), SSHError>((m@, end as int)),
                Err(e) => spec_read_disconnect(buf@, pos as int) == Err::<(MsgDisconnectV, int), SSHError>(e),
            },
    {
        let (code, p0) = match DisconnectCode::read_ssh(buf, pos) {
            Ok(v) => v,
            Err(e) => {
                return Err(e);
            },
        };
        let (description, p1) = match read_string(buf, p0) {
            Ok(v) => v,
            Err(e) => {
                return Err(e);
            },
        };
        let (language, p2) = match read_string(buf, p1) {
            Ok(v) => v,
            Err(e) => {
                return Err(e);
            },
        };
        Ok((MsgDisconnect { code, description, language }, p2))
    }

    /// Append the tag byte and the fields to `out`.
    pub fn write_ssh(&self, out: &mut Vec<u8>)
        requires
            spec_disconnect_ok(self@),
        ensures
            final(out)@ == old(out)@ + seq![MAGIC_DISCONNECT] + spec_disconnect_fields(self@),
    {
        write_u8(out, MAGIC_DISCONNECT);
        self.code.write_ssh(out);
        write_string(out, &self.description);
        write_string(out, &self.language);
        assert(final(out)@ =~= old(out)@ + seq![MAGIC_DISCONNECT] + spec_disconnect_fields(self@));
    }
}

/// Reading bytes that are the field encoding of `v` yields `v`.
pub proof fn lemma_read_disconnect_at(b: Seq<u8>, pos: int, v: MsgDisconnectV)
    requires
        0 <= pos,
        spec_disconnect_ok(v),
        pos + spec_disconnect_fields(v).len() <= b.len(),
        b.subrange(pos, pos + spec_disconnect_fields(v).len()) == spec_disconnect_fields(v),
    ensures
        spec_read_disconnect(b, pos) == Ok::<(MsgDisconnectV, int), SSHError>(
            (v, pos + spec_disconnect_fields(v).len()),
        ),
{
    let w0 = spec_be32(spec_disconnect_code_u32(v.code));
    let w1 = spec_string_wire(v.description);
    let w2 = spec_string_wire(v.language);
    let r2 = w2;
    let r1 = w1 + r2;
    let r0 = w0 + r1;
    let p0 = pos;
    let p1 = p0 + w0.len();
    let p2 = p1 + w1.len();
    let p3 = p2 + w2.len();
    assert(spec_disconnect_fields(v) =~= r0);
    lemma_subrange_concat(b, p0, w0, r1);
    lemma_read_disconnect_code_at(b, p0, v.code);
    lemma_subrange_concat(b, p1, w1, r2);
    lemma_read_string_at(b, p1, v.description);
    lemma_read_string_at(b, p2, v.language);
}

#[derive(Clone, Debug, PartialEq)]
pub struct MsgIgnore {
    pub data: String,
}

/// Mathematical view of [`MsgIgnore`].
pub struct MsgIgnoreV {
    pub data: Seq<char>,
}

impl View for MsgIgnore {
    type V = MsgIgnoreV;

    open spec fn view(&self) -> MsgIgnoreV {
        MsgIgnoreV {
            data: self.data@,
        }
    }
}

/// Field bytes of the message, after its tag byte.
pub open spec fn spec_ignore_fields(v: MsgIgnoreV) -> Seq<u8> {
    spec_string_wire(v.data)
}

/// Views whose wire form is faithful: lengths fit their prefixes and
/// name-lists contain representable tokens.
pub open spec fn spec_ignore_ok(v: MsgIgnoreV) -> bool {
    spec_string_fits(v.data)
}

/// Outcome of decoding the fields of a `MsgIgnore` at `pos`.
pub open spec fn spec_read_ignore(b: Seq<u8>, pos: int) -> Result<(MsgIgnoreV, int), SSHError> {
    match spec_read_string(b, pos) {
        Ok((data, p0)) => {
            Ok((MsgIgnoreV { data }, p0))
        },
        Err(e) => Err(e),
    }
}

impl MsgIgnore {
    /// Tag byte of this message on the wire.
    pub fn magic() -> (r: u8)
        ensures
            r == MAGIC_IGNORE,
    {
        MAGIC_IGNORE
    }

    /// Decode the fields (the bytes after the tag) starting at `pos`.
    pub fn read_ssh(buf: &Vec<u8>, pos: usize) -> (r: Result<(MsgIgnore, usize), SSHError>)
        requires
            pos <= buf.len(),
        ensures
            match r {
                Ok((m, end)) => pos <= end <= buf.len() && spec_read_ignore(buf@, pos as int)
                    == Ok::<(MsgIgnoreV, int), SSHError>((m@, end as int)),
                Err(e) => spec_read_ignore(buf@, pos as int) == Err::<(MsgIgnoreV, int), SSHError>(e),
            },
    {
        let (data, p0) = match read_string(buf, pos) {
            Ok(v) => v,
            Err(e) => {
                return Err(e);
            },
        };
        Ok((MsgIgnore { data }, p0))
    }

    /// Append the tag byte and the fields to `out`.
    pub fn write_ssh(&self, out: &mut Vec<u8>)
        requires
            spec_ignore_ok(self@),
        ensures
            final(out)@ == old(out)@ + seq![MAGIC_IGNORE] + spec_ignore_fields(self@),
    {
        write_u8(out, MAGIC_IGNORE);
        write_string(out, &self.data);
        assert(final(out)@ =~= old(out)@ + seq![MAGIC_IGNORE] + spec_ignore_fields(self@));
    }
}

/// Reading bytes that are the field encoding of `v` yields `v`.
pub proof fn lemma_read_ignore_at(b: Seq<u8>, pos: int, v: MsgIgnoreV)
    requires
        0 <= pos,
        spec_ignore_ok(v),
        pos + spec_ignore_fields(v).len() <= b.len(),
        b.subrange(pos, pos + spec_ignore_fields(v).len()) == spec_ignore_fields(v),
    ensures
        spec_read_ignore(b, pos) == Ok::<(MsgIgnoreV, int), SSHError>(
            (v, pos + spec_ignore_fields(v).len()),
        ),
{
    let w0 = spec_string_wire(v.data);
    let r0 = w0;
    let p0 = pos;
    let p1 = p0 + w0.len();
    assert(spec_ignore_fields(v) =~= r0);
    lemma_read_string_at(b, p0, v.data);
}

#[derive(Clone, Debug, PartialEq)]
pub struct MsgUnimplemented {
    pub packet_sequence_number: u32,
}

/// Mathematical view of [`MsgUnimplemented`].
pub struct MsgUnimplementedV {
    pub packet_sequence_number: u32,
}

impl View for MsgUnimplemented {
    type V = MsgUnimplementedV;

    open spec fn view(&self) -> MsgUnimplementedV {
        MsgUnimplementedV {
            packet_sequence_number: self.packet_sequence_number,
        }
    }
}

/// Field bytes of the message, after its tag byte.
pub open spec fn spec_unimplemented_fields(v: MsgUnimplementedV) -> Seq<u8> {
    spec_be32(v.packet_sequence_number)
}

/// Views whose wire form is faithful: lengths fit their prefixes and
/// name-lists contain representable tokens.
pub open spec fn spec_unimplemented_ok(v: MsgUnimplementedV) -> bool {
    true
}

/// Outcome of decoding the fields of a `MsgUnimplemented` at `pos`.
pub open spec fn spec_read_unimplemented(b: Seq<u8>, pos: int) -> Result<(MsgUnimplementedV, int), SSHError> {
    match spec_read_u32(b, pos) {
        Ok((packet_sequence_number, p0)) => {
            Ok((MsgUnimplementedV { packet_sequence_number }, p0))
        },
        Err(e) => Err(e),
    }
}

impl MsgUnimplemented {
    /// Tag byte of this message on the wire.
    pub fn magic() -> (r: u8)
        ensures
            r == MAGIC_UNIMPLEMENTED,
    {
        MAGIC_UNIMPLEMENTED
    }

    /// Decode the fields (the bytes after the tag) starting at `pos`.
    pub fn read_ssh(buf: &Vec<u8>, pos: usize) -> (r: Result<(MsgUnimplemented, usize), SSHError>)
        requires
            pos <= buf.len(),
        ensures
            match r {
                Ok((m, end)) => pos <= end <= buf.len() && spec_read_unimplemented(buf@, pos as int)
                    == Ok::<(MsgUnimplementedV, int), SSHError>((m@, end as int)),
                Err(e) => spec_read_unimplemented(buf@, pos as int) == Err::<(MsgUnimplementedV, int), SSHError>(e),
            },
    {
        let (packet_sequence_number, p0) = match read_u32(buf, pos) {
            Ok(v) => v,
            Err(e) => {
                return Err(e);
            },
        };
        Ok((MsgUnimplemented { packet_sequence_number }, p0))
    }

    /// Append the tag byte and the fields to `out`.
    pub fn write_ssh(&self, out: &mut Vec<u8>)
        requires
            spec_unimplemented_ok(self@),
        ensures
            final(out)@ == old(out)@ + seq![MAGIC_UNIMPLEMENTED] + spec_unimplemented_fields(self@),
    {
        write_u8(out, MAGIC_UNIMPLEMENTED);
        write_u32(out, self.packet_sequence_number);
        assert(final(out)@ =~= old(out)@ + seq![MAGIC_UNIMPLEMENTED] + spec_unimplemented_fields(self@));
    }
}

/// Reading bytes that are the field encoding of `v` yields `v`.
pub proof fn lemma_read_unimplemented_at(b: Seq<u8>, pos: int, v: MsgUnimplementedV)
    requires
        0 <= pos,
        spec_unimplemented_ok(v),
        pos + spec_unimplemented_fields(v).len() <= b.len(),
        b.subrange(pos, pos + spec_unimplemented_fields(v).len()) == spec_unimplemented_fields(v),
    ensures
        spec_read_unimplemented(b, pos) == Ok::<(MsgUnimplementedV, int), SSHError>(
            (v, pos + spec_unimplemented_fields(v).len()),
        ),
{
    let w0 = spec_be32(v.packet_sequence_number);
    let r0 = w0;
    let p0 = pos;
    let p1 = p0 + w0.len();
    assert(spec_unimplemented_fields(v) =~= r0);
    lemma_read_u32_at(b, p0, v.packet_sequence_number);
}

#[derive(Clone, Debug, PartialEq)]
pub struct MsgDebug {
    pub always_display: bool,
    pub message: String,
    pub language: String,
}

/// Mathematical view of [`MsgDebug`].
pub struct MsgDebugV {
    pub always_display: bool,
    pub message: Seq<char>,
    pub language: Seq<char>,
}

impl View for MsgDebug {
    type V = MsgDebugV;

    open spec fn view(&self) -> MsgDebugV {
        MsgDebugV {
            always_display: self.always_display,
            message: self.message@,
            language: self.language@,
        }
    }
}

/// Field bytes of the message, after its tag byte.
pub open spec fn spec_debug_msg_fields(v: MsgDebugV) -> Seq<u8> {
    spec_bool_wire(v.always_display) + spec_string_wire(v.message) + spec_string_wire(v.language)
}

/// Views whose wire form is faithful: lengths fit their prefixes and
/// name-lists contain representable tokens.
pub open spec fn spec_debug_msg_ok(v: MsgDebugV) -> bool {
    spec_string_fits(v.message) && spec_string_fits(v.language)
}

/// Outcome of decoding the fields of a `MsgDebug` at `pos`.
pub open spec fn spec_read_debug_msg(b: Seq<u8>, pos: int) -> Result<(MsgDebugV, int), SSHError> {
    match spec_read_bool(b, pos) {
        Ok((always_display, p0)) => {
            match spec_read_string(b, p0) {
                Ok((message, p1)) => {
                    match spec_read_string(b, p1) {
                        Ok((language, p2)) => {
                            Ok((MsgDebugV { always_display, message, language }, p2))
                        },
                        Err(e) => Err(e),
                    }
                },
                Err(e) => Err(e),
            }
        },
        Err(e) => Err(e),
    }
}

impl MsgDebug {
    /// Tag byte of this message on the wire.
    pub fn magic() -> (r: u8)
        ensures
            r == MAGIC_DEBUG,
    {
        MAGIC_DEBUG
    }

    /// Decode the fields (the bytes after the tag) starting at `pos`.
    pub fn read_ssh(buf: &Vec<u8>, pos: usize) -> (r: Result<(MsgDebug, usize), SSHError>)
        requires
            pos <= buf.len(),
        ensures
            match r {
                Ok((m, end)) => pos <= end <= buf.len() && spec_read_debug_msg(buf@, pos as int)
                    == Ok::<(MsgDebugV, int), SSHError>((m@, end as int)),
                Err(e) => spec_read_debug_msg(buf@, pos as int) == Err::<(MsgDebugV, int), SSHError>(e),
            },
    {
        let (always_display, p0) = match read_bool(buf, pos) {
            Ok(v) => v,
            Err(e) => {
                return Err(e);
            },
        };
        let (message, p1) = match read_string(buf, p0) {
            Ok(v) => v,
            Err(e) => {
                return Err(e);
            },
        };
        let (language, p2) = match read_string(buf, p1) {
            Ok(v) => v,
            Err(e) => {
                return Err(e);
            },
        };
        Ok((MsgDebug { always_display, message, language }, p2))
    }

    /// Append the tag byte and the fields to `out`.
    pub fn write_ssh(&self, out: &mut Vec<u8>)
        requires
            spec_debug_msg_ok(self@),
        ensures
            final(out)@ == old(out)@ + seq![MAGIC_DEBUG] + spec_debug_msg_fields(self@),
    {
        write_u8(out, MAGIC_DEBUG);
        write_bool(out, self.always_display);
        write_string(out, &self.message);
        write_string(out, &self.language);
        assert(final(out)@ =~= old(out)@ + seq![MAGIC_DEBUG] + spec_debug_msg_fields(self@));
    }
}

/// Reading bytes that are the field encoding of `v` yields `v`.
pub proof fn lemma_read_debug_msg_at(b: Seq<u8>, pos: int, v: MsgDebugV)
    requires
        0 <= pos,
        spec_debug_msg_ok(v),
        pos + spec_debug_msg_fields(v).len() <= b.len(),
        b.subrange(pos, pos + spec_debug_msg_fields(v).len()) == spec_debug_msg_fields(v),
    ensures
        spec_read_debug_msg(b, pos) == Ok::<(MsgDebugV, int), SSHError>(
            (v, pos + spec_debug_msg_fields(v).len()),
        ),
{
    let w0 = spec_bool_wire(v.always_display);
    let w1 = spec_string_wire(v.message);
    let w2 = spec_string_wire(v.language);
    let r2 = w2;
    let r1 = w1 + r2;
    let r0 = w0 + r1;
    let p0 = pos;
    let p1 = p0 + w0.len();
    let p2 = p1 + w1.len();
    let p3 = p2 + w2.len();
    assert(spec_debug_msg_fields(v) =~= r0);
    lemma_subrange_concat(b, p0, w0, r1);
    lemma_read_bool_at(b, p0, v.always_display);
    lemma_subrange_concat(b, p1, w1, r2);
    lemma_read_string_at(b, p1, v.message);
    lemma_read_string_at(b, p2, v.language);
}

#[derive(Clone, Debug, PartialEq)]
pub struct MsgServiceRequest {
    pub service_name: String,
}

/// Mathematical view of [`MsgServiceRequest`].
pub struct MsgServiceRequestV {
    pub service_name: Seq<char>,
}

impl View for MsgServiceRequest {
    type V = MsgServiceRequestV;

    open spec fn view(&self) -> MsgServiceRequestV {
        MsgServiceRequestV {
            service_name: self.service_name@,
        }
    }
}

/// Field bytes of the message, after its tag byte.
pub open spec fn spec_service_request_fields(v: MsgServiceRequestV) -> Seq<u8> {
    spec_string_wire(v.service_name)
}

/// Views whose wire form is faithful: lengths fit their prefixes and
/// name-lists contain representable tokens.
pub open spec fn spec_service_request_ok(v: MsgServiceRequestV) -> bool {
    spec_string_fits(v.service_name)
}

/// Outcome of decoding the fields of a `MsgServiceRequest` at `pos`.
pub open spec fn spec_read_service_request(b: Seq<u8>, pos: int) -> Result<(MsgServiceRequestV, int), SSHError> {
    match spec_read_string(b, pos) {
        Ok((service_name, p0)) => {
            Ok((MsgServiceRequestV { service_name }, p0))
        },
        Err(e) => Err(e),
    }
}

impl MsgServiceRequest {
    /// Tag byte of this message on the wire.
    pub fn magic() -> (r: u8)
        ensures
            r == MAGIC_SERVICE_REQUEST,
    {
        MAGIC_SERVICE_REQUEST
    }

    /// Decode the fields (the bytes after the tag) starting at `pos`.
    pub fn read_ssh(buf: &Vec<u8>, pos: usize) -> (r: Result<(MsgServiceRequest, usize), SSHError>)
        requires
            pos <= buf.len(),
        ensures
            match r {
                Ok((m, end)) => pos <= end <= buf.len() && spec_read_service_request(buf@, pos as int)
                    == Ok::<(MsgServiceRequestV, int), SSHError>((m@, end as int)),
                Err(e) => spec_read_service_request(buf@, pos as int) == Err::<(MsgServiceRequestV, int), SSHError>(e),
            },
    {
        let (service_name, p0) = match read_string(buf, pos) {
            Ok(v) => v,
            Err(e) => {
                return Err(e);
            },
        };
        Ok((MsgServiceRequest { service_name }, p0))
    }

    /// Append the tag byte and the fields to `out`.
    pub fn write_ssh(&self, out: &mut Vec<u8>)
        requires
            spec_service_request_ok(self@),
        ensures
            final(out)@ == old(out)@ + seq![MAGIC_SERVICE_REQUEST] + spec_service_request_fields(self@),
    {
        write_u8(out, MAGIC_SERVICE_REQUEST);
        write_string(out, &self.service_name);
        assert(final(out)@ =~= old(out)@ + seq![MAGIC_SERVICE_REQUEST] + spec_service_request_fields(self@));
    }
}

/// Reading bytes that are the field encoding of `v` yields `v`.
pub proof fn lemma_read_service_request_at(b: Seq<u8>, pos: int, v: MsgServiceRequestV)
    requires
        0 <= pos,
        spec_service_request_ok(v),
        pos + spec_service_request_fields(v).len() <= b.len(),
        b.subrange(pos, pos + spec_service_request_fields(v).len()) == spec_service_request_fields(v),
    ensures
        spec_read_service_request(b, pos) == Ok::<(MsgServiceRequestV, int), SSHError>(
            (v, pos + spec_service_request_fields(v).len()),
        ),
{
    let w0 = spec_string_wire(v.service_name);
    let r0 = w0;
    let p0 = pos;
    let p1 = p0 + w0.len();
    assert(spec_service_request_fields(v) =~= r0);
    lemma_read_string_at(b, p0, v.service_name);
}

#[derive(Clone, Debug, PartialEq)]
pub struct MsgServiceAccept {
    pub service_name: String,
}

/// Mathematical view of [`MsgServiceAccept`].
pub struct MsgServiceAcceptV {
    pub service_name: Seq<char>,
}

impl View for MsgServiceAccept {
    type V = MsgServiceAcceptV;

    open spec fn view(&self) -> MsgServiceAcceptV {
        MsgServiceAcceptV {
            service_name: self.service_name@,
        }
    }
}

/// Field bytes of the message, after its tag byte.
pub open spec fn spec_service_accept_fields(v: MsgServiceAcceptV) -> Seq<u8> {
    spec_string_wire(v.service_name)
}

/// Views whose wire form is faithful: lengths fit their prefixes and
/// name-lists contain representable tokens.
pub open spec fn spec_service_accept_ok(v: MsgServiceAcceptV) -> bool {
    spec_string_fits(v.service_name)
}

/// Outcome of decoding the fields of a `MsgServiceAccept` at `pos`.
pub open spec fn spec_read_service_accept(b: Seq<u8>, pos: int) -> Result<(MsgServiceAcceptV, int), SSHError> {
    match spec_read_string(b, pos) {
        Ok((service_name, p0)) => {
            Ok((MsgServiceAcceptV { service_name }, p0))
        },
        Err(e) => Err(e),
    }
}

impl MsgServiceAccept {
    /// Tag byte of this message on the wire.
    pub fn magic() -> (r: u8)
        ensures
            r == MAGIC_SERVICE_ACCEPT,
    {
        MAGIC_SERVICE_ACCEPT
    }

    /// Decode the fields (the bytes after the tag) starting at `pos`.
    pub fn read_ssh(buf: &Vec<u8>, pos: usize) -> (r: Result<(MsgServiceAccept, usize), SSHError>)
        requires
            pos <= buf.len(),
        ensures
            match r {
                Ok((m, end)) => pos <= end <= buf.len() && spec_read_service_accept(buf@, pos as int)
                    == Ok::<(MsgServiceAcceptV, int), SSHError>((m@, end as int)),
                Err(e) => spec_read_service_accept(buf@, pos as int) == Err::<(MsgServiceAcceptV, int), SSHError>(e),
            },
    {
        let (service_name, p0) = match read_string(buf, pos) {
            Ok(v) => v,
            Err(e) => {
                return Err(e);
            },
        };
        Ok((MsgServiceAccept { service_name }, p0))
    }

    /// Append the tag byte and the fields to `out`.
    pub fn write_ssh(&self, out: &mut Vec<u8>)
        requires
            spec_service_accept_ok(self@),
        ensures
            final(out)@ == old(out)@ + seq![MAGIC_SERVICE_ACCEPT] + spec_service_accept_fields(self@),
    {
        write_u8(out, MAGIC_SERVICE_ACCEPT);
        write_string(out, &self.service_name);
        assert(final(out)@ =~= old(out)@ + seq![MAGIC_SERVICE_ACCEPT] + spec_service_accept_fields(self@));
    }
}

/// Reading bytes that are the field encoding of `v` yields `v`.
pub proof fn lemma_read_service_accept_at(b: Seq<u8>, pos: int, v: MsgServiceAcceptV)
    requires
        0 <= pos,
        spec_service_accept_ok(v),
        pos + spec_service_accept_fields(v).len() <= b.len(),
        b.subrange(pos, pos + spec_service_accept_fields(v).len()) == spec_service_accept_fields(v),
    ensures
        spec_read_service_accept(b, pos) == Ok::<(MsgServiceAcceptV, int), SSHError>(
            (v, pos + spec_service_accept_fields(v).len()),
        ),
{
    let w0 = spec_string_wire(v.service_name);
    let r0 = w0;
    let p0 = pos;
    let p1 = p0 + w0.len();
    assert(spec_service_accept_fields(v) =~= r0);
    lemma_read_string_at(b, p0, v.service_name);
}

#[derive(Clone, Debug, PartialEq)]
pub struct MsgKexInit {
    pub cookie: [u8; 16],
    pub kex_algorithms: Vec<String>,
    pub server_host_key_algorithms: Vec<String>,
    pub encryption_algorithms_client_to_server: Vec<String>,
    pub encryption_algorithms_server_to_client: Vec<String>,
    pub mac_algorithms_client_to_server: Vec<String>,
    pub mac_algorithms_server_to_client: Vec<String>,
    pub compression_algorithms_client_to_server: Vec<String>,
    pub compression_algorithms_server_to_client: Vec<String>,
    pub languages_client_to_server: Vec<String>,
    pub languages_server_to_client: Vec<String>,
    pub kex_first_packet_follows: bool,
    pub reserved: u32,
}

/// Mathematical view of [`MsgKexInit`].
pub struct MsgKexInitV {
    pub cookie: Seq<u8>,
    pub kex_algorithms: Seq<Seq<char>>,
    pub server_host_key_algorithms: Seq<Seq<char>>,
    pub encryption_algorithms_client_to_server: Seq<Seq<char>>,
    pub encryption_algorithms_server_to_client: Seq<Seq<char>>,
    pub mac_algorithms_client_to_server: Seq<Seq<char>>,
    pub mac_algorithms_server_to_client: Seq<Seq<char>>,
    pub compression_algorithms_client_to_server: Seq<Seq<char>>,
    pub compression_algorithms_server_to_client: Seq<Seq<char>>,
    pub languages_client_to_server: Seq<Seq<char>>,
    pub languages_server_to_client: Seq<Seq<char>>,
    pub kex_first_packet_follows: bool,
    pub reserved: u32,
}

impl View for MsgKexInit {
    type V = MsgKexInitV;

    open spec fn view(&self) -> MsgKexInitV {
        MsgKexInitV {
            cookie: self.cookie@,
            kex_algorithms: self.kex_algorithms.deep_view(),
            server_host_key_algorithms: self.server_host_key_algorithms.deep_view(),
            encryption_algorithms_client_to_server: self.encryption_algorithms_client_to_server.deep_view(),
            encryption_algorithms_server_to_client: self.encryption_algorithms_server_to_client.deep_view(),
            mac_algorithms_client_to_server: self.mac_algorithms_client_to_server.deep_view(),
            mac_algorithms_server_to_client: self.mac_algorithms_server_to_client.deep_view(),
            compression_algorithms_client_to_server: self.compression_algorithms_client_to_server.deep_view(),
            compression_algorithms_server_to_client: self.compression_algorithms_server_to_client.deep_view(),
            languages_client_to_server: self.languages_client_to_server.deep_view(),
            languages_server_to_client: self.languages_server_to_client.deep_view(),
            kex_first_packet_follows: self.kex_first_packet_follows,
            reserved: self.reserved,
        }
    }
}

/// Field bytes of the message, after its tag byte.
pub open spec fn spec_kex_init_fields(v: MsgKexInitV) -> Seq<u8> {
    v.cookie + spec_namelist_wire(v.kex_algorithms) + spec_namelist_wire(v.server_host_key_algorithms) + spec_namelist_wire(v.encryption_algorithms_client_to_server) + spec_namelist_wire(v.encryption_algorithms_server_to_client) + spec_namelist_wire(v.mac_algorithms_client_to_server) + spec_namelist_wire(v.mac_algorithms_server_to_client) + spec_namelist_wire(v.compression_algorithms_client_to_server) + spec_namelist_wire(v.compression_algorithms_server_to_client) + spec_namelist_wire(v.languages_client_to_server) + spec_namelist_wire(v.languages_server_to_client) + spec_bool_wire(v.kex_first_packet_follows) + spec_be32(v.reserved)
}

/// Views whose wire form is faithful: lengths fit their prefixes and
/// name-lists contain representable tokens.
pub open spec fn spec_kex_init_ok(v: MsgKexInitV) -> bool {
    v.cookie.len() == 16 && spec_namelist_ok(v.kex_algorithms) && spec_namelist_ok(v.server_host_key_algorithms) && spec_namelist_ok(v.encryption_algorithms_client_to_server) && spec_namelist_ok(v.encryption_algorithms_server_to_client) && spec_namelist_ok(v.mac_algorithms_client_to_server) && spec_namelist_ok(v.mac_algorithms_server_to_client) && spec_namelist_ok(v.compression_algorithms_client_to_server) && spec_namelist_ok(v.compression_algorithms_server_to_client) && spec_namelist_ok(v.languages_client_to_server) && spec_namelist_ok(v.languages_server_to_client)
}

/// Outcome of decoding the fields of a `MsgKexInit` at `pos`.
pub open spec fn spec_read_kex_init(b: Seq<u8>, pos: int) -> Result<(MsgKexInitV, int), SSHError> {
    match spec_read_raw16(b, pos) {
        Ok((cookie, p0)) => {
            match spec_read_namelist(b, p0) {
                Ok((kex_algorithms, p1)) => {
                    match spec_read_namelist(b, p1) {
                        Ok((server_host_key_algorithms, p2)) => {
                            match spec_read_namelist(b, p2) {
                                Ok((encryption_algorithms_client_to_server, p3)) => {
                                    match spec_read_namelist(b, p3) {
                                        Ok((encryption_algorithms_server_to_client, p4)) => {
                                            match spec_read_namelist(b, p4) {
                                                Ok((mac_algorithms_client_to_server, p5)) => {
                                                    match spec_read_namelist(b, p5) {
                                                        Ok((mac_algorithms_server_to_client, p6)) => {
                                                            match spec_read_namelist(b, p6) {
                                                                Ok((compression_algorithms_client_to_server, p7)) => {
                                                                    match spec_read_namelist(b, p7) {
                                                                        Ok((compression_algorithms_server_to_client, p8)) => {
                                                                            match spec_read_namelist(b, p8) {
                                                                                Ok((languages_client_to_server, p9)) => {
                                                                                    match spec_read_namelist(b, p9) {
                                                                                        Ok((languages_server_to_client, p10)) => {
                                                                                            match spec_read_bool(b, p10) {
                                                                                                Ok((kex_first_packet_follows, p11)) => {
                                                                                                    match spec_read_u32(b, p11) {
                                                                                                        Ok((reserved, p12)) => {
                                                                                                            Ok((MsgKexInitV { cookie, kex_algorithms, server_host_key_algorithms, encryption_algorithms_client_to_server, encryption_algorithms_server_to_client, mac_algorithms_client_to_server, mac_algorithms_server_to_client, compression_algorithms_client_to_server, compression_algorithms_server_to_client, languages_client_to_server, languages_server_to_client, kex_first_packet_follows, reserved }, p12))
                                                                                                        },
                                                                                                        Err(e) => Err(e),
                                                                                                    }
                                                                                                },
                                                                                                Err(e) => Err(e),
                                                                                            }
                                                                                        },
                                                                                        Err(e) => Err(e),
                                                                                    }
                                                                                },
                                                                                Err(e) => Err(e),
                                                                            }
                                                                        },
                                                                        Err(e) => Err(e),
                                                                    }
                                                                },
                                                                Err(e) => Err(e),
                                                            }
                                                        },
                                                        Err(e) => Err(e),
                                                    }
                                                },
                                                Err(e) => Err(e),
                                            }
                                        },
                                        Err(e) => Err(e),
                                    }
                                },
                                Err(e) => Err(e),
                            }
                        },
                        Err(e) => Err(e),
                    }
                },
                Err(e) => Err(e),
            }
        },
        Err(e) => Err(e),
    }
}

impl MsgKexInit {
    /// Tag byte of this message on the wire.
    pub fn magic() -> (r: u8)
        ensures
            r == MAGIC_KEX_INIT,
    {
        MAGIC_KEX_INIT
    }

    /// Decode the fields (the bytes after the tag) starting at `pos`.
    pub fn read_ssh(buf: &Vec<u8>, pos: usize) -> (r: Result<(MsgKexInit, usize), SSHError>)
        requires
            pos <= buf.len(),
        ensures
            match r {
                Ok((m, end)) => pos <= end <= buf.len() && spec_read_kex_init(buf@, pos as int)
                    == Ok::<(MsgKexInitV, int), SSHError>((m@, end as int)),
                Err(e) => spec_read_kex_init(buf@, pos as int) == Err::<(MsgKexInitV, int), SSHError>(e),
            },
    {
        let (cookie, p0) = match read_raw16(buf, pos) {
            Ok(v) => v,
            Err(e) => {
                return Err(e);
            },
        };
        let (kex_algorithms, p1) = match read_namelist(buf, p0) {
            Ok(v) => v,
            Err(e) => {
                return Err(e);
            },
        };
        let (server_host_key_algorithms, p2) = match read_namelist(buf, p1) {
            Ok(v) => v,
            Err(e) => {
                return Err(e);
            },
        };
        let (encryption_algorithms_client_to_server, p3) = match read_namelist(buf, p2) {
            Ok(v) => v,
            Err(e) => {
                return Err(e);
            },
        };
        let (encryption_algorithms_server_to_client, p4) = match read_namelist(buf, p3) {
            Ok(v) => v,
            Err(e) => {
                return Err(e);
            },
        };
        let (mac_algorithms_client_to_server, p5) = match read_namelist(buf, p4) {
            Ok(v) => v,
            Err(e) => {
                return Err(e);
            },
        };
        let (mac_algorithms_server_to_client, p6) = match read_namelist(buf, p5) {
            Ok(v) => v,
            Err(e) => {
                return Err(e);
            },
        };
        let (compression_algorithms_client_to_server, p7) = match read_namelist(buf, p6) {
            Ok(v) => v,
            Err(e) => {
                return Err(e);
            },
        };
        let (compression_algorithms_server_to_client, p8) = match read_namelist(buf, p7) {
            Ok(v) => v,
            Err(e) => {
                return Err(e);
            },
        };
        let (languages_client_to_server, p9) = match read_namelist(buf, p8) {
            Ok(v) => v,
            Err(e) => {
                return Err(e);
            },
        };
        let (languages_server_to_client, p10) = match read_namelist(buf, p9) {
            Ok(v) => v,
            Err(e) => {
                return Err(e);
            },
        };
        let (kex_first_packet_follows, p11) = match read_bool(buf, p10) {
            Ok(v) => v,
            Err(e) => {
                return Err(e);
            },
        };
        let (reserved, p12) = match read_u32(buf, p11) {
            Ok(v) => v,
            Err(e) => {
                return Err(e);
            },
        };
        Ok((MsgKexInit { cookie, kex_algorithms, server_host_key_algorithms, encryption_algorithms_client_to_server, encryption_algorithms_server_to_client, mac_algorithms_client_to_server, mac_algorithms_server_to_client, compression_algorithms_client_to_server, compression_algorithms_server_to_client, languages_client_to_server, languages_server_to_client, kex_first_packet_follows, reserved }, p12))
    }

    /// Append the tag byte and the fields to `out`.
    pub fn write_ssh(&self, out: &mut Vec<u8>)
        requires
            spec_kex_init_ok(self@),
        ensures
            final(out)@ == old(out)@ + seq![MAGIC_KEX_INIT] + spec_kex_init_fields(self@),
    {
        write_u8(out, MAGIC_KEX_INIT);
        write_raw16(out, &self.cookie);
        write_namelist(out, &self.kex_algorithms);
        write_namelist(out, &self.server_host_key_algorithms);
        write_namelist(out, &self.encryption_algorithms_client_to_server);
        write_namelist(out, &self.encryption_algorithms_server_to_client);
        write_namelist(out, &self.mac_algorithms_client_to_server);
        write_namelist(out, &self.mac_algorithms_server_to_client);
        write_namelist(out, &self.compression_algorithms_client_to_server);
        write_namelist(out, &self.compression_algorithms_server_to_client);
        write_namelist(out, &self.languages_client_to_server);
        write_namelist(out, &self.languages_server_to_client);
        write_bool(out, self.kex_first_packet_follows);
        write_u32(out, self.reserved);
        assert(final(out)@ =~= old(out)@ + seq![MAGIC_KEX_INIT] + spec_kex_init_fields(self@));
    }
}

/// Reading bytes that are the field encoding of `v` yields `v`.
#[verifier::rlimit(100)]
#[verifier::spinoff_prover]
pub proof fn lemma_read_kex_init_at(b: Seq<u8>, pos: int, v: MsgKexInitV)
    requires
        0 <= pos,
        spec_kex_init_ok(v),
        pos + spec_kex_init_fields(v).len() <= b.len(),
        b.subrange(pos, pos + spec_kex_init_fields(v).len()) == spec_kex_init_fields(v),
    ensures
        spec_read_kex_init(b, pos) == Ok::<(MsgKexInitV, int), SSHError>(
            (v, pos + spec_kex_init_fields(v).len()),
        ),
{
    let w0 = v.cookie;
    let w1 = spec_namelist_wire(v.kex_algorithms);
    let w2 = spec_namelist_wire(v.server_host_key_algorithms);
    let w3 = spec_namelist_wire(v.encryption_algorithms_client_to_server);
    let w4 = spec_namelist_wire(v.encryption_algorithms_server_to_client);
    let w5 = spec_namelist_wire(v.mac_algorithms_client_to_server);
    let w6 = spec_namelist_wire(v.mac_algorithms_server_to_client);
    let w7 = spec_namelist_wire(v.compression_algorithms_client_to_server);
    let w8 = spec_namelist_wire(v.compression_algorithms_server_to_client);
    let w9 = spec_namelist_wire(v.languages_client_to_server);
    let w10 = spec_namelist_wire(v.languages_server_to_client);
    let w11 = spec_bool_wire(v.kex_first_packet_follows);
    let w12 = spec_be32(v.reserved);
    let r12 = w12;
    let r11 = w11 + r12;
    let r10 = w10 + r11;
    let r9 = w9 + r10;
    let r8 = w8 + r9;
    let r7 = w7 + r8;
    let r6 = w6 + r7;
    let r5 = w5 + r6;
    let r4 = w4 + r5;
    let r3 = w3 + r4;
    let r2 = w2 + r3;
    let r1 = w1 + r2;
    let r0 = w0 + r1;
    let p0 = pos;
    let p1 = p0 + w0.len();
    let p2 = p1 + w1.len();
    let p3 = p2 + w2.len();
    let p4 = p3 + w3.len();
    let p5 = p4 + w4.len();
    let p6 = p5 + w5.len();
    let p7 = p6 + w6.len();
    let p8 = p7 + w7.len();
    let p9 = p8 + w8.len();
    let p10 = p9 + w9.len();
    let p11 = p10 + w10.len();
    let p12 = p11 + w11.len();
    let p13 = p12 + w12.len();
    assert(spec_kex_init_fields(v) =~= r0);
    lemma_subrange_concat(b, p0, w0, r1);
    lemma_read_raw16_at(b, p0, v.cookie);
    lemma_subrange_concat(b, p1, w1, r2);
    lemma_read_namelist_at(b, p1, v.kex_algorithms);
    lemma_subrange_concat(b, p2, w2, r3);
    lemma_read_namelist_at(b, p2, v.server_host_key_algorithms);
    lemma_subrange_concat(b, p3, w3, r4);
    lemma_read_namelist_at(b, p3, v.encryption_algorithms_client_to_server);
    lemma_subrange_concat(b, p4, w4, r5);
    lemma_read_namelist_at(b, p4, v.encryption_algorithms_server_to_client);
    lemma_subrange_concat(b, p5, w5, r6);
    lemma_read_namelist_at(b, p5, v.mac_algorithms_client_to_server);
    lemma_subrange_concat(b, p6, w6, r7);
    lemma_read_namelist_at(b, p6, v.mac_algorithms_server_to_client);
    lemma_subrange_concat(b, p7, w7, r8);
    lemma_read_namelist_at(b, p7, v.compression_algorithms_client_to_server);
    lemma_subrange_concat(b, p8, w8, r9);
    lemma_read_namelist_at(b, p8, v.compression_algorithms_server_to_client);
    lemma_subrange_concat(b, p9, w9, r10);
    lemma_read_namelist_at(b, p9, v.languages_client_to_server);
    lemma_subrange_concat(b, p10, w10, r11);
    lemma_read_namelist_at(b, p10, v.languages_server_to_client);
    lemma_subrange_concat(b, p11, w11, r12);
    lemma_read_bool_at(b, p11, v.kex_first_packet_follows);
    lemma_read_u32_at(b, p12, v.reserved);
}

#[derive(Clone, Debug, PartialEq)]
pub struct MsgNewKeys {
}

/// Mathematical view of [`MsgNewKeys`].
pub struct MsgNewKeysV {
}

impl View for MsgNewKeys {
    type V = MsgNewKeysV;

    open spec fn view(&self) -> MsgNewKeysV {
        MsgNewKeysV {
        }
    }
}

/// Field bytes of the message, after its tag byte.
pub open spec fn spec_new_keys_fields(v: MsgNewKeysV) -> Seq<u8> {
    Seq::empty()
}

/// Views whose wire form is faithful: lengths fit their prefixes and
/// name-lists contain representable tokens.
pub open spec fn spec_new_keys_ok(v: MsgNewKeysV) -> bool {
    true
}

/// Outcome of decoding the fields of a `MsgNewKeys` at `pos`.
pub open spec fn spec_read_new_keys(b: Seq<u8>, pos: int) -> Result<(MsgNewKeysV, int), SSHError> {
    Ok((MsgNewKeysV {  }, pos))
}

impl MsgNewKeys {
    /// Tag byte of this message on the wire.
    pub fn magic() -> (r: u8)
        ensures
            r == MAGIC_NEW_KEYS,
    {
        MAGIC_NEW_KEYS
    }

    /// Decode the fields (the bytes after the tag) starting at `pos`.
    pub fn read_ssh(buf: &Vec<u8>, pos: usize) -> (r: Result<(MsgNewKeys, usize), SSHError>)
        requires
            pos <= buf.len(),
        ensures
            match r {
                Ok((m, end)) => pos <= end <= buf.len() && spec_read_new_keys(buf@, pos as int)
                    == Ok::<(MsgNewKeysV, int), SSHError>((m@, end as int)),
                Err(e) => spec_read_new_keys(buf@, pos as int) == Err::<(MsgNewKeysV, int), SSHError>(e),
            },
    {
        Ok((MsgNewKeys {  }, pos))
    }

    /// Append the tag byte and the fields to `out`.
    pub fn write_ssh(&self, out: &mut Vec<u8>)
        requires
            spec_new_keys_ok(self@),
        ensures
            final(out)@ == old(out)@ + seq![MAGIC_NEW_KEYS] + spec_new_keys_fields(self@),
    {
        write_u8(out, MAGIC_NEW_KEYS);
        assert(final(out)@ =~= old(out)@ + seq![MAGIC_NEW_KEYS] + spec_new_keys_fields(self@));
    }
}

/// Reading bytes that are the field encoding of `v` yields `v`.
pub proof fn lemma_read_new_keys_at(b: Seq<u8>, pos: int, v: MsgNewKeysV)
    requires
        0 <= pos,
        spec_new_keys_ok(v),
        pos + spec_new_keys_fields(v).len() <= b.len(),
        b.subrange(pos, pos + spec_new_keys_fields(v).len()) == spec_new_keys_fields(v),
    ensures
        spec_read_new_keys(b, pos) == Ok::<(MsgNewKeysV, int), SSHError>(
            (v, pos + spec_new_keys_fields(v).len()),
        ),
{
}

#[derive(Clone, Debug, PartialEq)]
pub struct MsgKexECDHInit {
    pub q_c: Vec<u8>,
}

/// Mathematical view of [`MsgKexECDHInit`].
pub struct MsgKexECDHInitV {
    pub q_c: Seq<u8>,
}

impl View for MsgKexECDHInit {
    type V = MsgKexECDHInitV;

    open spec fn view(&self) -> MsgKexECDHInitV {
        MsgKexECDHInitV {
            q_c: self.q_c@,
        }
    }
}

/// Field bytes of the message, after its tag byte.
pub open spec fn spec_kex_ecdh_init_fields(v: MsgKexECDHInitV) -> Seq<u8> {
    spec_bytes_wire(v.q_c)
}

/// Views whose wire form is faithful: lengths fit their prefixes and
/// name-lists contain representable tokens.
pub open spec fn spec_kex_ecdh_init_ok(v: MsgKexECDHInitV) -> bool {
    v.q_c.len() <= u32::MAX
}

/// Outcome of decoding the fields of a `MsgKexECDHInit` at `pos`.
pub open spec fn spec_read_kex_ecdh_init(b: Seq<u8>, pos: int) -> Result<(MsgKexECDHInitV, int), SSHError> {
    match spec_read_bytes(b, pos) {
        Ok((q_c, p0)) => {
            Ok((MsgKexECDHInitV { q_c }, p0))
        },
        Err(e) => Err(e),
    }
}

impl MsgKexECDHInit {
    /// Tag byte of this message on the wire.
    pub fn magic() -> (r: u8)
        ensures
            r == MAGIC_KEX_ECDH_INIT,
    {
        MAGIC_KEX_ECDH_INIT
    }

    /// Decode the fields (the bytes after the tag) starting at `pos`.
    pub fn read_ssh(buf: &Vec<u8>, pos: usize) -> (r: Result<(MsgKexECDHInit, usize), SSHError>)
        requires
            pos <= buf.len(),
        ensures
            match r {
                Ok((m, end)) => pos <= end <= buf.len() && spec_read_kex_ecdh_init(buf@, pos as int)
                    == Ok::<(MsgKexECDHInitV, int), SSHError>((m@, end as int)),
                Err(e) => spec_read_kex_ecdh_init(buf@, pos as int) == Err::<(MsgKexECDHInitV, int), SSHError>(e),
            },
    {
        let (q_c, p0) = match read_bytes(buf, pos) {
            Ok(v) => v,
            Err(e) => {
                return Err(e);
            },
        };
        Ok((MsgKexECDHInit { q_c }, p0))
    }

    /// Append the tag byte and the fields to `out`.
    pub fn write_ssh(&self, out: &mut Vec<u8>)
        requires
            spec_kex_ecdh_init_ok(self@),
        ensures
            final(out)@ == old(out)@ + seq![MAGIC_KEX_ECDH_INIT] + spec_kex_ecdh_init_fields(self@),
    {
        write_u8(out, MAGIC_KEX_ECDH_INIT);
        write_bytes(out, &self.q_c);
        assert(final(out)@ =~= old(out)@ + seq![MAGIC_KEX_ECDH_INIT] + spec_kex_ecdh_init_fields(self@));
    }
}

/// Reading bytes that are the field encoding of `v` yields `v`.
pub proof fn lemma_read_kex_ecdh_init_at(b: Seq<u8>, pos: int, v: MsgKexECDHInitV)
    requires
        0 <= pos,
        spec_kex_ecdh_init_ok(v),
        pos + spec_kex_ecdh_init_fields(v).len() <= b.len(),
        b.subrange(pos, pos + spec_kex_ecdh_init_fields(v).len()) == spec_kex_ecdh_init_fields(v),
    ensures
        spec_read_kex_ecdh_init(b, pos) == Ok::<(MsgKexECDHInitV, int), SSHError>(
            (v, pos + spec_kex_ecdh_init_fields(v).len()),
        ),
{
    let w0 = spec_bytes_wire(v.q_c);
    let r0 = w0;
    let p0 = pos;
    let p1 = p0 + w0.len();
    assert(spec_kex_ecdh_init_fields(v) =~= r0);
    lemma_read_bytes_at(b, p0, v.q_c);
}

#[derive(Clone, Debug, PartialEq)]
pub struct MsgKexECDHReply {
    pub k_s: Vec<u8>,
    pub q_s: Vec<u8>,
    pub signature: Vec<u8>,
}

/// Mathematical view of [`MsgKexECDHReply`].
pub struct MsgKexECDHReplyV {
    pub k_s: Seq<u8>,
    pub q_s: Seq<u8>,
    pub signature: Seq<u8>,
}

impl View for MsgKexECDHReply {
    type V = MsgKexECDHReplyV;

    open spec fn view(&self) -> MsgKexECDHReplyV {
        MsgKexECDHReplyV {
            k_s: self.k_s@,
            q_s: self.q_s@,
            signature: self.signature@,
        }
    }
}

/// Field bytes of the message, after its tag byte.
pub open spec fn spec_kex_ecdh_reply_fields(v: MsgKexECDHReplyV) -> Seq<u8> {
    spec_bytes_wire(v.k_s) + spec_bytes_wire(v.q_s) + spec_bytes_wire(v.signature)
}

/// Views whose wire form is faithful: lengths fit their prefixes and
/// name-lists contain representable tokens.
pub open spec fn spec_kex_ecdh_reply_ok(v: MsgKexECDHReplyV) -> bool {
    v.k_s.len() <= u32::MAX && v.q_s.len() <= u32::MAX && v.signature.len() <= u32::MAX
}

/// Outcome of decoding the fields of a `MsgKexECDHReply` at `pos`.
pub open spec fn spec_read_kex_ecdh_reply(b: Seq<u8>, pos: int) -> Result<(MsgKexECDHReplyV, int), SSHError> {
    match spec_read_bytes(b, pos) {
        Ok((k_s, p0)) => {
            match spec_read_bytes(b, p0) {
                Ok((q_s, p1)) => {
                    match spec_read_bytes(b, p1) {
                        Ok((signature, p2)) => {
                            Ok((MsgKexECDHReplyV { k_s, q_s, signature }, p2))
                        },
                        Err(e) => Err(e),
                    }
                },
                Err(e) => Err(e),
            }
        },
        Err(e) => Err(e),
    }
}

impl MsgKexECDHReply {
    /// Tag byte of this message on the wire.
    pub fn magic() -> (r: u8)
        ensures
            r == MAGIC_KEX_ECDH_REPLY,
    {
        MAGIC_KEX_ECDH_REPLY
    }

    /// Decode the fields (the bytes after the tag) starting at `pos`.
    pub fn read_ssh(buf: &Vec<u8>, pos: usize) -> (r: Result<(MsgKexECDHReply, usize), SSHError>)
        requires
            pos <= buf.len(),
        ensures
            match r {
                Ok((m, end)) => pos <= end <= buf.len() && spec_read_kex_ecdh_reply(buf@, pos as int)
                    == Ok::<(MsgKexECDHReplyV, int), SSHError>((m@, end as int)),
                Err(e) => spec_read_kex_ecdh_reply(buf@, pos as int) == Err::<(MsgKexECDHReplyV, int), SSHError>(e),
            },
    {
        let (k_s, p0) = match read_bytes(buf, pos) {
            Ok(v) => v,
            Err(e) => {
                return Err(e);
            },
        };
        let (q_s, p1) = match read_bytes(buf, p0) {
            Ok(v) => v,
            Err(e) => {
                return Err(e);
            },
        };
        let (signature, p2) = match read_bytes(buf, p1) {
            Ok(v) => v,
            Err(e) => {
                return Err(e);
            },
        };
        Ok((MsgKexECDHReply { k_s, q_s, signature }, p2))
    }

    /// Append the tag byte and the fields to `out`.
    pub fn write_ssh(&self, out: &mut Vec<u8>)
        requires
            spec_kex_ecdh_reply_ok(self@),
        ensures
            final(out)@ == old(out)@ + seq![MAGIC_KEX_ECDH_REPLY] + spec_kex_ecdh_reply_fields(self@),
    {
        write_u8(out, MAGIC_KEX_ECDH_REPLY);
        write_bytes(out, &self.k_s);
        write_bytes(out, &self.q_s);
        write_bytes(out, &self.signature);
        assert(final(out)@ =~= old(out)@ + seq![MAGIC_KEX_ECDH_REPLY] + spec_kex_ecdh_reply_fields(self@));
    }
}

/// Reading bytes that are the field encoding of `v` yields `v`.
pub proof fn lemma_read_kex_ecdh_reply_at(b: Seq<u8>, pos: int, v: MsgKexECDHReplyV)
    requires
        0 <= pos,
        spec_kex_ecdh_reply_ok(v),
        pos + spec_kex_ecdh_reply_fields(v).len() <= b.len(),
        b.subrange(pos, pos + spec_kex_ecdh_reply_fields(v).len()) == spec_kex_ecdh_reply_fields(v),
    ensures
        spec_read_kex_ecdh_reply(b, pos) == Ok::<(MsgKexECDHReplyV, int), SSHError>(
            (v, pos + spec_kex_ecdh_reply_fields(v).len()),
        ),
{
    let w0 = spec_bytes_wire(v.k_s);
    let w1 = spec_bytes_wire(v.q_s);
    let w2 = spec_bytes_wire(v.signature);
    let r2 = w2;
    let r1 = w1 + r2;
    let r0 = w0 + r1;
    let p0 = pos;
    let p1 = p0 + w0.len();
    let p2 = p1 + w1.len();
    let p3 = p2 + w2.len();
    assert(spec_kex_ecdh_reply_fields(v) =~= r0);
    lemma_subrange_concat(b, p0, w0, r1);
    lemma_read_bytes_at(b, p0, v.k_s);
    lemma_subrange_concat(b, p1, w1, r2);
    lemma_read_bytes_at(b, p1, v.q_s);
    lemma_read_bytes_at(b, p2, v.signature);
}

#[derive(Clone, Debug, PartialEq)]
pub struct MsgUserauthRequest {
    pub user_name: String,
    pub service_name: String,
    pub method_name: String,
}

/// Mathematical view of [`MsgUserauthRequest`].
pub struct MsgUserauthRequestV {
    pub user_name: Seq<char>,
    pub service_name: Seq<char>,
    pub method_name: Seq<char>,
}

impl View for MsgUserauthRequest {
    type V = MsgUserauthRequestV;

    open spec fn view(&self) -> MsgUserauthRequestV {
        MsgUserauthRequestV {
            user_name: self.user_name@,
            service_name: self.service_name@,
            method_name: self.method_name@,
        }
    }
}

/// Field bytes of the message, after its tag byte.
pub open spec fn spec_userauth_request_fields(v: MsgUserauthRequestV) -> Seq<u8> {
    spec_string_wire(v.user_name) + spec_string_wire(v.service_name) + spec_string_wire(v.method_name)
}

/// Views whose wire form is faithful: lengths fit their prefixes and
/// name-lists contain representable tokens.
pub open spec fn spec_userauth_request_ok(v: MsgUserauthRequestV) -> bool {
    spec_string_fits(v.user_name) && spec_string_fits(v.service_name) && spec_string_fits(v.method_name)
}

/// Outcome of decoding the fields of a `MsgUserauthRequest` at `pos`.
pub open spec fn spec_read_userauth_request(b: Seq<u8>, pos: int) -> Result<(MsgUserauthRequestV, int), SSHError> {
    match spec_read_string(b, pos) {
        Ok((user_name, p0)) => {
            match spec_read_string(b, p0) {
                Ok((service_name, p1)) => {
                    match spec_read_string(b, p1) {
                        Ok((method_name, p2)) => {
                            Ok((MsgUserauthRequestV { user_name, service_name, method_name }, p2))
                        },
                        Err(e) => Err(e),
                    }
                },
                Err(e) => Err(e),
            }
        },
        Err(e) => Err(e),
    }
}

impl MsgUserauthRequest {
    /// Tag byte of this message on the wire.
    pub fn magic() -> (r: u8)
        ensures
            r == MAGIC_USERAUTH_REQUEST,
    {
        MAGIC_USERAUTH_REQUEST
    }

    /// Decode the fields (the bytes after the tag) starting at `pos`.
    pub fn read_ssh(buf: &Vec<u8>, pos: usize) -> (r: Result<(MsgUserauthRequest, usize), SSHError>)
        requires
            pos <= buf.len(),
        ensures
            match r {
                Ok((m, end)) => pos <= end <= buf.len() && spec_read_userauth_request(buf@, pos as int)
                    == Ok::<(MsgUserauthRequestV, int), SSHError>((m@, end as int)),
                Err(e) => spec_read_userauth_request(buf@, pos as int) == Err::<(MsgUserauthRequestV, int), SSHError>(e),
            },
    {
        let (user_name, p0) = match read_string(buf, pos) {
            Ok(v) => v,
            Err(e) => {
                return Err(e);
            },
        };
        let (service_name, p1) = match read_string(buf, p0) {
            Ok(v) => v,
            Err(e) => {
                return Err(e);
            },
        };
        let (method_name, p2) = match read_string(buf, p1) {
            Ok(v) => v,
            Err(e) => {
                return Err(e);
            },
        };
        Ok((MsgUserauthRequest { user_name, service_name, method_name }, p2))
    }

    /// Append the tag byte and the fields to `out`.
    pub fn write_ssh(&self, out: &mut Vec<u8>)
        requires
            spec_userauth_request_ok(self@),
        ensures
            final(out)@ == old(out)@ + seq![MAGIC_USERAUTH_REQUEST] + spec_userauth_request_fields(self@),
    {
        write_u8(out, MAGIC_USERAUTH_REQUEST);
        write_string(out, &self.user_name);
        write_string(out, &self.service_name);
        write_string(out, &self.method_name);
        assert(final(out)@ =~= old(out)@ + seq![MAGIC_USERAUTH_REQUEST] + spec_userauth_request_fields(self@));
    }
}

/// Reading bytes that are the field encoding of `v` yields `v`.
pub proof fn lemma_read_userauth_request_at(b: Seq<u8>, pos: int, v: MsgUserauthRequestV)
    requires
        0 <= pos,
        spec_userauth_request_ok(v),
        pos + spec_userauth_request_fields(v).len() <= b.len(),
        b.subrange(pos, pos + spec_userauth_request_fields(v).len()) == spec_userauth_request_fields(v),
    ensures
        spec_read_userauth_request(b, pos) == Ok::<(MsgUserauthRequestV, int), SSHError>(
            (v, pos + spec_userauth_request_fields(v).len()),
        ),
{
    let w0 = spec_string_wire(v.user_name);
    let w1 = spec_string_wire(v.service_name);
    let w2 = spec_string_wire(v.method_name);
    let r2 = w2;
    let r1 = w1 + r2;
    let r0 = w0 + r1;
    let p0 = pos;
    let p1 = p0 + w0.len();
    let p2 = p1 + w1.len();
    let p3 = p2 + w2.len();
    assert(spec_userauth_request_fields(v) =~= r0);
    lemma_subrange_concat(b, p0, w0, r1);
    lemma_read_string_at(b, p0, v.user_name);
    lemma_subrange_concat(b, p1, w1, r2);
    lemma_read_string_at(b, p1, v.service_name);
    lemma_read_string_at(b, p2, v.method_name);
}

#[derive(Clone, Debug, PartialEq)]
pub struct MsgUserauthFailure {
    pub authentications_that_can_continue: Vec<String>,
    pub partial_success: bool,
}

/// Mathematical view of [`MsgUserauthFailure`].
pub struct MsgUserauthFailureV {
    pub authentications_that_can_continue: Seq<Seq<char>>,
    pub partial_success: bool,
}

impl View for MsgUserauthFailure {
    type V = MsgUserauthFailureV;

    open spec fn view(&self) -> MsgUserauthFailureV {
        MsgUserauthFailureV {
            authentications_that_can_continue: self.authentications_that_can_continue.deep_view(),
            partial_success: self.partial_success,
        }
    }
}

/// Field bytes of the message, after its tag byte.
pub open spec fn spec_userauth_failure_fields(v: MsgUserauthFailureV) -> Seq<u8> {
    spec_namelist_wire(v.authentications_that_can_continue) + spec_bool_wire(v.partial_success)
}

/// Views whose wire form is faithful: lengths fit their prefixes and
/// name-lists contain representable tokens.
pub open spec fn spec_userauth_failure_ok(v: MsgUserauthFailureV) -> bool {
    spec_namelist_ok(v.authentications_that_can_continue)
}

/// Outcome of decoding the fields of a `MsgUserauthFailure` at `pos`.
pub open spec fn spec_read_userauth_failure(b: Seq<u8>, pos: int) -> Result<(MsgUserauthFailureV, int), SSHError> {
    match spec_read_namelist(b, pos) {
        Ok((authentications_that_can_continue, p0)) => {
            match spec_read_bool(b, p0) {
                Ok((partial_success, p1)) => {
                    Ok((MsgUserauthFailureV { authentications_that_can_continue, partial_success }, p1))
                },
                Err(e) => Err(e),
            }
        },
        Err(e) => Err(e),
    }
}

impl MsgUserauthFailure {
    /// Tag byte of this message on the wire.
    pub fn magic() -> (r: u8)
        ensures
            r == MAGIC_USERAUTH_FAILURE,
    {
        MAGIC_USERAUTH_FAILURE
    }

    /// Decode the fields (the bytes after the tag) starting at `pos`.
    pub fn read_ssh(buf: &Vec<u8>, pos: usize) -> (r: Result<(MsgUserauthFailure, usize), SSHError>)
        requires
            pos <= buf.len(),
        ensures
            match r {
                Ok((m, end)) => pos <= end <= buf.len() && spec_read_userauth_failure(buf@, pos as int)
                    == Ok::<(MsgUserauthFailureV, int), SSHError>((m@, end as int)),
                Err(e) => spec_read_userauth_failure(buf@, pos as int) == Err::<(MsgUserauthFailureV, int), SSHError>(e),
            },
    {
        let (authentications_that_can_continue, p0) = match read_namelist(buf, pos) {
            Ok(v) => v,
            Err(e) => {
                return Err(e);
            },
        };
        let (partial_success, p1) = match read_bool(buf, p0) {
            Ok(v) => v,
            Err(e) => {
                return Err(e);
            },
        };
        Ok((MsgUserauthFailure { authentications_that_can_continue, partial_success }, p1))
    }

    /// Append the tag byte and the fields to `out`.
    pub fn write_ssh(&self, out: &mut Vec<u8>)
        requires
            spec_userauth_failure_ok(self@),
        ensures
            final(out)@ == old(out)@ + seq![MAGIC_USERAUTH_FAILURE] + spec_userauth_failure_fields(self@),
    {
        write_u8(out, MAGIC_USERAUTH_FAILURE);
        write_namelist(out, &self.authentications_that_can_continue);
        write_bool(out, self.partial_success);
        assert(final(out)@ =~= old(out)@ + seq![MAGIC_USERAUTH_FAILURE] + spec_userauth_failure_fields(self@));
    }
}

/// Reading bytes that are the field encoding of `v` yields `v`.
pub proof fn lemma_read_userauth_failure_at(b: Seq<u8>, pos: int, v: MsgUserauthFailureV)
    requires
        0 <= pos,
        spec_userauth_failure_ok(v),
        pos + spec_userauth_failure_fields(v).len() <= b.len(),
        b.subrange(pos, pos + spec_userauth_failure_fields(v).len()) == spec_userauth_failure_fields(v),
    ensures
        spec_read_userauth_failure(b, pos) == Ok::<(MsgUserauthFailureV, int), SSHError>(
            (v, pos + spec_userauth_failure_fields(v).len()),
        ),
{
    let w0 = spec_namelist_wire(v.authentications_that_can_continue);
    let w1 = spec_bool_wire(v.partial_success);
    let r1 = w1;
    let r0 = w0 + r1;
    let p0 = pos;
    let p1 = p0 + w0.len();
    let p2 = p1 + w1.len();
    assert(spec_userauth_failure_fields(v) =~= r0);
    lemma_subrange_concat(b, p0, w0, r1);
    lemma_read_namelist_at(b, p0, v.authentications_that_can_continue);
    lemma_read_bool_at(b, p1, v.partial_success);
}

#[derive(Clone, Debug, PartialEq)]
pub struct MsgUserauthSuccess {
}

/// Mathematical view of [`MsgUserauthSuccess`].
pub struct MsgUserauthSuccessV {
}

impl View for MsgUserauthSuccess {
    type V = MsgUserauthSuccessV;

    open spec fn view(&self) -> MsgUserauthSuccessV {
        MsgUserauthSuccessV {
        }
    }
}

/// Field bytes of the message, after its tag byte.
pub open spec fn spec_userauth_success_fields(v: MsgUserauthSuccessV) -> Seq<u8> {
    Seq::empty()
}

/// Views whose wire form is faithful: lengths fit their prefixes and
/// name-lists contain representable tokens.
pub open spec fn spec_userauth_success_ok(v: MsgUserauthSuccessV) -> bool {
    true
}

/// Outcome of decoding the fields of a `MsgUserauthSuccess` at `pos`.
pub open spec fn spec_read_userauth_success(b: Seq<u8>, pos: int) -> Result<(MsgUserauthSuccessV, int), SSHError> {
    Ok((MsgUserauthSuccessV {  }, pos))
}

impl MsgUserauthSuccess {
    /// Tag byte of this message on the wire.
    pub fn magic() -> (r: u8)
        ensures
            r == MAGIC_USERAUTH_SUCCESS,
    {
        MAGIC_USERAUTH_SUCCESS
    }

    /// Decode the fields (the bytes after the tag) starting at `pos`.
    pub fn read_ssh(buf: &Vec<u8>, pos: usize) -> (r: Result<(MsgUserauthSuccess, usize), SSHError>)
        requires
            pos <= buf.len(),
        ensures
            match r {
                Ok((m, end)) => pos <= end <= buf.len() && spec_read_userauth_success(buf@, pos as int)
                    == Ok::<(MsgUserauthSuccessV, int), SSHError>((m@, end as int)),
                Err(e) => spec_read_userauth_success(buf@, pos as int) == Err::<(MsgUserauthSuccessV, int), SSHError>(e),
            },
    {
        Ok((MsgUserauthSuccess {  }, pos))
    }

    /// Append the tag byte and the fields to `out`.
    pub fn write_ssh(&self, out: &mut Vec<u8>)
        requires
            spec_userauth_success_ok(self@),
        ensures
            final(out)@ == old(out)@ + seq![MAGIC_USERAUTH_SUCCESS] + spec_userauth_success_fields(self@),
    {
        write_u8(out, MAGIC_USERAUTH_SUCCESS);
        assert(final(out)@ =~= old(out)@ + seq![MAGIC_USERAUTH_SUCCESS] + spec_userauth_success_fields(self@));
    }
}

/// Reading bytes that are the field encoding of `v` yields `v`.
pub proof fn lemma_read_userauth_success_at(b: Seq<u8>, pos: int, v: MsgUserauthSuccessV)
    requires
        0 <= pos,
        spec_userauth_success_ok(v),
        pos + spec_userauth_success_fields(v).len() <= b.len(),
        b.subrange(pos, pos + spec_userauth_success_fields(v).len()) == spec_userauth_success_fields(v),
    ensures
        spec_read_userauth_success(b, pos) == Ok::<(MsgUserauthSuccessV, int), SSHError>(
            (v, pos + spec_userauth_success_fields(v).len()),
        ),
{
}

#[derive(Clone, Debug, PartialEq)]
pub struct MsgUserauthBanner {
    pub message: String,
    pub language_tag: String,
}

/// Mathematical view of [`MsgUserauthBanner`].
pub struct MsgUserauthBannerV {
    pub message: Seq<char>,
    pub language_tag: Seq<char>,
}

impl View for MsgUserauthBanner {
    type V = MsgUserauthBannerV;

    open spec fn view(&self) -> MsgUserauthBannerV {
        MsgUserauthBannerV {
            message: self.message@,
            language_tag: self.language_tag@,
        }
    }
}

/// Field bytes of the message, after its tag byte.
pub open spec fn spec_userauth_banner_fields(v: MsgUserauthBannerV) -> Seq<u8> {
    spec_string_wire(v.message) + spec_string_wire(v.language_tag)
}

/// Views whose wire form is faithful: lengths fit their prefixes and
/// name-lists contain representable tokens.
pub open spec fn spec_userauth_banner_ok(v: MsgUserauthBannerV) -> bool {
    spec_string_fits(v.message) && spec_string_fits(v.language_tag)
}

/// Outcome of decoding the fields of a `MsgUserauthBanner` at `pos`.
pub open spec fn spec_read_userauth_banner(b: Seq<u8>, pos: int) -> Result<(MsgUserauthBannerV, int), SSHError> {
    match spec_read_string(b, pos) {
        Ok((message, p0)) => {
            match spec_read_string(b, p0) {
                Ok((language_tag, p1)) => {
                    Ok((MsgUserauthBannerV { message, language_tag }, p1))
                },
                Err(e) => Err(e),
            }
        },
        Err(e) => Err(e),
    }
}

impl MsgUserauthBanner {
    /// Tag byte of this message on the wire.
    pub fn magic() -> (r: u8)
        ensures
            r == MAGIC_USERAUTH_BANNER,
    {
        MAGIC_USERAUTH_BANNER
    }

    /// Decode the fields (the bytes after the tag) starting at `pos`.
    pub fn read_ssh(buf: &Vec<u8>, pos: usize) -> (r: Result<(MsgUserauthBanner, usize), SSHError>)
        requires
            pos <= buf.len(),
        ensures
            match r {
                Ok((m, end)) => pos <= end <= buf.len() && spec_read_userauth_banner(buf@, pos as int)
                    == Ok::<(MsgUserauthBannerV, int), SSHError>((m@, end as int)),
                Err(e) => spec_read_userauth_banner(buf@, pos as int) == Err::<(MsgUserauthBannerV, int), SSHError>(e),
            },
    {
        let (message, p0) = match read_string(buf, pos) {
            Ok(v) => v,
            Err(e) => {
                return Err(e);
            },
        };
        let (language_tag, p1) = match read_string(buf, p0) {
            Ok(v) => v,
            Err(e) => {
                return Err(e);
            },
        };
        Ok((MsgUserauthBanner { message, language_tag }, p1))
    }

    /// Append the tag byte and the fields to `out`.
    pub fn write_ssh(&self, out: &mut Vec<u8>)
        requires
            spec_userauth_banner_ok(self@),
        ensures
            final(out)@ == old(out)@ + seq![MAGIC_USERAUTH_BANNER] + spec_userauth_banner_fields(self@),
    {
        write_u8(out, MAGIC_USERAUTH_BANNER);
        write_string(out, &self.message);
        write_string(out, &self.language_tag);
        assert(final(out)@ =~= old(out)@ + seq![MAGIC_USERAUTH_BANNER] + spec_userauth_banner_fields(self@));
    }
}

/// Reading bytes that are the field encoding of `v` yields `v`.
pub proof fn lemma_read_userauth_banner_at(b: Seq<u8>, pos: int, v: MsgUserauthBannerV)
    requires
        0 <= pos,
        spec_userauth_banner_ok(v),
        pos + spec_userauth_banner_fields(v).len() <= b.len(),
        b.subrange(pos, pos + spec_userauth_banner_fields(v).len()) == spec_userauth_banner_fields(v),
    ensures
        spec_read_userauth_banner(b, pos) == Ok::<(MsgUserauthBannerV, int), SSHError>(
            (v, pos + spec_userauth_banner_fields(v).len()),
        ),
{
    let w0 = spec_string_wire(v.message);
    let w1 = spec_string_wire(v.language_tag);
    let r1 = w1;
    let r0 = w0 + r1;
    let p0 = pos;
    let p1 = p0 + w0.len();
    let p2 = p1 + w1.len();
    assert(spec_userauth_banner_fields(v) =~= r0);
    lemma_subrange_concat(b, p0, w0, r1);
    lemma_read_string_at(b, p0, v.message);
    lemma_read_string_at(b, p1, v.language_tag);
}

#[derive(Clone, Debug, PartialEq)]
pub struct MsgGlobalRequest {
    pub request_name: String,
    pub want_reply: bool,
}

/// Mathematical view of [`MsgGlobalRequest`].
pub struct MsgGlobalRequestV {
    pub request_name: Seq<char>,
    pub want_reply: bool,
}

impl View for MsgGlobalRequest {
    type V = MsgGlobalRequestV;

    open spec fn view(&self) -> MsgGlobalRequestV {
        MsgGlobalRequestV {
            request_name: self.request_name@,
            want_reply: self.want_reply,
        }
    }
}

/// Field bytes of the message, after its tag byte.
pub open spec fn spec_global_request_fields(v: MsgGlobalRequestV) -> Seq<u8> {
    spec_string_wire(v.request_name) + spec_bool_wire(v.want_reply)
}

/// Views whose wire form is faithful: lengths fit their prefixes and
/// name-lists contain representable tokens.
pub open spec fn spec_global_request_ok(v: MsgGlobalRequestV) -> bool {
    spec_string_fits(v.request_name)
}

/// Outcome of decoding the fields of a `MsgGlobalRequest` at `pos`.
pub open spec fn spec_read_global_request(b: Seq<u8>, pos: int) -> Result<(MsgGlobalRequestV, int), SSHError> {
    match spec_read_string(b, pos) {
        Ok((request_name, p0)) => {
            match spec_read_bool(b, p0) {
                Ok((want_reply, p1)) => {
                    Ok((MsgGlobalRequestV { request_name, want_reply }, p1))
                },
                Err(e) => Err(e),
            }
        },
        Err(e) => Err(e),
    }
}

impl MsgGlobalRequest {
    /// Tag byte of this message on the wire.
    pub fn magic() -> (r: u8)
        ensures
            r == MAGIC_GLOBAL_REQUEST,
    {
        MAGIC_GLOBAL_REQUEST
    }

    /// Decode the fields (the bytes after the tag) starting at `pos`.
    pub fn read_ssh(buf: &Vec<u8>, pos: usize) -> (r: Result<(MsgGlobalRequest, usize), SSHError>)
        requires
            pos <= buf.len(),
        ensures
            match r {
                Ok((m, end)) => pos <= end <= buf.len() && spec_read_global_request(buf@, pos as int)
                    == Ok::<(MsgGlobalRequestV, int), SSHError>((m@, end as int)),
                Err(e) => spec_read_global_request(buf@, pos as int) == Err::<(MsgGlobalRequestV, int), SSHError>(e),
            },
    {
        let (request_name, p0) = match read_string(buf, pos) {
            Ok(v) => v,
            Err(e) => {
                return Err(e);
            },
        };
        let (want_reply, p1) = match read_bool(buf, p0) {
            Ok(v) => v,
            Err(e) => {
                return Err(e);
            },
        };
        Ok((MsgGlobalRequest { request_name, want_reply }, p1))
    }

    /// Append the tag byte and the fields to `out`.
    pub fn write_ssh(&self, out: &mut Vec<u8>)
        requires
            spec_global_request_ok(self@),
        ensures
            final(out)@ == old(out)@ + seq![MAGIC_GLOBAL_REQUEST] + spec_global_request_fields(self@),
    {
        write_u8(out, MAGIC_GLOBAL_REQUEST);
        write_string(out, &self.request_name);
        write_bool(out, self.want_reply);
        assert(final(out)@ =~= old(out)@ + seq![MAGIC_GLOBAL_REQUEST] + spec_global_request_fields(self@));
    }
}

/// Reading bytes that are the field encoding of `v` yields `v`.
pub proof fn lemma_read_global_request_at(b: Seq<u8>, pos: int, v: MsgGlobalRequestV)
    requires
        0 <= pos,
        spec_global_request_ok(v),
        pos + spec_global_request_fields(v).len() <= b.len(),
        b.subrange(pos, pos + spec_global_request_fields(v).len()) == spec_global_request_fields(v),
    ensures
        spec_read_global_request(b, pos) == Ok::<(MsgGlobalRequestV, int), SSHError>(
            (v, pos + spec_global_request_fields(v).len()),
        ),
{
    let w0 = spec_string_wire(v.request_name);
    let w1 = spec_bool_wire(v.want_reply);
    let r1 = w1;
    let r0 = w0 + r1;
    let p0 = pos;
    let p1 = p0 + w0.len();
    let p2 = p1 + w1.len();
    assert(spec_global_request_fields(v) =~= r0);
    lemma_subrange_concat(b, p0, w0, r1);
    lemma_read_string_at(b, p0, v.request_name);
    lemma_read_bool_at(b, p1, v.want_reply);
}

#[derive(Clone, Debug, PartialEq)]
pub struct MsgRequestSuccess {
    pub data: Vec<u8>,
}

/// Mathematical view of [`MsgRequestSuccess`].
pub struct MsgRequestSuccessV {
    pub data: Seq<u8>,
}

impl View for MsgRequestSuccess {
    type V = MsgRequestSuccessV;

    open spec fn view(&self) -> MsgRequestSuccessV {
        MsgRequestSuccessV {
            data: self.data@,
        }
    }
}

/// Field bytes of the message, after its tag byte.
pub open spec fn spec_request_success_fields(v: MsgRequestSuccessV) -> Seq<u8> {
    spec_bytes_wire(v.data)
}

/// Views whose wire form is faithful: lengths fit their prefixes and
/// name-lists contain representable tokens.
pub open spec fn spec_request_success_ok(v: MsgRequestSuccessV) -> bool {
    v.data.len() <= u32::MAX
}

/// Outcome of decoding the fields of a `MsgRequestSuccess` at `pos`.
pub open spec fn spec_read_request_success(b: Seq<u8>, pos: int) -> Result<(MsgRequestSuccessV, int), SSHError> {
    match spec_read_bytes(b, pos) {
        Ok((data, p0)) => {
            Ok((MsgRequestSuccessV { data }, p0))
        },
        Err(e) => Err(e),
    }
}

impl MsgRequestSuccess {
    /// Tag byte of this message on the wire.
    pub fn magic() -> (r: u8)
        ensures
            r == MAGIC_REQUEST_SUCCESS,
    {
        MAGIC_REQUEST_SUCCESS
    }

    /// Decode the fields (the bytes after the tag) starting at `pos`.
    pub fn read_ssh(buf: &Vec<u8>, pos: usize) -> (r: Result<(MsgRequestSuccess, usize), SSHError>)
        requires
            pos <= buf.len(),
        ensures
            match r {
                Ok((m, end)) => pos <= end <= buf.len() && spec_read_request_success(buf@, pos as int)
                    == Ok::<(MsgRequestSuccessV, int), SSHError>((m@, end as int)),
                Err(e) => spec_read_request_success(buf@, pos as int) == Err::<(MsgRequestSuccessV, int), SSHError>(e),
            },
    {
        let (data, p0) = match read_bytes(buf, pos) {
            Ok(v) => v,
            Err(e) => {
                return Err(e);
            },
        };
        Ok((MsgRequestSuccess { data }, p0))
    }

    /// Append the tag byte and the fields to `out`.
    pub fn write_ssh(&self, out: &mut Vec<u8>)
        requires
            spec_request_success_ok(self@),
        ensures
            final(out)@ == old(out)@ + seq![MAGIC_REQUEST_SUCCESS] + spec_request_success_fields(self@),
    {
        write_u8(out, MAGIC_REQUEST_SUCCESS);
        write_bytes(out, &self.data);
        assert(final(out)@ =~= old(out)@ + seq![MAGIC_REQUEST_SUCCESS] + spec_request_success_fields(self@));
    }
}

/// Reading bytes that are the field encoding of `v` yields `v`.
pub proof fn lemma_read_request_success_at(b: Seq<u8>, pos: int, v: MsgRequestSuccessV)
    requires
        0 <= pos,
        spec_request_success_ok(v),
        pos + spec_request_success_fields(v).len() <= b.len(),
        b.subrange(pos, pos + spec_request_success_fields(v).len()) == spec_request_success_fields(v),
    ensures
        spec_read_request_success(b, pos) == Ok::<(MsgRequestSuccessV, int), SSHError>(
            (v, pos + spec_request_success_fields(v).len()),
        ),
{
    let w0 = spec_bytes_wire(v.data);
    let r0 = w0;
    let p0 = pos;
    let p1 = p0 + w0.len();
    assert(spec_request_success_fields(v) =~= r0);
    lemma_read_bytes_at(b, p0, v.data);
}

#[derive(Clone, Debug, PartialEq)]
pub struct MsgRequestFailure {
}

/// Mathematical view of [`MsgRequestFailure`].
pub struct MsgRequestFailureV {
}

impl View for MsgRequestFailure {
    type V = MsgRequestFailureV;

    open spec fn view(&self) -> MsgRequestFailureV {
        MsgRequestFailureV {
        }
    }
}

/// Field bytes of the message, after its tag byte.
pub open spec fn spec_request_failure_fields(v: MsgRequestFailureV) -> Seq<u8> {
    Seq::empty()
}

/// Views whose wire form is faithful: lengths fit their prefixes and
/// name-lists contain representable tokens.
pub open spec fn spec_request_failure_ok(v: MsgRequestFailureV) -> bool {
    true
}

/// Outcome of decoding the fields of a `MsgRequestFailure` at `pos`.
pub open spec fn spec_read_request_failure(b: Seq<u8>, pos: int) -> Result<(MsgRequestFailureV, int), SSHError> {
    Ok((MsgRequestFailureV {  }, pos))
}

impl MsgRequestFailure {
    /// Tag byte of this message on the wire.
    pub fn magic() -> (r: u8)
        ensures
            r == MAGIC_REQUEST_FAILURE,
    {
        MAGIC_REQUEST_FAILURE
    }

    /// Decode the fields (the bytes after the tag) starting at `pos`.
    pub fn read_ssh(buf: &Vec<u8>, pos: usize) -> (r: Result<(MsgRequestFailure, usize), SSHError>)
        requires
            pos <= buf.len(),
        ensures
            match r {
                Ok((m, end)) => pos <= end <= buf.len() && spec_read_request_failure(buf@, pos as int)
                    == Ok::<(MsgRequestFailureV, int), SSHError>((m@, end as int)),
                Err(e) => spec_read_request_failure(buf@, pos as int) == Err::<(MsgRequestFailureV, int), SSHError>(e),
            },
    {
        Ok((MsgRequestFailure {  }, pos))
    }

    /// Append the tag byte and the fields to `out`.
    pub fn write_ssh(&self, out: &mut Vec<u8>)
        requires
            spec_request_failure_ok(self@),
        ensures
            final(out)@ == old(out)@ + seq![MAGIC_REQUEST_FAILURE] + spec_request_failure_fields(self@),
    {
        write_u8(out, MAGIC_REQUEST_FAILURE);
        assert(final(out)@ =~= old(out)@ + seq![MAGIC_REQUEST_FAILURE] + spec_request_failure_fields(self@));
    }
}

/// Reading bytes that are the field encoding of `v` yields `v`.
pub proof fn lemma_read_request_failure_at(b: Seq<u8>, pos: int, v: MsgRequestFailureV)
    requires
        0 <= pos,
        spec_request_failure_ok(v),
        pos + spec_request_failure_fields(v).len() <= b.len(),
        b.subrange(pos, pos + spec_request_failure_fields(v).len()) == spec_request_failure_fields(v),
    ensures
        spec_read_request_failure(b, pos) == Ok::<(MsgRequestFailureV, int), SSHError>(
            (v, pos + spec_request_failure_fields(v).len()),
        ),
{
}

#[derive(Clone, Debug, PartialEq)]
pub struct MsgChannelOpen {
    pub channel_type: String,
    pub sender_channel: u32,
    pub initial_window_size: u32,
    pub maximum_packet_size: u32,
}

/// Mathematical view of [`MsgChannelOpen`].
pub struct MsgChannelOpenV {
    pub channel_type: Seq<char>,
    pub sender_channel: u32,
    pub initial_window_size: u32,
    pub maximum_packet_size: u32,
}

impl View for MsgChannelOpen {
    type V = MsgChannelOpenV;

    open spec fn view(&self) -> MsgChannelOpenV {
        MsgChannelOpenV {
            channel_type: self.channel_type@,
            sender_channel: self.sender_channel,
            initial_window_size: self.initial_window_size,
            maximum_packet_size: self.maximum_packet_size,
        }
    }
}

/// Field bytes of the message, after its tag byte.
pub open spec fn spec_channel_open_fields(v: MsgChannelOpenV) -> Seq<u8> {
    spec_string_wire(v.channel_type) + spec_be32(v.sender_channel) + spec_be32(v.initial_window_size) + spec_be32(v.maximum_packet_size)
}

/// Views whose wire form is faithful: lengths fit their prefixes and
/// name-lists contain representable tokens.
pub open spec fn spec_channel_open_ok(v: MsgChannelOpenV) -> bool {
    spec_string_fits(v.channel_type)
}

/// Outcome of decoding the fields of a `MsgChannelOpen` at `pos`.
pub open spec fn spec_read_channel_open(b: Seq<u8>, pos: int) -> Result<(MsgChannelOpenV, int), SSHError> {
    match spec_read_string(b, pos) {
        Ok((channel_type, p0)) => {
            match spec_read_u32(b, p0) {
                Ok((sender_channel, p1)) => {
                    match spec_read_u32(b, p1) {
                        Ok((initial_window_size, p2)) => {
                            match spec_read_u32(b, p2) {
                                Ok((maximum_packet_size, p3)) => {
                                    Ok((MsgChannelOpenV { channel_type, sender_channel, initial_window_size, maximum_packet_size }, p3))
                                },
                                Err(e) => Err(e),
                            }
                        },
                        Err(e) => Err(e),
                    }
                },
                Err(e) => Err(e),
            }
        },
        Err(e) => Err(e),
    }
}

impl MsgChannelOpen {
    /// Tag byte of this message on the wire.
    pub fn magic() -> (r: u8)
        ensures
            r == MAGIC_CHANNEL_OPEN,
    {
        MAGIC_CHANNEL_OPEN
    }

    /// Decode the fields (the bytes after the tag) starting at `pos`.
    pub fn read_ssh(buf: &Vec<u8>, pos: usize) -> (r: Result<(MsgChannelOpen, usize), SSHError>)
        requires
            pos <= buf.len(),
        ensures
            match r {
                Ok((m, end)) => pos <= end <= buf.len() && spec_read_channel_open(buf@, pos as int)
                    == Ok::<(MsgChannelOpenV, int), SSHError>((m@, end as int)),
                Err(e) => spec_read_channel_open(buf@, pos as int) == Err::<(MsgChannelOpenV, int), SSHError>(e),
            },
    {
        let (channel_type, p0) = match read_string(buf, pos) {
            Ok(v) => v,
            Err(e) => {
                return Err(e);
            },
        };
        let (sender_channel, p1) = match read_u32(buf, p0) {
            Ok(v) => v,
            Err(e) => {
                return Err(e);
            },
        };
        let (initial_window_size, p2) = match read_u32(buf, p1) {
            Ok(v) => v,
            Err(e) => {
                return Err(e);
            },
        };
        let (maximum_packet_size, p3) = match read_u32(buf, p2) {
            Ok(v) => v,
            Err(e) => {
                return Err(e);
            },
        };
        Ok((MsgChannelOpen { channel_type, sender_channel, initial_window_size, maximum_packet_size }, p3))
    }

    /// Append the tag byte and the fields to `out`.
    pub fn write_ssh(&self, out: &mut Vec<u8>)
        requires
            spec_channel_open_ok(self@),
        ensures
            final(out)@ == old(out)@ + seq![MAGIC_CHANNEL_OPEN] + spec_channel_open_fields(self@),
    {
        write_u8(out, MAGIC_CHANNEL_OPEN);
        write_string(out, &self.channel_type);
        write_u32(out, self.sender_channel);
        write_u32(out, self.initial_window_size);
        write_u32(out, self.maximum_packet_size);
        assert(final(out)@ =~= old(out)@ + seq![MAGIC_CHANNEL_OPEN] + spec_channel_open_fields(self@));
    }
}

/// Reading bytes that are the field encoding of `v` yields `v`.
pub proof fn lemma_read_channel_open_at(b: Seq<u8>, pos: int, v: MsgChannelOpenV)
    requires
        0 <= pos,
        spec_channel_open_ok(v),
        pos + spec_channel_open_fields(v).len() <= b.len(),
        b.subrange(pos, pos + spec_channel_open_fields(v).len()) == spec_channel_open_fields(v),
    ensures
        spec_read_channel_open(b, pos) == Ok::<(MsgChannelOpenV, int), SSHError>(
            (v, pos + spec_channel_open_fields(v).len()),
        ),
{
    let w0 = spec_string_wire(v.channel_type);
    let w1 = spec_be32(v.sender_channel);
    let w2 = spec_be32(v.initial_window_size);
    let w3 = spec_be32(v.maximum_packet_size);
    let r3 = w3;
    let r2 = w2 + r3;
    let r1 = w1 + r2;
    let r0 = w0 + r1;
    let p0 = pos;
    let p1 = p0 + w0.len();
    let p2 = p1 + w1.len();
    let p3 = p2 + w2.len();
    let p4 = p3 + w3.len();
    assert(spec_channel_open_fields(v) =~= r0);
    lemma_subrange_concat(b, p0, w0, r1);
    lemma_read_string_at(b, p0, v.channel_type);
    lemma_subrange_concat(b, p1, w1, r2);
    lemma_read_u32_at(b, p1, v.sender_channel);
    lemma_subrange_concat(b, p2, w2, r3);
    lemma_read_u32_at(b, p2, v.initial_window_size);
    lemma_read_u32_at(b, p3, v.maximum_packet_size);
}

#[derive(Clone, Debug, PartialEq)]
pub struct MsgChannelOpenConfirmation {
    pub recipient_channel: u32,
    pub sender_channel: u32,
    pub initial_window_size: u32,
    pub maximum_packet_size: u32,
}

/// Mathematical view of [`MsgChannelOpenConfirmation`].
pub struct MsgChannelOpenConfirmationV {
    pub recipient_channel: u32,
    pub sender_channel: u32,
    pub initial_window_size: u32,
    pub maximum_packet_size: u32,
}

impl View for MsgChannelOpenConfirmation {
    type V = MsgChannelOpenConfirmationV;

    open spec fn view(&self) -> MsgChannelOpenConfirmationV {
        MsgChannelOpenConfirmationV {
            recipient_channel: self.recipient_channel,
            sender_channel: self.sender_channel,
            initial_window_size: self.initial_window_size,
            maximum_packet_size: self.maximum_packet_size,
        }
    }
}

/// Field bytes of the message, after its tag byte.
pub open spec fn spec_channel_open_confirmation_fields(v: MsgChannelOpenConfirmationV) -> Seq<u8> {
    spec_be32(v.recipient_channel) + spec_be32(v.sender_channel) + spec_be32(v.initial_window_size) + spec_be32(v.maximum_packet_size)
}

/// Views whose wire form is faithful: lengths fit their prefixes and
/// name-lists contain representable tokens.
pub open spec fn spec_channel_open_confirmation_ok(v: MsgChannelOpenConfirmationV) -> bool {
    true
}

/// Outcome of decoding the fields of a `MsgChannelOpenConfirmation` at `pos`.
pub open spec fn spec_read_channel_open_confirmation(b: Seq<u8>, pos: int) -> Result<(MsgChannelOpenConfirmationV, int), SSHError> {
    match spec_read_u32(b, pos) {
        Ok((recipient_channel, p0)) => {
            match spec_read_u32(b, p0) {
                Ok((sender_channel, p1)) => {
                    match spec_read_u32(b, p1) {
                        Ok((initial_window_size, p2)) => {
                            match spec_read_u32(b, p2) {
                                Ok((maximum_packet_size, p3)) => {
                                    Ok((MsgChannelOpenConfirmationV { recipient_channel, sender_channel, initial_window_size, maximum_packet_size }, p3))
                                },
                                Err(e) => Err(e),
                            }
                        },
                        Err(e) => Err(e),
                    }
                },
                Err(e) => Err(e),
            }
        },
        Err(e) => Err(e),
    }
}

impl MsgChannelOpenConfirmation {
    /// Tag byte of this message on the wire.
    pub fn magic() -> (r: u8)
        ensures
            r == MAGIC_CHANNEL_OPEN_CONFIRMATION,
    {
        MAGIC_CHANNEL_OPEN_CONFIRMATION
    }

    /// Decode the fields (the bytes after the tag) starting at `pos`.
    pub fn read_ssh(buf: &Vec<u8>, pos: usize) -> (r: Result<(MsgChannelOpenConfirmation, usize), SSHError>)
        requires
            pos <= buf.len(),
        ensures
            match r {
                Ok((m, end)) => pos <= end <= buf.len() && spec_read_channel_open_confirmation(buf@, pos as int)
                    == Ok::<(MsgChannelOpenConfirmationV, int), SSHError>((m@, end as int)),
                Err(e) => spec_read_channel_open_confirmation(buf@, pos as int) == Err::<(MsgChannelOpenConfirmationV, int), SSHError>(e),
            },
    {
        let (recipient_channel, p0) = match read_u32(buf, pos) {
            Ok(v) => v,
            Err(e) => {
                return Err(e);
            },
        };
        let (sender_channel, p1) = match read_u32(buf, p0) {
            Ok(v) => v,
            Err(e) => {
                return Err(e);
            },
        };
        let (initial_window_size, p2) = match read_u32(buf, p1) {
            Ok(v) => v,
            Err(e) => {
                return Err(e);
            },
        };
        let (maximum_packet_size, p3) = match read_u32(buf, p2) {
            Ok(v) => v,
            Err(e) => {
                return Err(e);
            },
        };
        Ok((MsgChannelOpenConfirmation { recipient_channel, sender_channel, initial_window_size, maximum_packet_size }, p3))
    }

    /// Append the tag byte and the fields to `out`.
    pub fn write_ssh(&self, out: &mut Vec<u8>)
        requires
            spec_channel_open_confirmation_ok(self@),
        ensures
            final(out)@ == old(out)@ + seq![MAGIC_CHANNEL_OPEN_CONFIRMATION] + spec_channel_open_confirmation_fields(self@),
    {
        write_u8(out, MAGIC_CHANNEL_OPEN_CONFIRMATION);
        write_u32(out, self.recipient_channel);
        write_u32(out, self.sender_channel);
        write_u32(out, self.initial_window_size);
        write_u32(out, self.maximum_packet_size);
        assert(final(out)@ =~= old(out)@ + seq![MAGIC_CHANNEL_OPEN_CONFIRMATION] + spec_channel_open_confirmation_fields(self@));
    }
}

/// Reading bytes that are the field encoding of `v` yields `v`.
pub proof fn lemma_read_channel_open_confirmation_at(b: Seq<u8>, pos: int, v: MsgChannelOpenConfirmationV)
    requires
        0 <= pos,
        spec_channel_open_confirmation_ok(v),
        pos + spec_channel_open_confirmation_fields(v).len() <= b.len(),
        b.subrange(pos, pos + spec_channel_open_confirmation_fields(v).len()) == spec_channel_open_confirmation_fields(v),
    ensures
        spec_read_channel_open_confirmation(b, pos) == Ok::<(MsgChannelOpenConfirmationV, int), SSHError>(
            (v, pos + spec_channel_open_confirmation_fields(v).len()),
        ),
{
    let w0 = spec_be32(v.recipient_channel);
    let w1 = spec_be32(v.sender_channel);
    let w2 = spec_be32(v.initial_window_size);
    let w3 = spec_be32(v.maximum_packet_size);
    let r3 = w3;
    let r2 = w2 + r3;
    let r1 = w1 + r2;
    let r0 = w0 + r1;
    let p0 = pos;
    let p1 = p0 + w0.len();
    let p2 = p1 + w1.len();
    let p3 = p2 + w2.len();
    let p4 = p3 + w3.len();
    assert(spec_channel_open_confirmation_fields(v) =~= r0);
    lemma_subrange_concat(b, p0, w0, r1);
    lemma_read_u32_at(b, p0, v.recipient_channel);
    lemma_subrange_concat(b, p1, w1, r2);
    lemma_read_u32_at(b, p1, v.sender_channel);
    lemma_subrange_concat(b, p2, w2, r3);
    lemma_read_u32_at(b, p2, v.initial_window_size);
    lemma_read_u32_at(b, p3, v.maximum_packet_size);
}

#[derive(Clone, Debug, PartialEq)]
pub struct MsgChannelOpenFailure {
    pub recipient_channel: u32,
    pub reason_code: ChannelOpenFailureReasonCode,
    pub description: String,
    pub language_tag: String,
}

/// Mathematical view of [`MsgChannelOpenFailure`].
pub struct MsgChannelOpenFailureV {
    pub recipient_channel: u32,
    pub reason_code: ChannelOpenFailureReasonCode,
    pub description: Seq<char>,
    pub language_tag: Seq<char>,
}

impl View for MsgChannelOpenFailure {
    type V = MsgChannelOpenFailureV;

    open spec fn view(&self) -> MsgChannelOpenFailureV {
        MsgChannelOpenFailureV {
            recipient_channel: self.recipient_channel,
            reason_code: self.reason_code,
            description: self.description@,
            language_tag: self.language_tag@,
        }
    }
}

/// Field bytes of the message, after its tag byte.
pub open spec fn spec_channel_open_failure_fields(v: MsgChannelOpenFailureV) -> Seq<u8> {
    spec_be32(v.recipient_channel) + spec_be32(spec_open_failure_code_u32(v.reason_code)) + spec_string_wire(v.description) + spec_string_wire(v.language_tag)
}

/// Views whose wire form is faithful: lengths fit their prefixes and
/// name-lists contain representable tokens.
pub open spec fn spec_channel_open_failure_ok(v: MsgChannelOpenFailureV) -> bool {
    spec_string_fits(v.description) && spec_string_fits(v.language_tag)
}

/// Outcome of decoding the fields of a `MsgChannelOpenFailure` at `pos`.
pub open spec fn spec_read_channel_open_failure(b: Seq<u8>, pos: int) -> Result<(MsgChannelOpenFailureV, int), SSHError> {
    match spec_read_u32(b, pos) {
        Ok((recipient_channel, p0)) => {
            match spec_read_open_failure_code(b, p0) {
                Ok((reason_code, p1)) => {
                    match spec_read_string(b, p1) {
                        Ok((description, p2)) => {
                            match spec_read_string(b, p2) {
                                Ok((language_tag, p3)) => {
                                    Ok((MsgChannelOpenFailureV { recipient_channel, reason_code, description, language_tag }, p3))
                                },
                                Err(e) => Err(e),
                            }
                        },
                        Err(e) => Err(e),
                    }
                },
                Err(e) => Err(e),
            }
        },
        Err(e) => Err(e),
    }
}

impl MsgChannelOpenFailure {
    /// Tag byte of this message on the wire.
    pub fn magic() -> (r: u8)
        ensures
            r == MAGIC_CHANNEL_OPEN_FAILURE,
    {
        MAGIC_CHANNEL_OPEN_FAILURE
    }

    /// Decode the fields (the bytes after the tag) starting at `pos`.
    pub fn read_ssh(buf: &Vec<u8>, pos: usize) -> (r: Result<(MsgChannelOpenFailure, usize), SSHError>)
        requires
            pos <= buf.len(),
        ensures
            match r {
                Ok((m, end)) => pos <= end <= buf.len() && spec_read_channel_open_failure(buf@, pos as int)
                    == Ok::<(MsgChannelOpenFailureV, int), SSHError>((m@, end as int)),
                Err(e) => spec_read_channel_open_failure(buf@, pos as int) == Err::<(MsgChannelOpenFailureV, int), SSHError>(e),
            },
    {
        let (recipient_channel, p0) = match read_u32(buf, pos) {
            Ok(v) => v,
            Err(e) => {
                return Err(e);
            },
        };
        let (reason_code, p1) = match ChannelOpenFailureReasonCode::read_ssh(buf, p0) {
            Ok(v) => v,
            Err(e) => {
                return Err(e);
            },
        };
        let (description, p2) = match read_string(buf, p1) {
            Ok(v) => v,
            Err(e) => {
                return Err(e);
            },
        };
        let (language_tag, p3) = match read_string(buf, p2) {
            Ok(v) => v,
            Err(e) => {
                return Err(e);
            },
        };
        Ok((MsgChannelOpenFailure { recipient_channel, reason_code, description, language_tag }, p3))
    }

    /// Append the tag byte and the fields to `out`.
    pub fn write_ssh(&self, out: &mut Vec<u8>)
        requires
            spec_channel_open_failure_ok(self@),
        ensures
            final(out)@ == old(out)@ + seq![MAGIC_CHANNEL_OPEN_FAILURE] + spec_channel_open_failure_fields(self@),
    {
        write_u8(out, MAGIC_CHANNEL_OPEN_FAILURE);
        write_u32(out, self.recipient_channel);
        self.reason_code.write_ssh(out);
        write_string(out, &self.description);
        write_string(out, &self.language_tag);
        assert(final(out)@ =~= old(out)@ + seq![MAGIC_CHANNEL_OPEN_FAILURE] + spec_channel_open_failure_fields(self@));
    }
}

/// Reading bytes that are the field encoding of `v` yields `v`.
pub proof fn lemma_read_channel_open_failure_at(b: Seq<u8>, pos: int, v: MsgChannelOpenFailureV)
    requires
        0 <= pos,
        spec_channel_open_failure_ok(v),
        pos + spec_channel_open_failure_fields(v).len() <= b.len(),
        b.subrange(pos, pos + spec_channel_open_failure_fields(v).len()) == spec_channel_open_failure_fields(v),
    ensures
        spec_read_channel_open_failure(b, pos) == Ok::<(MsgChannelOpenFailureV, int), SSHError>(
            (v, pos + spec_channel_open_failure_fields(v).len()),
        ),
{
    let w0 = spec_be32(v.recipient_channel);
    let w1 = spec_be32(spec_open_failure_code_u32(v.reason_code));
    let w2 = spec_string_wire(v.description);
    let w3 = spec_string_wire(v.language_tag);
    let r3 = w3;
    let r2 = w2 + r3;
    let r1 = w1 + r2;
    let r0 = w0 + r1;
    let p0 = pos;
    let p1 = p0 + w0.len();
    let p2 = p1 + w1.len();
    let p3 = p2 + w2.len();
    let p4 = p3 + w3.len();
    assert(spec_channel_open_failure_fields(v) =~= r0);
    lemma_subrange_concat(b, p0, w0, r1);
    lemma_read_u32_at(b, p0, v.recipient_channel);
    lemma_subrange_concat(b, p1, w1, r2);
    lemma_read_open_failure_code_at(b, p1, v.reason_code);
    lemma_subrange_concat(b, p2, w2, r3);
    lemma_read_string_at(b, p2, v.description);
    lemma_read_string_at(b, p3, v.language_tag);
}

#[derive(Clone, Debug, PartialEq)]
pub struct MsgChannelWindowAdjust {
    pub recipient_channel: u32,
    pub bytes_to_add: u32,
}

/// Mathematical view of [`MsgChannelWindowAdjust`].
pub struct MsgChannelWindowAdjustV {
    pub recipient_channel: u32,
    pub bytes_to_add: u32,
}

impl View for MsgChannelWindowAdjust {
    type V = MsgChannelWindowAdjustV;

    open spec fn view(&self) -> MsgChannelWindowAdjustV {
        MsgChannelWindowAdjustV {
            recipient_channel: self.recipient_channel,
            bytes_to_add: self.bytes_to_add,
        }
    }
}

/// Field bytes of the message, after its tag byte.
pub open spec fn spec_channel_window_adjust_fields(v: MsgChannelWindowAdjustV) -> Seq<u8> {
    spec_be32(v.recipient_channel) + spec_be32(v.bytes_to_add)
}

/// Views whose wire form is faithful: lengths fit their prefixes and
/// name-lists contain representable tokens.
pub open spec fn spec_channel_window_adjust_ok(v: MsgChannelWindowAdjustV) -> bool {
    true
}

/// Outcome of decoding the fields of a `MsgChannelWindowAdjust` at `pos`.
pub open spec fn spec_read_channel_window_adjust(b: Seq<u8>, pos: int) -> Result<(MsgChannelWindowAdjustV, int), SSHError> {
    match spec_read_u32(b, pos) {
        Ok((recipient_channel, p0)) => {
            match spec_read_u32(b, p0) {
                Ok((bytes_to_add, p1)) => {
                    Ok((MsgChannelWindowAdjustV { recipient_channel, bytes_to_add }, p1))
                },
                Err(e) => Err(e),
            }
        },
        Err(e) => Err(e),
    }
}

impl MsgChannelWindowAdjust {
    /// Tag byte of this message on the wire.
    pub fn magic() -> (r: u8)
        ensures
            r == MAGIC_CHANNEL_WINDOW_ADJUST,
    {
        MAGIC_CHANNEL_WINDOW_ADJUST
    }

    /// Decode the fields (the bytes after the tag) starting at `pos`.
    pub fn read_ssh(buf: &Vec<u8>, pos: usize) -> (r: Result<(MsgChannelWindowAdjust, usize), SSHError>)
        requires
            pos <= buf.len(),
        ensures
            match r {
                Ok((m, end)) => pos <= end <= buf.len() && spec_read_channel_window_adjust(buf@, pos as int)
                    == Ok::<(MsgChannelWindowAdjustV, int), SSHError>((m@, end as int)),
                Err(e) => spec_read_channel_window_adjust(buf@, pos as int) == Err::<(MsgChannelWindowAdjustV, int), SSHError>(e),
            },
    {
        let (recipient_channel, p0) = match read_u32(buf, pos) {
            Ok(v) => v,
            Err(e) => {
                return Err(e);
            },
        };
        let (bytes_to_add, p1) = match read_u32(buf, p0) {
            Ok(v) => v,
            Err(e) => {
                return Err(e);
            },
        };
        Ok((MsgChannelWindowAdjust { recipient_channel, bytes_to_add }, p1))
    }

    /// Append the tag byte and the fields to `out`.
    pub fn write_ssh(&self, out: &mut Vec<u8>)
        requires
            spec_channel_window_adjust_ok(self@),
        ensures
            final(out)@ == old(out)@ + seq![MAGIC_CHANNEL_WINDOW_ADJUST] + spec_channel_window_adjust_fields(self@),
    {
        write_u8(out, MAGIC_CHANNEL_WINDOW_ADJUST);
        write_u32(out, self.recipient_channel);
        write_u32(out, self.bytes_to_add);
        assert(final(out)@ =~= old(out)@ + seq![MAGIC_CHANNEL_WINDOW_ADJUST] + spec_channel_window_adjust_fields(self@));
    }
}

/// Reading bytes that are the field encoding of `v` yields `v`.
pub proof fn lemma_read_channel_window_adjust_at(b: Seq<u8>, pos: int, v: MsgChannelWindowAdjustV)
    requires
        0 <= pos,
        spec_channel_window_adjust_ok(v),
        pos + spec_channel_window_adjust_fields(v).len() <= b.len(),
        b.subrange(pos, pos + spec_channel_window_adjust_fields(v).len()) == spec_channel_window_adjust_fields(v),
    ensures
        spec_read_channel_window_adjust(b, pos) == Ok::<(MsgChannelWindowAdjustV, int), SSHError>(
            (v, pos + spec_channel_window_adjust_fields(v).len()),
        ),
{
    let w0 = spec_be32(v.recipient_channel);
    let w1 = spec_be32(v.bytes_to_add);
    let r1 = w1;
    let r0 = w0 + r1;
    let p0 = pos;
    let p1 = p0 + w0.len();
    let p2 = p1 + w1.len();
    assert(spec_channel_window_adjust_fields(v) =~= r0);
    lemma_subrange_concat(b, p0, w0, r1);
    lemma_read_u32_at(b, p0, v.recipient_channel);
    lemma_read_u32_at(b, p1, v.bytes_to_add);
}

#[derive(Clone, Debug, PartialEq)]
pub struct MsgChannelData {
    pub recipient_channel: u32,
    pub data: Vec<u8>,
}

/// Mathematical view of [`MsgChannelData`].
pub struct MsgChannelDataV {
    pub recipient_channel: u32,
    pub data: Seq<u8>,
}

impl View for MsgChannelData {
    type V = MsgChannelDataV;

    open spec fn view(&self) -> MsgChannelDataV {
        MsgChannelDataV {
            recipient_channel: self.recipient_channel,
            data: self.data@,
        }
    }
}

/// Field bytes of the message, after its tag byte.
pub open spec fn spec_channel_data_fields(v: MsgChannelDataV) -> Seq<u8> {
    spec_be32(v.recipient_channel) + spec_bytes_wire(v.data)
}

/// Views whose wire form is faithful: lengths fit their prefixes and
/// name-lists contain representable tokens.
pub open spec fn spec_channel_data_ok(v: MsgChannelDataV) -> bool {
    v.data.len() <= u32::MAX
}

/// Outcome of decoding the fields of a `MsgChannelData` at `pos`.
pub open spec fn spec_read_channel_data(b: Seq<u8>, pos: int) -> Result<(MsgChannelDataV, int), SSHError> {
    match spec_read_u32(b, pos) {
        Ok((recipient_channel, p0)) => {
            match spec_read_bytes(b, p0) {
                Ok((data, p1)) => {
                    Ok((MsgChannelDataV { recipient_channel, data }, p1))
                },
                Err(e) => Err(e),
            }
        },
        Err(e) => Err(e),
    }
}

impl MsgChannelData {
    /// Tag byte of this message on the wire.
    pub fn magic() -> (r: u8)
        ensures
            r == MAGIC_CHANNEL_DATA,
    {
        MAGIC_CHANNEL_DATA
    }

    /// Decode the fields (the bytes after the tag) starting at `pos`.
    pub fn read_ssh(buf: &Vec<u8>, pos: usize) -> (r: Result<(MsgChannelData, usize), SSHError>)
        requires
            pos <= buf.len(),
        ensures
            match r {
                Ok((m, end)) => pos <= end <= buf.len() && spec_read_channel_data(buf@, pos as int)
                    == Ok::<(MsgChannelDataV, int), SSHError>((m@, end as int)),
                Err(e) => spec_read_channel_data(buf@, pos as int) == Err::<(MsgChannelDataV, int), SSHError>(e),
            },
    {
        let (recipient_channel, p0) = match read_u32(buf, pos) {
            Ok(v) => v,
            Err(e) => {
                return Err(e);
            },
        };
        let (data, p1) = match read_bytes(buf, p0) {
            Ok(v) => v,
            Err(e) => {
                return Err(e);
            },
        };
        Ok((MsgChannelData { recipient_channel, data }, p1))
    }

    /// Append the tag byte and the fields to `out`.
    pub fn write_ssh(&self, out: &mut Vec<u8>)
        requires
            spec_channel_data_ok(self@),
        ensures
            final(out)@ == old(out)@ + seq![MAGIC_CHANNEL_DATA] + spec_channel_data_fields(self@),
    {
        write_u8(out, MAGIC_CHANNEL_DATA);
        write_u32(out, self.recipient_channel);
        write_bytes(out, &self.data);
        assert(final(out)@ =~= old(out)@ + seq![MAGIC_CHANNEL_DATA] + spec_channel_data_fields(self@));
    }
}

/// Reading bytes that are the field encoding of `v` yields `v`.
pub proof fn lemma_read_channel_data_at(b: Seq<u8>, pos: int, v: MsgChannelDataV)
    requires
        0 <= pos,
        spec_channel_data_ok(v),
        pos + spec_channel_data_fields(v).len() <= b.len(),
        b.subrange(pos, pos + spec_channel_data_fields(v).len()) == spec_channel_data_fields(v),
    ensures
        spec_read_channel_data(b, pos) == Ok::<(MsgChannelDataV, int), SSHError>(
            (v, pos + spec_channel_data_fields(v).len()),
        ),
{
    let w0 = spec_be32(v.recipient_channel);
    let w1 = spec_bytes_wire(v.data);
    let r1 = w1;
    let r0 = w0 + r1;
    let p0 = pos;
    let p1 = p0 + w0.len();
    let p2 = p1 + w1.len();
    assert(spec_channel_data_fields(v) =~= r0);
    lemma_subrange_concat(b, p0, w0, r1);
    lemma_read_u32_at(b, p0, v.recipient_channel);
    lemma_read_bytes_at(b, p1, v.data);
}

#[derive(Clone, Debug, PartialEq)]
pub struct MsgChannelExtendedData {
    pub recipient_channel: u32,
    pub data_type_code: u32,
    pub data: Vec<u8>,
}

/// Mathematical view of [`MsgChannelExtendedData`].
pub struct MsgChannelExtendedDataV {
    pub recipient_channel: u32,
    pub data_type_code: u32,
    pub data: Seq<u8>,
}

impl View for MsgChannelExtendedData {
    type V = MsgChannelExtendedDataV;

    open spec fn view(&self) -> MsgChannelExtendedDataV {
        MsgChannelExtendedDataV {
            recipient_channel: self.recipient_channel,
            data_type_code: self.data_type_code,
            data: self.data@,
        }
    }
}

/// Field bytes of the message, after its tag byte.
pub open spec fn spec_channel_extended_data_fields(v: MsgChannelExtendedDataV) -> Seq<u8> {
    spec_be32(v.recipient_channel) + spec_be32(v.data_type_code) + spec_bytes_wire(v.data)
}

/// Views whose wire form is faithful: lengths fit their prefixes and
/// name-lists contain representable tokens.
pub open spec fn spec_channel_extended_data_ok(v: MsgChannelExtendedDataV) -> bool {
    v.data.len() <= u32::MAX
}

/// Outcome of decoding the fields of a `MsgChannelExtendedData` at `pos`.
pub open spec fn spec_read_channel_extended_data(b: Seq<u8>, pos: int) -> Result<(MsgChannelExtendedDataV, int), SSHError> {
    match spec_read_u32(b, pos) {
        Ok((recipient_channel, p0)) => {
            match spec_read_u32(b, p0) {
                Ok((data_type_code, p1)) => {
                    match spec_read_bytes(b, p1) {
                        Ok((data, p2)) => {
                            Ok((MsgChannelExtendedDataV { recipient_channel, data_type_code, data }, p2))
                        },
                        Err(e) => Err(e),
                    }
                },
                Err(e) => Err(e),
            }
        },
        Err(e) => Err(e),
    }
}

impl MsgChannelExtendedData {
    /// Tag byte of this message on the wire.
    pub fn magic() -> (r: u8)
        ensures
            r == MAGIC_CHANNEL_EXTENDED_DATA,
    {
        MAGIC_CHANNEL_EXTENDED_DATA
    }

    /// Decode the fields (the bytes after the tag) starting at `pos`.
    pub fn read_ssh(buf: &Vec<u8>, pos: usize) -> (r: Result<(MsgChannelExtendedData, usize), SSHError>)
        requires
            pos <= buf.len(),
        ensures
            match r {
                Ok((m, end)) => pos <= end <= buf.len() && spec_read_channel_extended_data(buf@, pos as int)
                    == Ok::<(MsgChannelExtendedDataV, int), SSHError>((m@, end as int)),
                Err(e) => spec_read_channel_extended_data(buf@, pos as int) == Err::<(MsgChannelExtendedDataV, int), SSHError>(e),
            },
    {
        let (recipient_channel, p0) = match read_u32(buf, pos) {
            Ok(v) => v,
            Err(e) => {
                return Err(e);
            },
        };
        let (data_type_code, p1) = match read_u32(buf, p0) {
            Ok(v) => v,
            Err(e) => {
                return Err(e);
            },
        };
        let (data, p2) = match read_bytes(buf, p1) {
            Ok(v) => v,
            Err(e) => {
                return Err(e);
            },
        };
        Ok((MsgChannelExtendedData { recipient_channel, data_type_code, data }, p2))
    }

    /// Append the tag byte and the fields to `out`.
    pub fn write_ssh(&self, out: &mut Vec<u8>)
        requires
            spec_channel_extended_data_ok(self@),
        ensures
            final(out)@ == old(out)@ + seq![MAGIC_CHANNEL_EXTENDED_DATA] + spec_channel_extended_data_fields(self@),
    {
        write_u8(out, MAGIC_CHANNEL_EXTENDED_DATA);
        write_u32(out, self.recipient_channel);
        write_u32(out, self.data_type_code);
        write_bytes(out, &self.data);
        assert(final(out)@ =~= old(out)@ + seq![MAGIC_CHANNEL_EXTENDED_DATA] + spec_channel_extended_data_fields(self@));
    }
}

/// Reading bytes that are the field encoding of `v` yields `v`.
pub proof fn lemma_read_channel_extended_data_at(b: Seq<u8>, pos: int, v: MsgChannelExtendedDataV)
    requires
        0 <= pos,
        spec_channel_extended_data_ok(v),
        pos + spec_channel_extended_data_fields(v).len() <= b.len(),
        b.subrange(pos, pos + spec_channel_extended_data_fields(v).len()) == spec_channel_extended_data_fields(v),
    ensures
        spec_read_channel_extended_data(b, pos) == Ok::<(MsgChannelExtendedDataV, int), SSHError>(
            (v, pos + spec_channel_extended_data_fields(v).len()),
        ),
{
    let w0 = spec_be32(v.recipient_channel);
    let w1 = spec_be32(v.data_type_code);
    let w2 = spec_bytes_wire(v.data);
    let r2 = w2;
    let r1 = w1 + r2;
    let r0 = w0 + r1;
    let p0 = pos;
    let p1 = p0 + w0.len();
    let p2 = p1 + w1.len();
    let p3 = p2 + w2.len();
    assert(spec_channel_extended_data_fields(v) =~= r0);
    lemma_subrange_concat(b, p0, w0, r1);
    lemma_read_u32_at(b, p0, v.recipient_channel);
    lemma_subrange_concat(b, p1, w1, r2);
    lemma_read_u32_at(b, p1, v.data_type_code);
    lemma_read_bytes_at(b, p2, v.data);
}

#[derive(Clone, Debug, PartialEq)]
pub struct MsgChannelEof {
    pub recipient_channel: u32,
}

/// Mathematical view of [`MsgChannelEof`].
pub struct MsgChannelEofV {
    pub recipient_channel: u32,
}

impl View for MsgChannelEof {
    type V = MsgChannelEofV;

    open spec fn view(&self) -> MsgChannelEofV {
        MsgChannelEofV {
            recipient_channel: self.recipient_channel,
        }
    }
}

/// Field bytes of the message, after its tag byte.
pub open spec fn spec_channel_eof_fields(v: MsgChannelEofV) -> Seq<u8> {
    spec_be32(v.recipient_channel)
}

/// Views whose wire form is faithful: lengths fit their prefixes and
/// name-lists contain representable tokens.
pub open spec fn spec_channel_eof_ok(v: MsgChannelEofV) -> bool {
    true
}

/// Outcome of decoding the fields of a `MsgChannelEof` at `pos`.
pub open spec fn spec_read_channel_eof(b: Seq<u8>, pos: int) -> Result<(MsgChannelEofV, int), SSHError> {
    match spec_read_u32(b, pos) {
        Ok((recipient_channel, p0)) => {
            Ok((MsgChannelEofV { recipient_channel }, p0))
        },
        Err(e) => Err(e),
    }
}

impl MsgChannelEof {
    /// Tag byte of this message on the wire.
    pub fn magic() -> (r: u8)
        ensures
            r == MAGIC_CHANNEL_EOF,
    {
        MAGIC_CHANNEL_EOF
    }

    /// Decode the fields (the bytes after the tag) starting at `pos`.
    pub fn read_ssh(buf: &Vec<u8>, pos: usize) -> (r: Result<(MsgChannelEof, usize), SSHError>)
        requires
            pos <= buf.len(),
        ensures
            match r {
                Ok((m, end)) => pos <= end <= buf.len() && spec_read_channel_eof(buf@, pos as int)
                    == Ok::<(MsgChannelEofV, int), SSHError>((m@, end as int)),
                Err(e) => spec_read_channel_eof(buf@, pos as int) == Err::<(MsgChannelEofV, int), SSHError>(e),
            },
    {
        let (recipient_channel, p0) = match read_u32(buf, pos) {
            Ok(v) => v,
            Err(e) => {
                return Err(e);
            },
        };
        Ok((MsgChannelEof { recipient_channel }, p0))
    }

    /// Append the tag byte and the fields to `out`.
    pub fn write_ssh(&self, out: &mut Vec<u8>)
        requires
            spec_channel_eof_ok(self@),
        ensures
            final(out)@ == old(out)@ + seq![MAGIC_CHANNEL_EOF] + spec_channel_eof_fields(self@),
    {
        write_u8(out, MAGIC_CHANNEL_EOF);
        write_u32(out, self.recipient_channel);
        assert(final(out)@ =~= old(out)@ + seq![MAGIC_CHANNEL_EOF] + spec_channel_eof_fields(self@));
    }
}

/// Reading bytes that are the field encoding of `v` yields `v`.
pub proof fn lemma_read_channel_eof_at(b: Seq<u8>, pos: int, v: MsgChannelEofV)
    requires
        0 <= pos,
        spec_channel_eof_ok(v),
        pos + spec_channel_eof_fields(v).len() <= b.len(),
        b.subrange(pos, pos + spec_channel_eof_fields(v).len()) == spec_channel_eof_fields(v),
    ensures
        spec_read_channel_eof(b, pos) == Ok::<(MsgChannelEofV, int), SSHError>(
            (v, pos + spec_channel_eof_fields(v).len()),
        ),
{
    let w0 = spec_be32(v.recipient_channel);
    let r0 = w0;
    let p0 = pos;
    let p1 = p0 + w0.len();
    assert(spec_channel_eof_fields(v) =~= r0);
    lemma_read_u32_at(b, p0, v.recipient_channel);
}

#[derive(Clone, Debug, PartialEq)]
pub struct MsgChannelClose {
    pub recipient_channel: u32,
}

/// Mathematical view of [`MsgChannelClose`].
pub struct MsgChannelCloseV {
    pub recipient_channel: u32,
}

impl View for MsgChannelClose {
    type V = MsgChannelCloseV;

    open spec fn view(&self) -> MsgChannelCloseV {
        MsgChannelCloseV {
            recipient_channel: self.recipient_channel,
        }
    }
}

/// Field bytes of the message, after its tag byte.
pub open spec fn spec_channel_close_fields(v: MsgChannelCloseV) -> Seq<u8> {
    spec_be32(v.recipient_channel)
}

/// Views whose wire form is faithful: lengths fit their prefixes and
/// name-lists contain representable tokens.
pub open spec fn spec_channel_close_ok(v: MsgChannelCloseV) -> bool {
    true
}

/// Outcome of decoding the fields of a `MsgChannelClose` at `pos`.
pub open spec fn spec_read_channel_close(b: Seq<u8>, pos: int) -> Result<(MsgChannelCloseV, int), SSHError> {
    match spec_read_u32(b, pos) {
        Ok((recipient_channel, p0)) => {
            Ok((MsgChannelCloseV { recipient_channel }, p0))
        },
        Err(e) => Err(e),
    }
}

impl MsgChannelClose {
    /// Tag byte of this message on the wire.
    pub fn magic() -> (r: u8)
        ensures
            r == MAGIC_CHANNEL_CLOSE,
    {
        MAGIC_CHANNEL_CLOSE
    }

    /// Decode the fields (the bytes after the tag) starting at `pos`.
    pub fn read_ssh(buf: &Vec<u8>, pos: usize) -> (r: Result<(MsgChannelClose, usize), SSHError>)
        requires
            pos <= buf.len(),
        ensures
            match r {
                Ok((m, end)) => pos <= end <= buf.len() && spec_read_channel_close(buf@, pos as int)
                    == Ok::<(MsgChannelCloseV, int), SSHError>((m@, end as int)),
                Err(e) => spec_read_channel_close(buf@, pos as int) == Err::<(MsgChannelCloseV, int), SSHError>(e),
            },
    {
        let (recipient_channel, p0) = match read_u32(buf, pos) {
            Ok(v) => v,
            Err(e) => {
                return Err(e);
            },
        };
        Ok((MsgChannelClose { recipient_channel }, p0))
    }

    /// Append the tag byte and the fields to `out`.
    pub fn write_ssh(&self, out: &mut Vec<u8>)
        requires
            spec_channel_close_ok(self@),
        ensures
            final(out)@ == old(out)@ + seq![MAGIC_CHANNEL_CLOSE] + spec_channel_close_fields(self@),
    {
        write_u8(out, MAGIC_CHANNEL_CLOSE);
        write_u32(out, self.recipient_channel);
        assert(final(out)@ =~= old(out)@ + seq![MAGIC_CHANNEL_CLOSE] + spec_channel_close_fields(self@));
    }
}

/// Reading bytes that are the field encoding of `v` yields `v`.
pub proof fn lemma_read_channel_close_at(b: Seq<u8>, pos: int, v: MsgChannelCloseV)
    requires
        0 <= pos,
        spec_channel_close_ok(v),
        pos + spec_channel_close_fields(v).len() <= b.len(),
        b.subrange(pos, pos + spec_channel_close_fields(v).len()) == spec_channel_close_fields(v),
    ensures
        spec_read_channel_close(b, pos) == Ok::<(MsgChannelCloseV, int), SSHError>(
            (v, pos + spec_channel_close_fields(v).len()),
        ),
{
    let w0 = spec_be32(v.recipient_channel);
    let r0 = w0;
    let p0 = pos;
    let p1 = p0 + w0.len();
    assert(spec_channel_close_fields(v) =~= r0);
    lemma_read_u32_at(b, p0, v.recipient_channel);
}

#[derive(Clone, Debug, PartialEq)]
pub struct MsgChannelRequest {
    pub recipient_channel: u32,
    pub request_type: String,
    pub want_reply: bool,
}

/// Mathematical view of [`MsgChannelRequest`].
pub struct MsgChannelRequestV {
    pub recipient_channel: u32,
    pub request_type: Seq<char>,
    pub want_reply: bool,
}

impl View for MsgChannelRequest {
    type V = MsgChannelRequestV;

    open spec fn view(&self) -> MsgChannelRequestV {
        MsgChannelRequestV {
            recipient_channel: self.recipient_channel,
            request_type: self.request_type@,
            want_reply: self.want_reply,
        }
    }
}

/// Field bytes of the message, after its tag byte.
pub open spec fn spec_channel_request_fields(v: MsgChannelRequestV) -> Seq<u8> {
    spec_be32(v.recipient_channel) + spec_string_wire(v.request_type) + spec_bool_wire(v.want_reply)
}

/// Views whose wire form is faithful: lengths fit their prefixes and
/// name-lists contain representable tokens.
pub open spec fn spec_channel_request_ok(v: MsgChannelRequestV) -> bool {
    spec_string_fits(v.request_type)
}

/// Outcome of decoding the fields of a `MsgChannelRequest` at `pos`.
pub open spec fn spec_read_channel_request(b: Seq<u8>, pos: int) -> Result<(MsgChannelRequestV, int), SSHError> {
    match spec_read_u32(b, pos) {
        Ok((recipient_channel, p0)) => {
            match spec_read_string(b, p0) {
                Ok((request_type, p1)) => {
                    match spec_read_bool(b, p1) {
                        Ok((want_reply, p2)) => {
                            Ok((MsgChannelRequestV { recipient_channel, request_type, want_reply }, p2))
                        },
                        Err(e) => Err(e),
                    }
                },
                Err(e) => Err(e),
            }
        },
        Err(e) => Err(e),
    }
}

impl MsgChannelRequest {
    /// Tag byte of this message on the wire.
    pub fn magic() -> (r: u8)
        ensures
            r == MAGIC_CHANNEL_REQUEST,
    {
        MAGIC_CHANNEL_REQUEST
    }

    /// Decode the fields (the bytes after the tag) starting at `pos`.
    pub fn read_ssh(buf: &Vec<u8>, pos: usize) -> (r: Result<(MsgChannelRequest, usize), SSHError>)
        requires
            pos <= buf.len(),
        ensures
            match r {
                Ok((m, end)) => pos <= end <= buf.len() && spec_read_channel_request(buf@, pos as int)
                    == Ok::<(MsgChannelRequestV, int), SSHError>((m@, end as int)),
                Err(e) => spec_read_channel_request(buf@, pos as int) == Err::<(MsgChannelRequestV, int), SSHError>(e),
            },
    {
        let (recipient_channel, p0) = match read_u32(buf, pos) {
            Ok(v) => v,
            Err(e) => {
                return Err(e);
            },
        };
        let (request_type, p1) = match read_string(buf, p0) {
            Ok(v) => v,
            Err(e) => {
                return Err(e);
            },
        };
        let (want_reply, p2) = match read_bool(buf, p1) {
            Ok(v) => v,
            Err(e) => {
                return Err(e);
            },
        };
        Ok((MsgChannelRequest { recipient_channel, request_type, want_reply }, p2))
    }

    /// Append the tag byte and the fields to `out`.
    pub fn write_ssh(&self, out: &mut Vec<u8>)
        requires
            spec_channel_request_ok(self@),
        ensures
            final(out)@ == old(out)@ + seq![MAGIC_CHANNEL_REQUEST] + spec_channel_request_fields(self@),
    {
        write_u8(out, MAGIC_CHANNEL_REQUEST);
        write_u32(out, self.recipient_channel);
        write_string(out, &self.request_type);
        write_bool(out, self.want_reply);
        assert(final(out)@ =~= old(out)@ + seq![MAGIC_CHANNEL_REQUEST] + spec_channel_request_fields(self@));
    }
}

/// Reading bytes that are the field encoding of `v` yields `v`.
pub proof fn lemma_read_channel_request_at(b: Seq<u8>, pos: int, v: MsgChannelRequestV)
    requires
        0 <= pos,
        spec_channel_request_ok(v),
        pos + spec_channel_request_fields(v).len() <= b.len(),
        b.subrange(pos, pos + spec_channel_request_fields(v).len()) == spec_channel_request_fields(v),
    ensures
        spec_read_channel_request(b, pos) == Ok::<(MsgChannelRequestV, int), SSHError>(
            (v, pos + spec_channel_request_fields(v).len()),
        ),
{
    let w0 = spec_be32(v.recipient_channel);
    let w1 = spec_string_wire(v.request_type);
    let w2 = spec_bool_wire(v.want_reply);
    let r2 = w2;
    let r1 = w1 + r2;
    let r0 = w0 + r1;
    let p0 = pos;
    let p1 = p0 + w0.len();
    let p2 = p1 + w1.len();
    let p3 = p2 + w2.len();
    assert(spec_channel_request_fields(v) =~= r0);
    lemma_subrange_concat(b, p0, w0, r1);
    lemma_read_u32_at(b, p0, v.recipient_channel);
    lemma_subrange_concat(b, p1, w1, r2);
    lemma_read_string_at(b, p1, v.request_type);
    lemma_read_bool_at(b, p2, v.want_reply);
}

#[derive(Clone, Debug, PartialEq)]
pub struct MsgChannelSuccess {
    pub recipient_channel: u32,
}

/// Mathematical view of [`MsgChannelSuccess`].
pub struct MsgChannelSuccessV {
    pub recipient_channel: u32,
}

impl View for MsgChannelSuccess {
    type V = MsgChannelSuccessV;

    open spec fn view(&self) -> MsgChannelSuccessV {
        MsgChannelSuccessV {
            recipient_channel: self.recipient_channel,
        }
    }
}

/// Field bytes of the message, after its tag byte.
pub open spec fn spec_channel_success_fields(v: MsgChannelSuccessV) -> Seq<u8> {
    spec_be32(v.recipient_channel)
}

/// Views whose wire form is faithful: lengths fit their prefixes and
/// name-lists contain representable tokens.
pub open spec fn spec_channel_success_ok(v: MsgChannelSuccessV) -> bool {
    true
}

/// Outcome of decoding the fields of a `MsgChannelSuccess` at `pos`.
pub open spec fn spec_read_channel_success(b: Seq<u8>, pos: int) -> Result<(MsgChannelSuccessV, int), SSHError> {
    match spec_read_u32(b, pos) {
        Ok((recipient_channel, p0)) => {
            Ok((MsgChannelSuccessV { recipient_channel }, p0))
        },
        Err(e) => Err(e),
    }
}

impl MsgChannelSuccess {
    /// Tag byte of this message on the wire.
    pub fn magic() -> (r: u8)
        ensures
            r == MAGIC_CHANNEL_SUCCESS,
    {
        MAGIC_CHANNEL_SUCCESS
    }

    /// Decode the fields (the bytes after the tag) starting at `pos`.
    pub fn read_ssh(buf: &Vec<u8>, pos: usize) -> (r: Result<(MsgChannelSuccess, usize), SSHError>)
        requires
            pos <= buf.len(),
        ensures
            match r {
                Ok((m, end)) => pos <= end <= buf.len() && spec_read_channel_success(buf@, pos as int)
                    == Ok::<(MsgChannelSuccessV, int), SSHError>((m@, end as int)),
                Err(e) => spec_read_channel_success(buf@, pos as int) == Err::<(MsgChannelSuccessV, int), SSHError>(e),
            },
    {
        let (recipient_channel, p0) = match read_u32(buf, pos) {
            Ok(v) => v,
            Err(e) => {
                return Err(e);
            },
        };
        Ok((MsgChannelSuccess { recipient_channel }, p0))
    }

    /// Append the tag byte and the fields to `out`.
    pub fn write_ssh(&self, out: &mut Vec<u8>)
        requires
            spec_channel_success_ok(self@),
        ensures
            final(out)@ == old(out)@ + seq![MAGIC_CHANNEL_SUCCESS] + spec_channel_success_fields(self@),
    {
        write_u8(out, MAGIC_CHANNEL_SUCCESS);
        write_u32(out, self.recipient_channel);
        assert(final(out)@ =~= old(out)@ + seq![MAGIC_CHANNEL_SUCCESS] + spec_channel_success_fields(self@));
    }
}

/// Reading bytes that are the field encoding of `v` yields `v`.
pub proof fn lemma_read_channel_success_at(b: Seq<u8>, pos: int, v: MsgChannelSuccessV)
    requires
        0 <= pos,
        spec_channel_success_ok(v),
        pos + spec_channel_success_fields(v).len() <= b.len(),
        b.subrange(pos, pos + spec_channel_success_fields(v).len()) == spec_channel_success_fields(v),
    ensures
        spec_read_channel_success(b, pos) == Ok::<(MsgChannelSuccessV, int), SSHError>(
            (v, pos + spec_channel_success_fields(v).len()),
        ),
{
    let w0 = spec_be32(v.recipient_channel);
    let r0 = w0;
    let p0 = pos;
    let p1 = p0 + w0.len();
    assert(spec_channel_success_fields(v) =~= r0);
    lemma_read_u32_at(b, p0, v.recipient_channel);
}

#[derive(Clone, Debug, PartialEq)]
pub struct MsgChannelFailure {
    pub recipient_channel: u32,
}

/// Mathematical view of [`MsgChannelFailure`].
pub struct MsgChannelFailureV {
    pub recipient_channel: u32,
}

impl View for MsgChannelFailure {
    type V = MsgChannelFailureV;

    open spec fn view(&self) -> MsgChannelFailureV {
        MsgChannelFailureV {
            recipient_channel: self.recipient_channel,
        }
    }
}

/// Field bytes of the message, after its tag byte.
pub open spec fn spec_channel_failure_fields(v: MsgChannelFailureV) -> Seq<u8> {
    spec_be32(v.recipient_channel)
}

/// Views whose wire form is faithful: lengths fit their prefixes and
/// name-lists contain representable tokens.
pub open spec fn spec_channel_failure_ok(v: MsgChannelFailureV) -> bool {
    true
}

/// Outcome of decoding the fields of a `MsgChannelFailure` at `pos`.
pub open spec fn spec_read_channel_failure(b: Seq<u8>, pos: int) -> Result<(MsgChannelFailureV, int), SSHError> {
    match spec_read_u32(b, pos) {
        Ok((recipient_channel, p0)) => {
            Ok((MsgChannelFailureV { recipient_channel }, p0))
        },
        Err(e) => Err(e),
    }
}

impl MsgChannelFailure {
    /// Tag byte of this message on the wire.
    pub fn magic() -> (r: u8)
        ensures
            r == MAGIC_CHANNEL_FAILURE,
    {
        MAGIC_CHANNEL_FAILURE
    }

    /// Decode the fields (the bytes after the tag) starting at `pos`.
    pub fn read_ssh(buf: &Vec<u8>, pos: usize) -> (r: Result<(MsgChannelFailure, usize), SSHError>)
        requires
            pos <= buf.len(),
        ensures
            match r {
                Ok((m, end)) => pos <= end <= buf.len() && spec_read_channel_failure(buf@, pos as int)
                    == Ok::<(MsgChannelFailureV, int), SSHError>((m@, end as int)),
                Err(e) => spec_read_channel_failure(buf@, pos as int) == Err::<(MsgChannelFailureV, int), SSHError>(e),
            },
    {
        let (recipient_channel, p0) = match read_u32(buf, pos) {
            Ok(v) => v,
            Err(e) => {
                return Err(e);
            },
        };
        Ok((MsgChannelFailure { recipient_channel }, p0))
    }

    /// Append the tag byte and the fields to `out`.
    pub fn write_ssh(&self, out: &mut Vec<u8>)
        requires
            spec_channel_failure_ok(self@),
        ensures
            final(out)@ == old(out)@ + seq![MAGIC_CHANNEL_FAILURE] + spec_channel_failure_fields(self@),
    {
        write_u8(out, MAGIC_CHANNEL_FAILURE);
        write_u32(out, self.recipient_channel);
        assert(final(out)@ =~= old(out)@ + seq![MAGIC_CHANNEL_FAILURE] + spec_channel_failure_fields(self@));
    }
}

/// Reading bytes that are the field encoding of `v` yields `v`.
pub proof fn lemma_read_channel_failure_at(b: Seq<u8>, pos: int, v: MsgChannelFailureV)
    requires
        0 <= pos,
        spec_channel_failure_ok(v),
        pos + spec_channel_failure_fields(v).len() <= b.len(),
        b.subrange(pos, pos + spec_channel_failure_fields(v).len()) == spec_channel_failure_fields(v),
    ensures
        spec_read_channel_failure(b, pos) == Ok::<(MsgChannelFailureV, int), SSHError>(
            (v, pos + spec_channel_failure_fields(v).len()),
        ),
{
    let w0 = spec_be32(v.recipient_channel);
    let r0 = w0;
    let p0 = pos;
    let p1 = p0 + w0.len();
    assert(spec_channel_failure_fields(v) =~= r0);
    lemma_read_u32_at(b, p0, v.recipient_channel);
}

/// One decoded protocol message of any variant.
#[derive(Clone, Debug, PartialEq)]
pub enum SSHMsg {
    Disconnect(MsgDisconnect),
    Ignore(MsgIgnore),
    Unimplemented(MsgUnimplemented),
    Debug(MsgDebug),
    ServiceRequest(MsgServiceRequest),
    ServiceAccept(MsgServiceAccept),
    KexInit(MsgKexInit),
    NewKeys(MsgNewKeys),
    KexECDHInit(MsgKexECDHInit),
    KexECDHReply(MsgKexECDHReply),
    UserauthRequest(MsgUserauthRequest),
    UserauthFailure(MsgUserauthFailure),
    UserauthSuccess(MsgUserauthSuccess),
    UserauthBanner(MsgUserauthBanner),
    GlobalRequest(MsgGlobalRequest),
    RequestSuccess(MsgRequestSuccess),
    RequestFailure(MsgRequestFailure),
    ChannelOpen(MsgChannelOpen),
    ChannelOpenConfirmation(MsgChannelOpenConfirmation),
    ChannelOpenFailure(MsgChannelOpenFailure),
    ChannelWindowAdjust(MsgChannelWindowAdjust),
    ChannelData(MsgChannelData),
    ChannelExtendedData(MsgChannelExtendedData),
    ChannelEof(MsgChannelEof),
    ChannelClose(MsgChannelClose),
    ChannelRequest(MsgChannelRequest),
    ChannelSuccess(MsgChannelSuccess),
    ChannelFailure(MsgChannelFailure),
}

/// Mathematical view of [`SSHMsg`].
pub enum SSHMsgV {
    Disconnect(MsgDisconnectV),
    Ignore(MsgIgnoreV),
    Unimplemented(MsgUnimplementedV),
    Debug(MsgDebugV),
    ServiceRequest(MsgServiceRequestV),
    ServiceAccept(MsgServiceAcceptV),
    KexInit(MsgKexInitV),
    NewKeys(MsgNewKeysV),
    KexECDHInit(MsgKexECDHInitV),
    KexECDHReply(MsgKexECDHReplyV),
    UserauthRequest(MsgUserauthRequestV),
    UserauthFailure(MsgUserauthFailureV),
    UserauthSuccess(MsgUserauthSuccessV),
    UserauthBanner(MsgUserauthBannerV),
    GlobalRequest(MsgGlobalRequestV),
    RequestSuccess(MsgRequestSuccessV),
    RequestFailure(MsgRequestFailureV),
    ChannelOpen(MsgChannelOpenV),
    ChannelOpenConfirmation(MsgChannelOpenConfirmationV),
    ChannelOpenFailure(MsgChannelOpenFailureV),
    ChannelWindowAdjust(MsgChannelWindowAdjustV),
    ChannelData(MsgChannelDataV),
    ChannelExtendedData(MsgChannelExtendedDataV),
    ChannelEof(MsgChannelEofV),
    ChannelClose(MsgChannelCloseV),
    ChannelRequest(MsgChannelRequestV),
    ChannelSuccess(MsgChannelSuccessV),
    ChannelFailure(MsgChannelFailureV),
}

impl View for SSHMsg {
    type V = SSHMsgV;

    open spec fn view(&self) -> SSHMsgV {
        match self {
            SSHMsg::Disconnect(x) => SSHMsgV::Disconnect(x@),
            SSHMsg::Ignore(x) => SSHMsgV::Ignore(x@),
            SSHMsg::Unimplemented(x) => SSHMsgV::Unimplemented(x@),
            SSHMsg::Debug(x) => SSHMsgV::Debug(x@),
            SSHMsg::ServiceRequest(x) => SSHMsgV::ServiceRequest(x@),
            SSHMsg::ServiceAccept(x) => SSHMsgV::ServiceAccept(x@),
            SSHMsg::KexInit(x) => SSHMsgV::KexInit(x@),
            SSHMsg::NewKeys(x) => SSHMsgV::NewKeys(x@),
            SSHMsg::KexECDHInit(x) => SSHMsgV::KexECDHInit(x@),
            SSHMsg::KexECDHReply(x) => SSHMsgV::KexECDHReply(x@),
            SSHMsg::UserauthRequest(x) => SSHMsgV::UserauthRequest(x@),
            SSHMsg::UserauthFailure(x) => SSHMsgV::UserauthFailure(x@),
            SSHMsg::UserauthSuccess(x) => SSHMsgV::UserauthSuccess(x@),
            SSHMsg::UserauthBanner(x) => SSHMsgV::UserauthBanner(x@),
            SSHMsg::GlobalRequest(x) => SSHMsgV::GlobalRequest(x@),
            SSHMsg::RequestSuccess(x) => SSHMsgV::RequestSuccess(x@),
            SSHMsg::RequestFailure(x) => SSHMsgV::RequestFailure(x@),
            SSHMsg::ChannelOpen(x) => SSHMsgV::ChannelOpen(x@),
            SSHMsg::ChannelOpenConfirmation(x) => SSHMsgV::ChannelOpenConfirmation(x@),
            SSHMsg::ChannelOpenFailure(x) => SSHMsgV::ChannelOpenFailure(x@),
            SSHMsg::ChannelWindowAdjust(x) => SSHMsgV::ChannelWindowAdjust(x@),
            SSHMsg::ChannelData(x) => SSHMsgV::ChannelData(x@),
            SSHMsg::ChannelExtendedData(x) => SSHMsgV::ChannelExtendedData(x@),
            SSHMsg::ChannelEof(x) => SSHMsgV::ChannelEof(x@),
            SSHMsg::ChannelClose(x) => SSHMsgV::ChannelClose(x@),
            SSHMsg::ChannelRequest(x) => SSHMsgV::ChannelRequest(x@),
            SSHMsg::ChannelSuccess(x) => SSHMsgV::ChannelSuccess(x@),
            SSHMsg::ChannelFailure(x) => SSHMsgV::ChannelFailure(x@),
        }
    }
}

/// The full wire form of a message: its tag byte, then its fields.
pub open spec fn spec_msg_wire(m: SSHMsgV) -> Seq<u8> {
    match m {
        SSHMsgV::Disconnect(x) => seq![MAGIC_DISCONNECT] + spec_disconnect_fields(x),
        SSHMsgV::Ignore(x) => seq![MAGIC_IGNORE] + spec_ignore_fields(x),
        SSHMsgV::Unimplemented(x) => seq![MAGIC_UNIMPLEMENTED] + spec_unimplemented_fields(x),
        SSHMsgV::Debug(x) => seq![MAGIC_DEBUG] + spec_debug_msg_fields(x),
        SSHMsgV::ServiceRequest(x) => seq![MAGIC_SERVICE_REQUEST] + spec_service_request_fields(x),
        SSHMsgV::ServiceAccept(x) => seq![MAGIC_SERVICE_ACCEPT] + spec_service_accept_fields(x),
        SSHMsgV::KexInit(x) => seq![MAGIC_KEX_INIT] + spec_kex_init_fields(x),
        SSHMsgV::NewKeys(x) => seq![MAGIC_NEW_KEYS] + spec_new_keys_fields(x),
        SSHMsgV::KexECDHInit(x) => seq![MAGIC_KEX_ECDH_INIT] + spec_kex_ecdh_init_fields(x),
        SSHMsgV::KexECDHReply(x) => seq![MAGIC_KEX_ECDH_REPLY] + spec_kex_ecdh_reply_fields(x),
        SSHMsgV::UserauthRequest(x) => seq![MAGIC_USERAUTH_REQUEST] + spec_userauth_request_fields(x),
        SSHMsgV::UserauthFailure(x) => seq![MAGIC_USERAUTH_FAILURE] + spec_userauth_failure_fields(x),
        SSHMsgV::UserauthSuccess(x) => seq![MAGIC_USERAUTH_SUCCESS] + spec_userauth_success_fields(x),
        SSHMsgV::UserauthBanner(x) => seq![MAGIC_USERAUTH_BANNER] + spec_userauth_banner_fields(x),
        SSHMsgV::GlobalRequest(x) => seq![MAGIC_GLOBAL_REQUEST] + spec_global_request_fields(x),
        SSHMsgV::RequestSuccess(x) => seq![MAGIC_REQUEST_SUCCESS] + spec_request_success_fields(x),
        SSHMsgV::RequestFailure(x) => seq![MAGIC_REQUEST_FAILURE] + spec_request_failure_fields(x),
        SSHMsgV::ChannelOpen(x) => seq![MAGIC_CHANNEL_OPEN] + spec_channel_open_fields(x),
        SSHMsgV::ChannelOpenConfirmation(x) => seq![MAGIC_CHANNEL_OPEN_CONFIRMATION] + spec_channel_open_confirmation_fields(x),
        SSHMsgV::ChannelOpenFailure(x) => seq![MAGIC_CHANNEL_OPEN_FAILURE] + spec_channel_open_failure_fields(x),
        SSHMsgV::ChannelWindowAdjust(x) => seq![MAGIC_CHANNEL_WINDOW_ADJUST] + spec_channel_window_adjust_fields(x),
        SSHMsgV::ChannelData(x) => seq![MAGIC_CHANNEL_DATA] + spec_channel_data_fields(x),
        SSHMsgV::ChannelExtendedData(x) => seq![MAGIC_CHANNEL_EXTENDED_DATA] + spec_channel_extended_data_fields(x),
        SSHMsgV::ChannelEof(x) => seq![MAGIC_CHANNEL_EOF] + spec_channel_eof_fields(x),
        SSHMsgV::ChannelClose(x) => seq![MAGIC_CHANNEL_CLOSE] + spec_channel_close_fields(x),
        SSHMsgV::ChannelRequest(x) => seq![MAGIC_CHANNEL_REQUEST] + spec_channel_request_fields(x),
        SSHMsgV::ChannelSuccess(x) => seq![MAGIC_CHANNEL_SUCCESS] + spec_channel_success_fields(x),
        SSHMsgV::ChannelFailure(x) => seq![MAGIC_CHANNEL_FAILURE] + spec_channel_failure_fields(x),
    }
}

/// Messages whose wire form is faithful (every length fits its prefix).
pub open spec fn spec_msg_ok(m: SSHMsgV) -> bool {
    match m {
        SSHMsgV::Disconnect(x) => spec_disconnect_ok(x),
        SSHMsgV::Ignore(x) => spec_ignore_ok(x),
        SSHMsgV::Unimplemented(x) => spec_unimplemented_ok(x),
        SSHMsgV::Debug(x) => spec_debug_msg_ok(x),
        SSHMsgV::ServiceRequest(x) => spec_service_request_ok(x),
        SSHMsgV::ServiceAccept(x) => spec_service_accept_ok(x),
        SSHMsgV::KexInit(x) => spec_kex_init_ok(x),
        SSHMsgV::NewKeys(x) => spec_new_keys_ok(x),
        SSHMsgV::KexECDHInit(x) => spec_kex_ecdh_init_ok(x),
        SSHMsgV::KexECDHReply(x) => spec_kex_ecdh_reply_ok(x),
        SSHMsgV::UserauthRequest(x) => spec_userauth_request_ok(x),
        SSHMsgV::UserauthFailure(x) => spec_userauth_failure_ok(x),
        SSHMsgV::UserauthSuccess(x) => spec_userauth_success_ok(x),
        SSHMsgV::UserauthBanner(x) => spec_userauth_banner_ok(x),
        SSHMsgV::GlobalRequest(x) => spec_global_request_ok(x),
        SSHMsgV::RequestSuccess(x) => spec_request_success_ok(x),
        SSHMsgV::RequestFailure(x) => spec_request_failure_ok(x),
        SSHMsgV::ChannelOpen(x) => spec_channel_open_ok(x),
        SSHMsgV::ChannelOpenConfirmation(x) => spec_channel_open_confirmation_ok(x),
        SSHMsgV::ChannelOpenFailure(x) => spec_channel_open_failure_ok(x),
        SSHMsgV::ChannelWindowAdjust(x) => spec_channel_window_adjust_ok(x),
        SSHMsgV::ChannelData(x) => spec_channel_data_ok(x),
        SSHMsgV::ChannelExtendedData(x) => spec_channel_extended_data_ok(x),
        SSHMsgV::ChannelEof(x) => spec_channel_eof_ok(x),
        SSHMsgV::ChannelClose(x) => spec_channel_close_ok(x),
        SSHMsgV::ChannelRequest(x) => spec_channel_request_ok(x),
        SSHMsgV::ChannelSuccess(x) => spec_channel_success_ok(x),
        SSHMsgV::ChannelFailure(x) => spec_channel_failure_ok(x),
    }
}

/// Outcome of decoding one whole message at `pos`: exactly one tag byte,
/// then the matching variant's fields.  A tag that matches no variant is
/// `Unrecognized`.
pub open spec fn spec_read_message(b: Seq<u8>, pos: int) -> Result<(SSHMsgV, int), SSHError> {
    match spec_read_u8(b, pos) {
        Ok((magic, p)) => {
            if magic == MAGIC_DISCONNECT {
                match spec_read_disconnect(b, p) {
                    Ok((x, end)) => Ok((SSHMsgV::Disconnect(x), end)),
                    Err(e) => Err(e),
                }
            } else if magic == MAGIC_IGNORE {
                match spec_read_ignore(b, p) {
                    Ok((x, end)) => Ok((SSHMsgV::Ignore(x), end)),
                    Err(e) => Err(e),
                }
            } else if magic == MAGIC_UNIMPLEMENTED {
                match spec_read_unimplemented(b, p) {
                    Ok((x, end)) => Ok((SSHMsgV::Unimplemented(x), end)),
                    Err(e) => Err(e),
                }
            } else if magic == MAGIC_DEBUG {
                match spec_read_debug_msg(b, p) {
                    Ok((x, end)) => Ok((SSHMsgV::Debug(x), end)),
                    Err(e) => Err(e),
                }
            } else if magic == MAGIC_SERVICE_REQUEST {
                match spec_read_service_request(b, p) {
                    Ok((x, end)) => Ok((SSHMsgV::ServiceRequest(x), end)),
                    Err(e) => Err(e),
                }
            } else if magic == MAGIC_SERVICE_ACCEPT {
                match spec_read_service_accept(b, p) {
                    Ok((x, end)) => Ok((SSHMsgV::ServiceAccept(x), end)),
                    Err(e) => Err(e),
                }
            } else if magic == MAGIC_KEX_INIT {
                match spec_read_kex_init(b, p) {
                    Ok((x, end)) => Ok((SSHMsgV::KexInit(x), end)),
                    Err(e) => Err(e),
                }
            } else if magic == MAGIC_NEW_KEYS {
                match spec_read_new_keys(b, p) {
                    Ok((x, end)) => Ok((SSHMsgV::NewKeys(x), end)),
                    Err(e) => Err(e),
                }
            } else if magic == MAGIC_KEX_ECDH_INIT {
                match spec_read_kex_ecdh_init(b, p) {
                    Ok((x, end)) => Ok((SSHMsgV::KexECDHInit(x), end)),
                    Err(e) => Err(e),
                }
            } else if magic == MAGIC_KEX_ECDH_REPLY {
                match spec_read_kex_ecdh_reply(b, p) {
                    Ok((x, end)) => Ok((SSHMsgV::KexECDHReply(x), end)),
                    Err(e) => Err(e),
                }
            } else if magic == MAGIC_USERAUTH_REQUEST {
                match spec_read_userauth_request(b, p) {
                    Ok((x, end)) => Ok((SSHMsgV::UserauthRequest(x), end)),
                    Err(e) => Err(e),
                }
            } else if magic == MAGIC_USERAUTH_FAILURE {
                match spec_read_userauth_failure(b, p) {
                    Ok((x, end)) => Ok((SSHMsgV::UserauthFailure(x), end)),
                    Err(e) => Err(e),
                }
            } else if magic == MAGIC_USERAUTH_SUCCESS {
                match spec_read_userauth_success(b, p) {
                    Ok((x, end)) => Ok((SSHMsgV::UserauthSuccess(x), end)),
                    Err(e) => Err(e),
                }
            } else if magic == MAGIC_USERAUTH_BANNER {
                match spec_read_userauth_banner(b, p) {
                    Ok((x, end)) => Ok((SSHMsgV::UserauthBanner(x), end)),
                    Err(e) => Err(e),
                }
            } else if magic == MAGIC_GLOBAL_REQUEST {
                match spec_read_global_request(b, p) {
                    Ok((x, end)) => Ok((SSHMsgV::GlobalRequest(x), end)),
                    Err(e) => Err(e),
                }
            } else if magic == MAGIC_REQUEST_SUCCESS {
                match spec_read_request_success(b, p) {
                    Ok((x, end)) => Ok((SSHMsgV::RequestSuccess(x), end)),
                    Err(e) => Err(e),
                }
            } else if magic == MAGIC_REQUEST_FAILURE {
                match spec_read_request_failure(b, p) {
                    Ok((x, end)) => Ok((SSHMsgV::RequestFailure(x), end)),
                    Err(e) => Err(e),
                }
            } else if magic == MAGIC_CHANNEL_OPEN {
                match spec_read_channel_open(b, p) {
                    Ok((x, end)) => Ok((SSHMsgV::ChannelOpen(x), end)),
                    Err(e) => Err(e),
                }
            } else if magic == MAGIC_CHANNEL_OPEN_CONFIRMATION {
                match spec_read_channel_open_confirmation(b, p) {
                    Ok((x, end)) => Ok((SSHMsgV::ChannelOpenConfirmation(x), end)),
                    Err(e) => Err(e),
                }
            } else if magic == MAGIC_CHANNEL_OPEN_FAILURE {
                match spec_read_channel_open_failure(b, p) {
                    Ok((x, end)) => Ok((SSHMsgV::ChannelOpenFailure(x), end)),
                    Err(e) => Err(e),
                }
            } else if magic == MAGIC_CHANNEL_WINDOW_ADJUST {
                match spec_read_channel_window_adjust(b, p) {
                    Ok((x, end)) => Ok((SSHMsgV::ChannelWindowAdjust(x), end)),
                    Err(e) => Err(e),
                }
            } else if magic == MAGIC_CHANNEL_DATA {
                match spec_read_channel_data(b, p) {
                    Ok((x, end)) => Ok((SSHMsgV::ChannelData(x), end)),
                    Err(e) => Err(e),
                }
            } else if magic == MAGIC_CHANNEL_EXTENDED_DATA {
                match spec_read_channel_extended_data(b, p) {
                    Ok((x, end)) => Ok((SSHMsgV::ChannelExtendedData(x), end)),
                    Err(e) => Err(e),
                }
            } else if magic == MAGIC_CHANNEL_EOF {
                match spec_read_channel_eof(b, p) {
                    Ok((x, end)) => Ok((SSHMsgV::ChannelEof(x), end)),
                    Err(e) => Err(e),
                }
            } else if magic == MAGIC_CHANNEL_CLOSE {
                match spec_read_channel_close(b, p) {
                    Ok((x, end)) => Ok((SSHMsgV::ChannelClose(x), end)),
                    Err(e) => Err(e),
                }
            } else if magic == MAGIC_CHANNEL_REQUEST {
                match spec_read_channel_request(b, p) {
                    Ok((x, end)) => Ok((SSHMsgV::ChannelRequest(x), end)),
                    Err(e) => Err(e),
                }
            } else if magic == MAGIC_CHANNEL_SUCCESS {
                match spec_read_channel_success(b, p) {
                    Ok((x, end)) => Ok((SSHMsgV::ChannelSuccess(x), end)),
                    Err(e) => Err(e),
                }
            } else if magic == MAGIC_CHANNEL_FAILURE {
                match spec_read_channel_failure(b, p) {
                    Ok((x, end)) => Ok((SSHMsgV::ChannelFailure(x), end)),
                    Err(e) => Err(e),
                }
            } else {
                Err(SSHError::Unrecognized)
            }
        },
        Err(e) => Err(e),
    }
}

/// Read exactly one tag byte and dispatch to the field decoder of the
/// matching variant; the single entry point for decoding a message body.
#[verifier::rlimit(100)]
#[verifier::spinoff_prover]
pub fn read_next_message(buf: &Vec<u8>, pos: usize) -> (r: Result<(SSHMsg, usize), SSHError>)
    requires
        pos <= buf.len(),
    ensures
        match r {
            Ok((m, end)) => pos <= end <= buf.len() && spec_read_message(buf@, pos as int)
                == Ok::<(SSHMsgV, int), SSHError>((m@, end as int)),
            Err(e) => spec_read_message(buf@, pos as int) == Err::<(SSHMsgV, int), SSHError>(e),
        },
{
    let (magic, p) = match read_u8(buf, pos) {
        Ok(v) => v,
        Err(e) => {
            return Err(e);
        },
    };
    if magic == MAGIC_DISCONNECT {
        match MsgDisconnect::read_ssh(buf, p) {
            Ok((x, end)) => Ok((SSHMsg::Disconnect(x), end)),
            Err(e) => Err(e),
        }
    } else if magic == MAGIC_IGNORE {
        match MsgIgnore::read_ssh(buf, p) {
            Ok((x, end)) => Ok((SSHMsg::Ignore(x), end)),
            Err(e) => Err(e),
        }
    } else if magic == MAGIC_UNIMPLEMENTED {
        match MsgUnimplemented::read_ssh(buf, p) {
            Ok((x, end)) => Ok((SSHMsg::Unimplemented(x), end)),
            Err(e) => Err(e),
        }
    } else if magic == MAGIC_DEBUG {
        match MsgDebug::read_ssh(buf, p) {
            Ok((x, end)) => Ok((SSHMsg::Debug(x), end)),
            Err(e) => Err(e),
        }
    } else if magic == MAGIC_SERVICE_REQUEST {
        match MsgServiceRequest::read_ssh(buf, p) {
            Ok((x, end)) => Ok((SSHMsg::ServiceRequest(x), end)),
            Err(e) => Err(e),
        }
    } else if magic == MAGIC_SERVICE_ACCEPT {
        match MsgServiceAccept::read_ssh(buf, p) {
            Ok((x, end)) => Ok((SSHMsg::ServiceAccept(x), end)),
            Err(e) => Err(e),
        }
    } else if magic == MAGIC_KEX_INIT {
        match MsgKexInit::read_ssh(buf, p) {
            Ok((x, end)) => Ok((SSHMsg::KexInit(x), end)),
            Err(e) => Err(e),
        }
    } else if magic == MAGIC_NEW_KEYS {
        match MsgNewKeys::read_ssh(buf, p) {
            Ok((x, end)) => Ok((SSHMsg::NewKeys(x), end)),
            Err(e) => Err(e),
        }
    } else if magic == MAGIC_KEX_ECDH_INIT {
        match MsgKexECDHInit::read_ssh(buf, p) {
            Ok((x, end)) => Ok((SSHMsg::KexECDHInit(x), end)),
            Err(e) => Err(e),
        }
    } else if magic == MAGIC_KEX_ECDH_REPLY {
        match MsgKexECDHReply::read_ssh(buf, p) {
            Ok((x, end)) => Ok((SSHMsg::KexECDHReply(x), end)),
            Err(e) => Err(e),
        }
    } else if magic == MAGIC_USERAUTH_REQUEST {
        match MsgUserauthRequest::read_ssh(buf, p) {
            Ok((x, end)) => Ok((SSHMsg::UserauthRequest(x), end)),
            Err(e) => Err(e),
        }
    } else if magic == MAGIC_USERAUTH_FAILURE {
        match MsgUserauthFailure::read_ssh(buf, p) {
            Ok((x, end)) => Ok((SSHMsg::UserauthFailure(x), end)),
            Err(e) => Err(e),
        }
    } else if magic == MAGIC_USERAUTH_SUCCESS {
        match MsgUserauthSuccess::read_ssh(buf, p) {
            Ok((x, end)) => Ok((SSHMsg::UserauthSuccess(x), end)),
            Err(e) => Err(e),
        }
    } else if magic == MAGIC_USERAUTH_BANNER {
        match MsgUserauthBanner::read_ssh(buf, p) {
            Ok((x, end)) => Ok((SSHMsg::UserauthBanner(x), end)),
            Err(e) => Err(e),
        }
    } else if magic == MAGIC_GLOBAL_REQUEST {
        match MsgGlobalRequest::read_ssh(buf, p) {
            Ok((x, end)) => Ok((SSHMsg::GlobalRequest(x), end)),
            Err(e) => Err(e),
        }
    } else if magic == MAGIC_REQUEST_SUCCESS {
        match MsgRequestSuccess::read_ssh(buf, p) {
            Ok((x, end)) => Ok((SSHMsg::RequestSuccess(x), end)),
            Err(e) => Err(e),
        }
    } else if magic == MAGIC_REQUEST_FAILURE {
        match MsgRequestFailure::read_ssh(buf, p) {
            Ok((x, end)) => Ok((SSHMsg::RequestFailure(x), end)),
            Err(e) => Err(e),
        }
    } else if magic == MAGIC_CHANNEL_OPEN {
        match MsgChannelOpen::read_ssh(buf, p) {
            Ok((x, end)) => Ok((SSHMsg::ChannelOpen(x), end)),
            Err(e) => Err(e),
        }
    } else if magic == MAGIC_CHANNEL_OPEN_CONFIRMATION {
        match MsgChannelOpenConfirmation::read_ssh(buf, p) {
            Ok((x, end)) => Ok((SSHMsg::ChannelOpenConfirmation(x), end)),
            Err(e) => Err(e),
        }
    } else if magic == MAGIC_CHANNEL_OPEN_FAILURE {
        match MsgChannelOpenFailure::read_ssh(buf, p) {
            Ok((x, end)) => Ok((SSHMsg::ChannelOpenFailure(x), end)),
            Err(e) => Err(e),
        }
    } else if magic == MAGIC_CHANNEL_WINDOW_ADJUST {
        match MsgChannelWindowAdjust::read_ssh(buf, p) {
            Ok((x, end)) => Ok((SSHMsg::ChannelWindowAdjust(x), end)),
            Err(e) => Err(e),
        }
    } else if magic == MAGIC_CHANNEL_DATA {
        match MsgChannelData::read_ssh(buf, p) {
            Ok((x, end)) => Ok((SSHMsg::ChannelData(x), end)),
            Err(e) => Err(e),
        }
    } else if magic == MAGIC_CHANNEL_EXTENDED_DATA {
        match MsgChannelExtendedData::read_ssh(buf, p) {
            Ok((x, end)) => Ok((SSHMsg::ChannelExtendedData(x), end)),
            Err(e) => Err(e),
        }
    } else if magic == MAGIC_CHANNEL_EOF {
        match MsgChannelEof::read_ssh(buf, p) {
            Ok((x, end)) => Ok((SSHMsg::ChannelEof(x), end)),
            Err(e) => Err(e),
        }
    } else if magic == MAGIC_CHANNEL_CLOSE {
        match MsgChannelClose::read_ssh(buf, p) {
            Ok((x, end)) => Ok((SSHMsg::ChannelClose(x), end)),
            Err(e) => Err(e),
        }
    } else if magic == MAGIC_CHANNEL_REQUEST {
        match MsgChannelRequest::read_ssh(buf, p) {
            Ok((x, end)) => Ok((SSHMsg::ChannelRequest(x), end)),
            Err(e) => Err(e),
        }
    } else if magic == MAGIC_CHANNEL_SUCCESS {
        match MsgChannelSuccess::read_ssh(buf, p) {
            Ok((x, end)) => Ok((SSHMsg::ChannelSuccess(x), end)),
            Err(e) => Err(e),
        }
    } else if magic == MAGIC_CHANNEL_FAILURE {
        match MsgChannelFailure::read_ssh(buf, p) {
            Ok((x, end)) => Ok((SSHMsg::ChannelFailure(x), end)),
            Err(e) => Err(e),
        }
    } else {
        Err(SSHError::Unrecognized)
    }
}

impl SSHMsg {
    /// Append the full wire form (tag, then fields) to `out`.
    pub fn write_ssh(&self, out: &mut Vec<u8>)
        requires
            spec_msg_ok(self@),
        ensures
            final(out)@ == old(out)@ + spec_msg_wire(self@),
    {
        match self {
            SSHMsg::Disconnect(x) => x.write_ssh(out),
            SSHMsg::Ignore(x) => x.write_ssh(out),
            SSHMsg::Unimplemented(x) => x.write_ssh(out),
            SSHMsg::Debug(x) => x.write_ssh(out),
            SSHMsg::ServiceRequest(x) => x.write_ssh(out),
            SSHMsg::ServiceAccept(x) => x.write_ssh(out),
            SSHMsg::KexInit(x) => x.write_ssh(out),
            SSHMsg::NewKeys(x) => x.write_ssh(out),
            SSHMsg::KexECDHInit(x) => x.write_ssh(out),
            SSHMsg::KexECDHReply(x) => x.write_ssh(out),
            SSHMsg::UserauthRequest(x) => x.write_ssh(out),
            SSHMsg::UserauthFailure(x) => x.write_ssh(out),
            SSHMsg::UserauthSuccess(x) => x.write_ssh(out),
            SSHMsg::UserauthBanner(x) => x.write_ssh(out),
            SSHMsg::GlobalRequest(x) => x.write_ssh(out),
            SSHMsg::RequestSuccess(x) => x.write_ssh(out),
            SSHMsg::RequestFailure(x) => x.write_ssh(out),
            SSHMsg::ChannelOpen(x) => x.write_ssh(out),
            SSHMsg::ChannelOpenConfirmation(x) => x.write_ssh(out),
            SSHMsg::ChannelOpenFailure(x) => x.write_ssh(out),
            SSHMsg::ChannelWindowAdjust(x) => x.write_ssh(out),
            SSHMsg::ChannelData(x) => x.write_ssh(out),
            SSHMsg::ChannelExtendedData(x) => x.write_ssh(out),
            SSHMsg::ChannelEof(x) => x.write_ssh(out),
            SSHMsg::ChannelClose(x) => x.write_ssh(out),
            SSHMsg::ChannelRequest(x) => x.write_ssh(out),
            SSHMsg::ChannelSuccess(x) => x.write_ssh(out),
            SSHMsg::ChannelFailure(x) => x.write_ssh(out),
        }
    }
}

#[verifier::rlimit(100)]
#[verifier::spinoff_prover]
proof fn round_trip_disconnect(x: MsgDisconnectV)
    requires
        spec_disconnect_ok(x),
    ensures
        spec_read_message(spec_msg_wire(SSHMsgV::Disconnect(x)), 0) == Ok::<
            (SSHMsgV, int),
            SSHError,
        >((SSHMsgV::Disconnect(x), spec_msg_wire(SSHMsgV::Disconnect(x)).len() as int)),
{
    let b = spec_msg_wire(SSHMsgV::Disconnect(x));
    let fields = spec_disconnect_fields(x);
    assert(b[0] == MAGIC_DISCONNECT);
    assert(b.subrange(1, 1 + fields.len() as int) =~= fields);
    lemma_read_disconnect_at(b, 1, x);
}

#[verifier::rlimit(100)]
#[verifier::spinoff_prover]
proof fn round_trip_ignore(x: MsgIgnoreV)
    requires
        spec_ignore_ok(x),
    ensures
        spec_read_message(spec_msg_wire(SSHMsgV::Ignore(x)), 0) == Ok::<
            (SSHMsgV, int),
            SSHError,
        >((SSHMsgV::Ignore(x), spec_msg_wire(SSHMsgV::Ignore(x)).len() as int)),
{
    let b = spec_msg_wire(SSHMsgV::Ignore(x));
    let fields = spec_ignore_fields(x);
    assert(b[0] == MAGIC_IGNORE);
    assert(b.subrange(1, 1 + fields.len() as int) =~= fields);
    lemma_read_ignore_at(b, 1, x);
}

#[verifier::rlimit(100)]
#[verifier::spinoff_prover]
proof fn round_trip_unimplemented(x: MsgUnimplementedV)
    requires
        spec_unimplemented_ok(x),
    ensures
        spec_read_message(spec_msg_wire(SSHMsgV::Unimplemented(x)), 0) == Ok::<
            (SSHMsgV, int),
            SSHError,
        >((SSHMsgV::Unimplemented(x), spec_msg_wire(SSHMsgV::Unimplemented(x)).len() as int)),
{
    let b = spec_msg_wire(SSHMsgV::Unimplemented(x));
    let fields = spec_unimplemented_fields(x);
    assert(b[0] == MAGIC_UNIMPLEMENTED);
    assert(b.subrange(1, 1 + fields.len() as int) =~= fields);
    lemma_read_unimplemented_at(b, 1, x);
}

#[verifier::rlimit(100)]
#[verifier::spinoff_prover]
proof fn round_trip_debug_msg(x: MsgDebugV)
    requires
        spec_debug_msg_ok(x),
    ensures
        spec_read_message(spec_msg_wire(SSHMsgV::Debug(x)), 0) == Ok::<
            (SSHMsgV, int),
            SSHError,
        >((SSHMsgV::Debug(x), spec_msg_wire(SSHMsgV::Debug(x)).len() as int)),
{
    let b = spec_msg_wire(SSHMsgV::Debug(x));
    let fields = spec_debug_msg_fields(x);
    assert(b[0] == MAGIC_DEBUG);
    assert(b.subrange(1, 1 + fields.len() as int) =~= fields);
    lemma_read_debug_msg_at(b, 1, x);
}

#[verifier::rlimit(100)]
#[verifier::spinoff_prover]
proof fn round_trip_service_request(x: MsgServiceRequestV)
    requires
        spec_service_request_ok(x),
    ensures
        spec_read_message(spec_msg_wire(SSHMsgV::ServiceRequest(x)), 0) == Ok::<
            (SSHMsgV, int),
            SSHError,
        >((SSHMsgV::ServiceRequest(x), spec_msg_wire(SSHMsgV::ServiceRequest(x)).len() as int)),
{
    let b = spec_msg_wire(SSHMsgV::ServiceRequest(x));
    let fields = spec_service_request_fields(x);
    assert(b[0] == MAGIC_SERVICE_REQUEST);
    assert(b.subrange(1, 1 + fields.len() as int) =~= fields);
    lemma_read_service_request_at(b, 1, x);
}

#[verifier::rlimit(100)]
#[verifier::spinoff_prover]
proof fn round_trip_service_accept(x: MsgServiceAcceptV)
    requires
        spec_service_accept_ok(x),
    ensures
        spec_read_message(spec_msg_wire(SSHMsgV::ServiceAccept(x)), 0) == Ok::<
            (SSHMsgV, int),
            SSHError,
        >((SSHMsgV::ServiceAccept(x), spec_msg_wire(SSHMsgV::ServiceAccept(x)).len() as int)),
{
    let b = spec_msg_wire(SSHMsgV::ServiceAccept(x));
    let fields = spec_service_accept_fields(x);
    assert(b[0] == MAGIC_SERVICE_ACCEPT);
    assert(b.subrange(1, 1 + fields.len() as int) =~= fields);
    lemma_read_service_accept_at(b, 1, x);
}

#[verifier::rlimit(100)]
#[verifier::spinoff_prover]
proof fn round_trip_kex_init(x: MsgKexInitV)
    requires
        spec_kex_init_ok(x),
    ensures
        spec_read_message(spec_msg_wire(SSHMsgV::KexInit(x)), 0) == Ok::<
            (SSHMsgV, int),
            SSHError,
        >((SSHMsgV::KexInit(x), spec_msg_wire(SSHMsgV::KexInit(x)).len() as int)),
{
    let b = spec_msg_wire(SSHMsgV::KexInit(x));
    let fields = spec_kex_init_fields(x);
    assert(b[0] == MAGIC_KEX_INIT);
    assert(b.subrange(1, 1 + fields.len() as int) =~= fields);
    lemma_read_kex_init_at(b, 1, x);
}

#[verifier::rlimit(100)]
#[verifier::spinoff_prover]
proof fn round_trip_new_keys(x: MsgNewKeysV)
    requires
        spec_new_keys_ok(x),
    ensures
        spec_read_message(spec_msg_wire(SSHMsgV::NewKeys(x)), 0) == Ok::<
            (SSHMsgV, int),
            SSHError,
        >((SSHMsgV::NewKeys(x), spec_msg_wire(SSHMsgV::NewKeys(x)).len() as int)),
{
    let b = spec_msg_wire(SSHMsgV::NewKeys(x));
    let fields = spec_new_keys_fields(x);
    assert(b[0] == MAGIC_NEW_KEYS);
    assert(b.subrange(1, 1 + fields.len() as int) =~= fields);
    lemma_read_new_keys_at(b, 1, x);
}

#[verifier::rlimit(100)]
#[verifier::spinoff_prover]
proof fn round_trip_kex_ecdh_init(x: MsgKexECDHInitV)
    requires
        spec_kex_ecdh_init_ok(x),
    ensures
        spec_read_message(spec_msg_wire(SSHMsgV::KexECDHInit(x)), 0) == Ok::<
            (SSHMsgV, int),
            SSHError,
        >((SSHMsgV::KexECDHInit(x), spec_msg_wire(SSHMsgV::KexECDHInit(x)).len() as int)),
{
    let b = spec_msg_wire(SSHMsgV::KexECDHInit(x));
    let fields = spec_kex_ecdh_init_fields(x);
    assert(b[0] == MAGIC_KEX_ECDH_INIT);
    assert(b.subrange(1, 1 + fields.len() as int) =~= fields);
    lemma_read_kex_ecdh_init_at(b, 1, x);
}

#[verifier::rlimit(100)]
#[verifier::spinoff_prover]
proof fn round_trip_kex_ecdh_reply(x: MsgKexECDHReplyV)
    requires
        spec_kex_ecdh_reply_ok(x),
    ensures
        spec_read_message(spec_msg_wire(SSHMsgV::KexECDHReply(x)), 0) == Ok::<
            (SSHMsgV, int),
            SSHError,
        >((SSHMsgV::KexECDHReply(x), spec_msg_wire(SSHMsgV::KexECDHReply(x)).len() as int)),
{
    let b = spec_msg_wire(SSHMsgV::KexECDHReply(x));
    let fields = spec_kex_ecdh_reply_fields(x);
    assert(b[0] == MAGIC_KEX_ECDH_REPLY);
    assert(b.subrange(1, 1 + fields.len() as int) =~= fields);
    lemma_read_kex_ecdh_reply_at(b, 1, x);
}

#[verifier::rlimit(100)]
#[verifier::spinoff_prover]
proof fn round_trip_userauth_request(x: MsgUserauthRequestV)
    requires
        spec_userauth_request_ok(x),
    ensures
        spec_read_message(spec_msg_wire(SSHMsgV::UserauthRequest(x)), 0) == Ok::<
            (SSHMsgV, int),
            SSHError,
        >((SSHMsgV::UserauthRequest(x), spec_msg_wire(SSHMsgV::UserauthRequest(x)).len() as int)),
{
    let b = spec_msg_wire(SSHMsgV::UserauthRequest(x));
    let fields = spec_userauth_request_fields(x);
    assert(b[0] == MAGIC_USERAUTH_REQUEST);
    assert(b.subrange(1, 1 + fields.len() as int) =~= fields);
    lemma_read_userauth_request_at(b, 1, x);
}

#[verifier::rlimit(100)]
#[verifier::spinoff_prover]
proof fn round_trip_userauth_failure(x: MsgUserauthFailureV)
    requires
        spec_userauth_failure_ok(x),
    ensures
        spec_read_message(spec_msg_wire(SSHMsgV::UserauthFailure(x)), 0) == Ok::<
            (SSHMsgV, int),
            SSHError,
        >((SSHMsgV::UserauthFailure(x), spec_msg_wire(SSHMsgV::UserauthFailure(x)).len() as int)),
{
    let b = spec_msg_wire(SSHMsgV::UserauthFailure(x));
    let fields = spec_userauth_failure_fields(x);
    assert(b[0] == MAGIC_USERAUTH_FAILURE);
    assert(b.subrange(1, 1 + fields.len() as int) =~= fields);
    lemma_read_userauth_failure_at(b, 1, x);
}

#[verifier::rlimit(100)]
#[verifier::spinoff_prover]
proof fn round_trip_userauth_success(x: MsgUserauthSuccessV)
    requires
        spec_userauth_success_ok(x),
    ensures
        spec_read_message(spec_msg_wire(SSHMsgV::UserauthSuccess(x)), 0) == Ok::<
            (SSHMsgV, int),
            SSHError,
        >((SSHMsgV::UserauthSuccess(x), spec_msg_wire(SSHMsgV::UserauthSuccess(x)).len() as int)),
{
    let b = spec_msg_wire(SSHMsgV::UserauthSuccess(x));
    let fields = spec_userauth_success_fields(x);
    assert(b[0] == MAGIC_USERAUTH_SUCCESS);
    assert(b.subrange(1, 1 + fields.len() as int) =~= fields);
    lemma_read_userauth_success_at(b, 1, x);
}

#[verifier::rlimit(100)]
#[verifier::spinoff_prover]
proof fn round_trip_userauth_banner(x: MsgUserauthBannerV)
    requires
        spec_userauth_banner_ok(x),
    ensures
        spec_read_message(spec_msg_wire(SSHMsgV::UserauthBanner(x)), 0) == Ok::<
            (SSHMsgV, int),
            SSHError,
        >((SSHMsgV::UserauthBanner(x), spec_msg_wire(SSHMsgV::UserauthBanner(x)).len() as int)),
{
    let b = spec_msg_wire(SSHMsgV::UserauthBanner(x));
    let fields = spec_userauth_banner_fields(x);
    assert(b[0] == MAGIC_USERAUTH_BANNER);
    assert(b.subrange(1, 1 + fields.len() as int) =~= fields);
    lemma_read_userauth_banner_at(b, 1, x);
}

#[verifier::rlimit(100)]
#[verifier::spinoff_prover]
proof fn round_trip_global_request(x: MsgGlobalRequestV)
    requires
        spec_global_request_ok(x),
    ensures
        spec_read_message(spec_msg_wire(SSHMsgV::GlobalRequest(x)), 0) == Ok::<
            (SSHMsgV, int),
            SSHError,
        >((SSHMsgV::GlobalRequest(x), spec_msg_wire(SSHMsgV::GlobalRequest(x)).len() as int)),
{
    let b = spec_msg_wire(SSHMsgV::GlobalRequest(x));
    let fields = spec_global_request_fields(x);
    assert(b[0] == MAGIC_GLOBAL_REQUEST);
    assert(b.subrange(1, 1 + fields.len() as int) =~= fields);
    lemma_read_global_request_at(b, 1, x);
}

#[verifier::rlimit(100)]
#[verifier::spinoff_prover]
proof fn round_trip_request_success(x: MsgRequestSuccessV)
    requires
        spec_request_success_ok(x),
    ensures
        spec_read_message(spec_msg_wire(SSHMsgV::RequestSuccess(x)), 0) == Ok::<
            (SSHMsgV, int),
            SSHError,
        >((SSHMsgV::RequestSuccess(x), spec_msg_wire(SSHMsgV::RequestSuccess(x)).len() as int)),
{
    let b = spec_msg_wire(SSHMsgV::RequestSuccess(x));
    let fields = spec_request_success_fields(x);
    assert(b[0] == MAGIC_REQUEST_SUCCESS);
    assert(b.subrange(1, 1 + fields.len() as int) =~= fields);
    lemma_read_request_success_at(b, 1, x);
}

#[verifier::rlimit(100)]
#[verifier::spinoff_prover]
proof fn round_trip_request_failure(x: MsgRequestFailureV)
    requires
        spec_request_failure_ok(x),
    ensures
        spec_read_message(spec_msg_wire(SSHMsgV::RequestFailure(x)), 0) == Ok::<
            (SSHMsgV, int),
            SSHError,
        >((SSHMsgV::RequestFailure(x), spec_msg_wire(SSHMsgV::RequestFailure(x)).len() as int)),
{
    let b = spec_msg_wire(SSHMsgV::RequestFailure(x));
    let fields = spec_request_failure_fields(x);
    assert(b[0] == MAGIC_REQUEST_FAILURE);
    assert(b.subrange(1, 1 + fields.len() as int) =~= fields);
    lemma_read_request_failure_at(b, 1, x);
}

#[verifier::rlimit(100)]
#[verifier::spinoff_prover]
proof fn round_trip_channel_open(x: MsgChannelOpenV)
    requires
        spec_channel_open_ok(x),
    ensures
        spec_read_message(spec_msg_wire(SSHMsgV::ChannelOpen(x)), 0) == Ok::<
            (SSHMsgV, int),
            SSHError,
        >((SSHMsgV::ChannelOpen(x), spec_msg_wire(SSHMsgV::ChannelOpen(x)).len() as int)),
{
    let b = spec_msg_wire(SSHMsgV::ChannelOpen(x));
    let fields = spec_channel_open_fields(x);
    assert(b[0] == MAGIC_CHANNEL_OPEN);
    assert(b.subrange(1, 1 + fields.len() as int) =~= fields);
    lemma_read_channel_open_at(b, 1, x);
}

#[verifier::rlimit(100)]
#[verifier::spinoff_prover]
proof fn round_trip_channel_open_confirmation(x: MsgChannelOpenConfirmationV)
    requires
        spec_channel_open_confirmation_ok(x),
    ensures
        spec_read_message(spec_msg_wire(SSHMsgV::ChannelOpenConfirmation(x)), 0) == Ok::<
            (SSHMsgV, int),
            SSHError,
        >((SSHMsgV::ChannelOpenConfirmation(x), spec_msg_wire(SSHMsgV::ChannelOpenConfirmation(x)).len() as int)),
{
    let b = spec_msg_wire(SSHMsgV::ChannelOpenConfirmation(x));
    let fields = spec_channel_open_confirmation_fields(x);
    assert(b[0] == MAGIC_CHANNEL_OPEN_CONFIRMATION);
    assert(b.subrange(1, 1 + fields.len() as int) =~= fields);
    lemma_read_channel_open_confirmation_at(b, 1, x);
}

#[verifier::rlimit(100)]
#[verifier::spinoff_prover]
proof fn round_trip_channel_open_failure(x: MsgChannelOpenFailureV)
    requires
        spec_channel_open_failure_ok(x),
    ensures
        spec_read_message(spec_msg_wire(SSHMsgV::ChannelOpenFailure(x)), 0) == Ok::<
            (SSHMsgV, int),
            SSHError,
        >((SSHMsgV::ChannelOpenFailure(x), spec_msg_wire(SSHMsgV::ChannelOpenFailure(x)).len() as int)),
{
    let b = spec_msg_wire(SSHMsgV::ChannelOpenFailure(x));
    let fields = spec_channel_open_failure_fields(x);
    assert(b[0] == MAGIC_CHANNEL_OPEN_FAILURE);
    assert(b.subrange(1, 1 + fields.len() as int) =~= fields);
    lemma_read_channel_open_failure_at(b, 1, x);
}

#[verifier::rlimit(100)]
#[verifier::spinoff_prover]
proof fn round_trip_channel_window_adjust(x: MsgChannelWindowAdjustV)
    requires
        spec_channel_window_adjust_ok(x),
    ensures
        spec_read_message(spec_msg_wire(SSHMsgV::ChannelWindowAdjust(x)), 0) == Ok::<
            (SSHMsgV, int),
            SSHError,
        >((SSHMsgV::ChannelWindowAdjust(x), spec_msg_wire(SSHMsgV::ChannelWindowAdjust(x)).len() as int)),
{
    let b = spec_msg_wire(SSHMsgV::ChannelWindowAdjust(x));
    let fields = spec_channel_window_adjust_fields(x);
    assert(b[0] == MAGIC_CHANNEL_WINDOW_ADJUST);
    assert(b.subrange(1, 1 + fields.len() as int) =~= fields);
    lemma_read_channel_window_adjust_at(b, 1, x);
}

#[verifier::rlimit(100)]
#[verifier::spinoff_prover]
proof fn round_trip_channel_data(x: MsgChannelDataV)
    requires
        spec_channel_data_ok(x),
    ensures
        spec_read_message(spec_msg_wire(SSHMsgV::ChannelData(x)), 0) == Ok::<
            (SSHMsgV, int),
            SSHError,
        >((SSHMsgV::ChannelData(x), spec_msg_wire(SSHMsgV::ChannelData(x)).len() as int)),
{
    let b = spec_msg_wire(SSHMsgV::ChannelData(x));
    let fields = spec_channel_data_fields(x);
    assert(b[0] == MAGIC_CHANNEL_DATA);
    assert(b.subrange(1, 1 + fields.len() as int) =~= fields);
    lemma_read_channel_data_at(b, 1, x);
}

#[verifier::rlimit(100)]
#[verifier::spinoff_prover]
proof fn round_trip_channel_extended_data(x: MsgChannelExtendedDataV)
    requires
        spec_channel_extended_data_ok(x),
    ensures
        spec_read_message(spec_msg_wire(SSHMsgV::ChannelExtendedData(x)), 0) == Ok::<
            (SSHMsgV, int),
            SSHError,
        >((SSHMsgV::ChannelExtendedData(x), spec_msg_wire(SSHMsgV::ChannelExtendedData(x)).len() as int)),
{
    let b = spec_msg_wire(SSHMsgV::ChannelExtendedData(x));
    let fields = spec_channel_extended_data_fields(x);
    assert(b[0] == MAGIC_CHANNEL_EXTENDED_DATA);
    assert(b.subrange(1, 1 + fields.len() as int) =~= fields);
    lemma_read_channel_extended_data_at(b, 1, x);
}

#[verifier::rlimit(100)]
#[verifier::spinoff_prover]
proof fn round_trip_channel_eof(x: MsgChannelEofV)
    requires
        spec_channel_eof_ok(x),
    ensures
        spec_read_message(spec_msg_wire(SSHMsgV::ChannelEof(x)), 0) == Ok::<
            (SSHMsgV, int),
            SSHError,
        >((SSHMsgV::ChannelEof(x), spec_msg_wire(SSHMsgV::ChannelEof(x)).len() as int)),
{
    let b = spec_msg_wire(SSHMsgV::ChannelEof(x));
    let fields = spec_channel_eof_fields(x);
    assert(b[0] == MAGIC_CHANNEL_EOF);
    assert(b.subrange(1, 1 + fields.len() as int) =~= fields);
    lemma_read_channel_eof_at(b, 1, x);
}

#[verifier::rlimit(100)]
#[verifier::spinoff_prover]
proof fn round_trip_channel_close(x: MsgChannelCloseV)
    requires
        spec_channel_close_ok(x),
    ensures
        spec_read_message(spec_msg_wire(SSHMsgV::ChannelClose(x)), 0) == Ok::<
            (SSHMsgV, int),
            SSHError,
        >((SSHMsgV::ChannelClose(x), spec_msg_wire(SSHMsgV::ChannelClose(x)).len() as int)),
{
    let b = spec_msg_wire(SSHMsgV::ChannelClose(x));
    let fields = spec_channel_close_fields(x);
    assert(b[0] == MAGIC_CHANNEL_CLOSE);
    assert(b.subrange(1, 1 + fields.len() as int) =~= fields);
    lemma_read_channel_close_at(b, 1, x);
}

#[verifier::rlimit(100)]
#[verifier::spinoff_prover]
proof fn round_trip_channel_request(x: MsgChannelRequestV)
    requires
        spec_channel_request_ok(x),
    ensures
        spec_read_message(spec_msg_wire(SSHMsgV::ChannelRequest(x)), 0) == Ok::<
            (SSHMsgV, int),
            SSHError,
        >((SSHMsgV::ChannelRequest(x), spec_msg_wire(SSHMsgV::ChannelRequest(x)).len() as int)),
{
    let b = spec_msg_wire(SSHMsgV::ChannelRequest(x));
    let fields = spec_channel_request_fields(x);
    assert(b[0] == MAGIC_CHANNEL_REQUEST);
    assert(b.subrange(1, 1 + fields.len() as int) =~= fields);
    lemma_read_channel_request_at(b, 1, x);
}

#[verifier::rlimit(100)]
#[verifier::spinoff_prover]
proof fn round_trip_channel_success(x: MsgChannelSuccessV)
    requires
        spec_channel_success_ok(x),
    ensures
        spec_read_message(spec_msg_wire(SSHMsgV::ChannelSuccess(x)), 0) == Ok::<
            (SSHMsgV, int),
            SSHError,
        >((SSHMsgV::ChannelSuccess(x), spec_msg_wire(SSHMsgV::ChannelSuccess(x)).len() as int)),
{
    let b = spec_msg_wire(SSHMsgV::ChannelSuccess(x));
    let fields = spec_channel_success_fields(x);
    assert(b[0] == MAGIC_CHANNEL_SUCCESS);
    assert(b.subrange(1, 1 + fields.len() as int) =~= fields);
    lemma_read_channel_success_at(b, 1, x);
}

#[verifier::rlimit(100)]
#[verifier::spinoff_prover]
proof fn round_trip_channel_failure(x: MsgChannelFailureV)
    requires
        spec_channel_failure_ok(x),
    ensures
        spec_read_message(spec_msg_wire(SSHMsgV::ChannelFailure(x)), 0) == Ok::<
            (SSHMsgV, int),
            SSHError,
        >((SSHMsgV::ChannelFailure(x), spec_msg_wire(SSHMsgV::ChannelFailure(x)).len() as int)),
{
    let b = spec_msg_wire(SSHMsgV::ChannelFailure(x));
    let fields = spec_channel_failure_fields(x);
    assert(b[0] == MAGIC_CHANNEL_FAILURE);
    assert(b.subrange(1, 1 + fields.len() as int) =~= fields);
    lemma_read_channel_failure_at(b, 1, x);
}

/// Round trip: decoding the encoding of any faithful message yields that
/// message back, consuming exactly its wire bytes.  This holds for every
/// variant, including records with empty, single-element and
/// multi-element name-lists.
pub proof fn lemma_msg_round_trip(m: SSHMsgV)
    requires
        spec_msg_ok(m),
    ensures
        spec_read_message(spec_msg_wire(m), 0) == Ok::<(SSHMsgV, int), SSHError>(
            (m, spec_msg_wire(m).len() as int),
        ),
{
    match m {
        SSHMsgV::Disconnect(x) => round_trip_disconnect(x),
        SSHMsgV::Ignore(x) => round_trip_ignore(x),
        SSHMsgV::Unimplemented(x) => round_trip_unimplemented(x),
        SSHMsgV::Debug(x) => round_trip_debug_msg(x),
        SSHMsgV::ServiceRequest(x) => round_trip_service_request(x),
        SSHMsgV::ServiceAccept(x) => round_trip_service_accept(x),
        SSHMsgV::KexInit(x) => round_trip_kex_init(x),
        SSHMsgV::NewKeys(x) => round_trip_new_keys(x),
        SSHMsgV::KexECDHInit(x) => round_trip_kex_ecdh_init(x),
        SSHMsgV::KexECDHReply(x) => round_trip_kex_ecdh_reply(x),
        SSHMsgV::UserauthRequest(x) => round_trip_userauth_request(x),
        SSHMsgV::UserauthFailure(x) => round_trip_userauth_failure(x),
        SSHMsgV::UserauthSuccess(x) => round_trip_userauth_success(x),
        SSHMsgV::UserauthBanner(x) => round_trip_userauth_banner(x),
        SSHMsgV::GlobalRequest(x) => round_trip_global_request(x),
        SSHMsgV::RequestSuccess(x) => round_trip_request_success(x),
        SSHMsgV::RequestFailure(x) => round_trip_request_failure(x),
        SSHMsgV::ChannelOpen(x) => round_trip_channel_open(x),
        SSHMsgV::ChannelOpenConfirmation(x) => round_trip_channel_open_confirmation(x),
        SSHMsgV::ChannelOpenFailure(x) => round_trip_channel_open_failure(x),
        SSHMsgV::ChannelWindowAdjust(x) => round_trip_channel_window_adjust(x),
        SSHMsgV::ChannelData(x) => round_trip_channel_data(x),
        SSHMsgV::ChannelExtendedData(x) => round_trip_channel_extended_data(x),
        SSHMsgV::ChannelEof(x) => round_trip_channel_eof(x),
        SSHMsgV::ChannelClose(x) => round_trip_channel_close(x),
        SSHMsgV::ChannelRequest(x) => round_trip_channel_request(x),
        SSHMsgV::ChannelSuccess(x) => round_trip_channel_success(x),
        SSHMsgV::ChannelFailure(x) => round_trip_channel_failure(x),
    }
}

/// Decide [`spec_msg_ok`] at run time: whether every length-prefixed field
/// of the message fits its 32-bit prefix and every name-list is faithfully
/// representable.  A caller tests this before encoding a message of unknown
/// provenance.
pub fn msg_ok(m: &SSHMsg) -> (r: bool)
    ensures
        r == spec_msg_ok(m@),
{
    match m {
        SSHMsg::Disconnect(x) => {
            x.description.as_str().as_bytes().len() <= 0xffff_ffff && x.language.as_str().as_bytes().len() <= 0xffff_ffff
        },
        SSHMsg::Ignore(x) => {
            x.data.as_str().as_bytes().len() <= 0xffff_ffff
        },
        SSHMsg::Unimplemented(_) => {
            true
        },
        SSHMsg::Debug(x) => {
            x.message.as_str().as_bytes().len() <= 0xffff_ffff && x.language.as_str().as_bytes().len() <= 0xffff_ffff
        },
        SSHMsg::ServiceRequest(x) => {
            x.service_name.as_str().as_bytes().len() <= 0xffff_ffff
        },
        SSHMsg::ServiceAccept(x) => {
            x.service_name.as_str().as_bytes().len() <= 0xffff_ffff
        },
        SSHMsg::KexInit(x) => {
            crate::namelist::name_list_ok(&x.kex_algorithms) && crate::namelist::name_list_ok(&x.server_host_key_algorithms) && crate::namelist::name_list_ok(&x.encryption_algorithms_client_to_server) && crate::namelist::name_list_ok(&x.encryption_algorithms_server_to_client) && crate::namelist::name_list_ok(&x.mac_algorithms_client_to_server) && crate::namelist::name_list_ok(&x.mac_algorithms_server_to_client) && crate::namelist::name_list_ok(&x.compression_algorithms_client_to_server) && crate::namelist::name_list_ok(&x.compression_algorithms_server_to_client) && crate::namelist::name_list_ok(&x.languages_client_to_server) && crate::namelist::name_list_ok(&x.languages_server_to_client)
        },
        SSHMsg::NewKeys(_) => {
            true
        },
        SSHMsg::KexECDHInit(x) => {
            x.q_c.len() <= 0xffff_ffff
        },
        SSHMsg::KexECDHReply(x) => {
            x.k_s.len() <= 0xffff_ffff && x.q_s.len() <= 0xffff_ffff && x.signature.len() <= 0xffff_ffff
        },
        SSHMsg::UserauthRequest(x) => {
            x.user_name.as_str().as_bytes().len() <= 0xffff_ffff && x.service_name.as_str().as_bytes().len() <= 0xffff_ffff && x.method_name.as_str().as_bytes().len() <= 0xffff_ffff
        },
        SSHMsg::UserauthFailure(x) => {
            crate::namelist::name_list_ok(&x.authentications_that_can_continue)
        },
        SSHMsg::UserauthSuccess(_) => {
            true
        },
        SSHMsg::UserauthBanner(x) => {
            x.message.as_str().as_bytes().len() <= 0xffff_ffff && x.language_tag.as_str().as_bytes().len() <= 0xffff_ffff
        },
        SSHMsg::GlobalRequest(x) => {
            x.request_name.as_str().as_bytes().len() <= 0xffff_ffff
        },
        SSHMsg::RequestSuccess(x) => {
            x.data.len() <= 0xffff_ffff
        },
        SSHMsg::RequestFailure(_) => {
            true
        },
        SSHMsg::ChannelOpen(x) => {
            x.channel_type.as_str().as_bytes().len() <= 0xffff_ffff
        },
        SSHMsg::ChannelOpenConfirmation(_) => {
            true
        },
        SSHMsg::ChannelOpenFailure(x) => {
            x.description.as_str().as_bytes().len() <= 0xffff_ffff && x.language_tag.as_str().as_bytes().len() <= 0xffff_ffff
        },
        SSHMsg::ChannelWindowAdjust(_) => {
            true
        },
        SSHMsg::ChannelData(x) => {
            x.data.len() <= 0xffff_ffff
        },
        SSHMsg::ChannelExtendedData(x) => {
            x.data.len() <= 0xffff_ffff
        },
        SSHMsg::ChannelEof(_) => {
            true
        },
        SSHMsg::ChannelClose(_) => {
            true
        },
        SSHMsg::ChannelRequest(x) => {
            x.request_type.as_str().as_bytes().len() <= 0xffff_ffff
        },
        SSHMsg::ChannelSuccess(_) => {
            true
        },
        SSHMsg::ChannelFailure(_) => {
            true
        },
    }
}

} // verus!
