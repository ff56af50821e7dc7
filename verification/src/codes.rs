//! Message tags and the numeric tagged enums: values whose wire form is a
//! 4-byte big-endian discriminant.  Decoding fails with `Malformed` on a
//! discriminant that matches no defined variant.

use vstd::prelude::*;
use crate::err::SSHError;
use crate::wire::{spec_be32, spec_read_u32, read_u32, write_u32, lemma_read_u32_at};

verus! {

// The tag ("magic") byte of each message variant.

pub const MAGIC_DISCONNECT: u8 = 1;
pub const MAGIC_IGNORE: u8 = 2;
pub const MAGIC_UNIMPLEMENTED: u8 = 3;
pub const MAGIC_DEBUG: u8 = 4;
pub const MAGIC_SERVICE_REQUEST: u8 = 5;
pub const MAGIC_SERVICE_ACCEPT: u8 = 6;
pub const MAGIC_KEX_INIT: u8 = 20;
pub const MAGIC_NEW_KEYS: u8 = 21;
pub const MAGIC_KEX_ECDH_INIT: u8 = 30;
pub const MAGIC_KEX_ECDH_REPLY: u8 = 31;
pub const MAGIC_USERAUTH_REQUEST: u8 = 50;
pub const MAGIC_USERAUTH_FAILURE: u8 = 51;
pub const MAGIC_USERAUTH_SUCCESS: u8 = 52;
pub const MAGIC_USERAUTH_BANNER: u8 = 53;
pub const MAGIC_GLOBAL_REQUEST: u8 = 80;
pub const MAGIC_REQUEST_SUCCESS: u8 = 81;
pub const MAGIC_REQUEST_FAILURE: u8 = 82;
pub const MAGIC_CHANNEL_OPEN: u8 = 90;
pub const MAGIC_CHANNEL_OPEN_CONFIRMATION: u8 = 91;
pub const MAGIC_CHANNEL_OPEN_FAILURE: u8 = 92;
pub const MAGIC_CHANNEL_WINDOW_ADJUST: u8 = 93;
pub const MAGIC_CHANNEL_DATA: u8 = 94;
pub const MAGIC_CHANNEL_EXTENDED_DATA: u8 = 95;
pub const MAGIC_CHANNEL_EOF: u8 = 96;
pub const MAGIC_CHANNEL_CLOSE: u8 = 97;
pub const MAGIC_CHANNEL_REQUEST: u8 = 98;
pub const MAGIC_CHANNEL_SUCCESS: u8 = 99;
pub const MAGIC_CHANNEL_FAILURE: u8 = 100;

/// The message tags, as a closed set of symbolic names.
#[derive(Clone, Copy, Debug, PartialEq, Eq, Structural)]
pub enum Magic {
    Disconnect,
    Ignore,
    Unimplemented,
    Debug,
    ServiceRequest,
    ServiceAccept,
    KexInit,
    NewKeys,
    KexECDHInit,
    KexECDHReply,
    UserauthRequest,
    UserauthFailure,
    UserauthSuccess,
    UserauthBanner,
    GlobalRequest,
    RequestSuccess,
    RequestFailure,
    ChannelOpen,
    ChannelOpenConfirmation,
    ChannelOpenFailure,
    ChannelWindowAdjust,
    ChannelData,
    ChannelExtendedData,
    ChannelEof,
    ChannelClose,
    ChannelRequest,
    ChannelSuccess,
    ChannelFailure,
}

/// The tag byte of each message variant.
pub open spec fn spec_magic_code(m: Magic) -> u8 {
    match m {
        Magic::Disconnect => MAGIC_DISCONNECT,
        Magic::Ignore => MAGIC_IGNORE,
        Magic::Unimplemented => MAGIC_UNIMPLEMENTED,
        Magic::Debug => MAGIC_DEBUG,
        Magic::ServiceRequest => MAGIC_SERVICE_REQUEST,
        Magic::ServiceAccept => MAGIC_SERVICE_ACCEPT,
        Magic::KexInit => MAGIC_KEX_INIT,
        Magic::NewKeys => MAGIC_NEW_KEYS,
        Magic::KexECDHInit => MAGIC_KEX_ECDH_INIT,
        Magic::KexECDHReply => MAGIC_KEX_ECDH_REPLY,
        Magic::UserauthRequest => MAGIC_USERAUTH_REQUEST,
        Magic::UserauthFailure => MAGIC_USERAUTH_FAILURE,
        Magic::UserauthSuccess => MAGIC_USERAUTH_SUCCESS,
        Magic::UserauthBanner => MAGIC_USERAUTH_BANNER,
        Magic::GlobalRequest => MAGIC_GLOBAL_REQUEST,
        Magic::RequestSuccess => MAGIC_REQUEST_SUCCESS,
        Magic::RequestFailure => MAGIC_REQUEST_FAILURE,
        Magic::ChannelOpen => MAGIC_CHANNEL_OPEN,
        Magic::ChannelOpenConfirmation => MAGIC_CHANNEL_OPEN_CONFIRMATION,
        Magic::ChannelOpenFailure => MAGIC_CHANNEL_OPEN_FAILURE,
        Magic::ChannelWindowAdjust => MAGIC_CHANNEL_WINDOW_ADJUST,
        Magic::ChannelData => MAGIC_CHANNEL_DATA,
        Magic::ChannelExtendedData => MAGIC_CHANNEL_EXTENDED_DATA,
        Magic::ChannelEof => MAGIC_CHANNEL_EOF,
        Magic::ChannelClose => MAGIC_CHANNEL_CLOSE,
        Magic::ChannelRequest => MAGIC_CHANNEL_REQUEST,
        Magic::ChannelSuccess => MAGIC_CHANNEL_SUCCESS,
        Magic::ChannelFailure => MAGIC_CHANNEL_FAILURE,
    }
}

impl Magic {
    /// The tag byte this name stands for.
    pub fn code(&self) -> (r: u8)
        ensures
            r == spec_magic_code(*self),
    {
        match self {
            Magic::Disconnect => MAGIC_DISCONNECT,
            Magic::Ignore => MAGIC_IGNORE,
            Magic::Unimplemented => MAGIC_UNIMPLEMENTED,
            Magic::Debug => MAGIC_DEBUG,
            Magic::ServiceRequest => MAGIC_SERVICE_REQUEST,
            Magic::ServiceAccept => MAGIC_SERVICE_ACCEPT,
            Magic::KexInit => MAGIC_KEX_INIT,
            Magic::NewKeys => MAGIC_NEW_KEYS,
            Magic::KexECDHInit => MAGIC_KEX_ECDH_INIT,
            Magic::KexECDHReply => MAGIC_KEX_ECDH_REPLY,
            Magic::UserauthRequest => MAGIC_USERAUTH_REQUEST,
            Magic::UserauthFailure => MAGIC_USERAUTH_FAILURE,
            Magic::UserauthSuccess => MAGIC_USERAUTH_SUCCESS,
            Magic::UserauthBanner => MAGIC_USERAUTH_BANNER,
            Magic::GlobalRequest => MAGIC_GLOBAL_REQUEST,
            Magic::RequestSuccess => MAGIC_REQUEST_SUCCESS,
            Magic::RequestFailure => MAGIC_REQUEST_FAILURE,
            Magic::ChannelOpen => MAGIC_CHANNEL_OPEN,
            Magic::ChannelOpenConfirmation => MAGIC_CHANNEL_OPEN_CONFIRMATION,
            Magic::ChannelOpenFailure => MAGIC_CHANNEL_OPEN_FAILURE,
            Magic::ChannelWindowAdjust => MAGIC_CHANNEL_WINDOW_ADJUST,
            Magic::ChannelData => MAGIC_CHANNEL_DATA,
            Magic::ChannelExtendedData => MAGIC_CHANNEL_EXTENDED_DATA,
            Magic::ChannelEof => MAGIC_CHANNEL_EOF,
            Magic::ChannelClose => MAGIC_CHANNEL_CLOSE,
            Magic::ChannelRequest => MAGIC_CHANNEL_REQUEST,
            Magic::ChannelSuccess => MAGIC_CHANNEL_SUCCESS,
            Magic::ChannelFailure => MAGIC_CHANNEL_FAILURE,
        }
    }
}

/// Reason codes carried as a 4-byte big-endian discriminant on the wire.
#[derive(Clone, Copy, Debug, PartialEq, Eq, Structural)]
pub enum DisconnectCode {
    HostNotAllowedToConnect,
    ProtocolError,
    KeyExchangeFailed,
    Reserved,
    MacError,
    CompressionError,
    ServiceNotAvailable,
    ProtocolVersionNotSupported,
    HostKeyNotVerifiable,
    ConnectionLost,
    ByApplication,
    TooManyConnections,
    AuthCancelledByUser,
    NoMoreAuthMethodsAvailable,
    IllegalUserName,
}

/// The wire discriminant of each variant.
pub open spec fn spec_disconnect_code_u32(c: DisconnectCode) -> u32 {
    match c {
        DisconnectCode::HostNotAllowedToConnect => 1,
        DisconnectCode::ProtocolError => 2,
        DisconnectCode::KeyExchangeFailed => 3,
        DisconnectCode::Reserved => 4,
        DisconnectCode::MacError => 5,
        DisconnectCode::CompressionError => 6,
        DisconnectCode::ServiceNotAvailable => 7,
        DisconnectCode::ProtocolVersionNotSupported => 8,
        DisconnectCode::HostKeyNotVerifiable => 9,
        DisconnectCode::ConnectionLost => 10,
        DisconnectCode::ByApplication => 11,
        DisconnectCode::TooManyConnections => 12,
        DisconnectCode::AuthCancelledByUser => 13,
        DisconnectCode::NoMoreAuthMethodsAvailable => 14,
        DisconnectCode::IllegalUserName => 15,
    }
}

/// The variant a wire discriminant denotes, if any.
pub open spec fn spec_disconnect_code_of(n: u32) -> Option<DisconnectCode> {
    if n == 1 {
        Some(DisconnectCode::HostNotAllowedToConnect)
    } else if n == 2 {
        Some(DisconnectCode::ProtocolError)
    } else if n == 3 {
        Some(DisconnectCode::KeyExchangeFailed)
    } else if n == 4 {
        Some(DisconnectCode::Reserved)
    } else if n == 5 {
        Some(DisconnectCode::MacError)
    } else if n == 6 {
        Some(DisconnectCode::CompressionError)
    } else if n == 7 {
        Some(DisconnectCode::ServiceNotAvailable)
    } else if n == 8 {
        Some(DisconnectCode::ProtocolVersionNotSupported)
    } else if n == 9 {
        Some(DisconnectCode::HostKeyNotVerifiable)
    } else if n == 10 {
        Some(DisconnectCode::ConnectionLost)
    } else if n == 11 {
        Some(DisconnectCode::ByApplication)
    } else if n == 12 {
        Some(DisconnectCode::TooManyConnections)
    } else if n == 13 {
        Some(DisconnectCode::AuthCancelledByUser)
    } else if n == 14 {
        Some(DisconnectCode::NoMoreAuthMethodsAvailable)
    } else if n == 15 {
        Some(DisconnectCode::IllegalUserName)
    } else {
        None
    }
}

/// Outcome of decoding a `DisconnectCode` at `pos`: an undefined
/// discriminant is `Malformed`.
pub open spec fn spec_read_disconnect_code(b: Seq<u8>, pos: int) -> Result<(DisconnectCode, int), SSHError> {
    match spec_read_u32(b, pos) {
        Ok((n, p)) => match spec_disconnect_code_of(n) {
            Some(c) => Ok((c, p)),
            None => Err(SSHError::Malformed),
        },
        Err(e) => Err(e),
    }
}

impl DisconnectCode {
    pub fn read_ssh(buf: &Vec<u8>, pos: usize) -> (r: Result<(DisconnectCode, usize), SSHError>)
        requires
            pos <= buf.len(),
        ensures
            match r {
                Ok((c, end)) => pos <= end <= buf.len() && spec_read_disconnect_code(buf@, pos as int)
                    == Ok::<(DisconnectCode, int), SSHError>((c, end as int)),
                Err(e) => spec_read_disconnect_code(buf@, pos as int) == Err::<(DisconnectCode, int), SSHError>(e),
            },
    {
        let (n, end) = match read_u32(buf, pos) {
            Ok(v) => v,
            Err(e) => {
                return Err(e);
            },
        };
        if n == 1 {
            Ok((DisconnectCode::HostNotAllowedToConnect, end))
        } else if n == 2 {
            Ok((DisconnectCode::ProtocolError, end))
        } else if n == 3 {
            Ok((DisconnectCode::KeyExchangeFailed, end))
        } else if n == 4 {
            Ok((DisconnectCode::Reserved, end))
        } else if n == 5 {
            Ok((DisconnectCode::MacError, end))
        } else if n == 6 {
            Ok((DisconnectCode::CompressionError, end))
        } else if n == 7 {
            Ok((DisconnectCode::ServiceNotAvailable, end))
        } else if n == 8 {
            Ok((DisconnectCode::ProtocolVersionNotSupported, end))
        } else if n == 9 {
            Ok((DisconnectCode::HostKeyNotVerifiable, end))
        } else if n == 10 {
            Ok((DisconnectCode::ConnectionLost, end))
        } else if n == 11 {
            Ok((DisconnectCode::ByApplication, end))
        } else if n == 12 {
            Ok((DisconnectCode::TooManyConnections, end))
        } else if n == 13 {
            Ok((DisconnectCode::AuthCancelledByUser, end))
        } else if n == 14 {
            Ok((DisconnectCode::NoMoreAuthMethodsAvailable, end))
        } else if n == 15 {
            Ok((DisconnectCode::IllegalUserName, end))
        } else {
            Err(SSHError::Malformed)
        }
    }

    pub fn write_ssh(&self, out: &mut Vec<u8>)
        ensures
            final(out)@ == old(out)@ + spec_be32(spec_disconnect_code_u32(*self)),
    {
        let n: u32 = match self {
            DisconnectCode::HostNotAllowedToConnect => 1,
            DisconnectCode::ProtocolError => 2,
            DisconnectCode::KeyExchangeFailed => 3,
            DisconnectCode::Reserved => 4,
            DisconnectCode::MacError => 5,
            DisconnectCode::CompressionError => 6,
            DisconnectCode::ServiceNotAvailable => 7,
            DisconnectCode::ProtocolVersionNotSupported => 8,
            DisconnectCode::HostKeyNotVerifiable => 9,
            DisconnectCode::ConnectionLost => 10,
            DisconnectCode::ByApplication => 11,
            DisconnectCode::TooManyConnections => 12,
            DisconnectCode::AuthCancelledByUser => 13,
            DisconnectCode::NoMoreAuthMethodsAvailable => 14,
            DisconnectCode::IllegalUserName => 15,
        };
        write_u32(out, n);
    }
}

/// Reading four bytes that carry the discriminant of `c` yields `c`.
pub proof fn lemma_read_disconnect_code_at(b: Seq<u8>, pos: int, c: DisconnectCode)
    requires
        0 <= pos,
        pos + 4 <= b.len(),
        b.subrange(pos, pos + 4) == spec_be32(spec_disconnect_code_u32(c)),
    ensures
        spec_read_disconnect_code(b, pos) == Ok::<(DisconnectCode, int), SSHError>((c, pos + 4)),
{
    lemma_read_u32_at(b, pos, spec_disconnect_code_u32(c));
}

/// Reason codes carried as a 4-byte big-endian discriminant on the wire.
#[derive(Clone, Copy, Debug, PartialEq, Eq, Structural)]
pub enum ChannelOpenFailureReasonCode {
    AdministrativelyProhibited,
    ConnectFailed,
    UnknownChannelType,
    ResourceShortage,
}

/// The wire discriminant of each variant.
pub open spec fn spec_open_failure_code_u32(c: ChannelOpenFailureReasonCode) -> u32 {
    match c {
        ChannelOpenFailureReasonCode::AdministrativelyProhibited => 1,
        ChannelOpenFailureReasonCode::ConnectFailed => 2,
        ChannelOpenFailureReasonCode::UnknownChannelType => 3,
        ChannelOpenFailureReasonCode::ResourceShortage => 4,
    }
}

/// The variant a wire discriminant denotes, if any.
pub open spec fn spec_open_failure_code_of(n: u32) -> Option<ChannelOpenFailureReasonCode> {
    if n == 1 {
        Some(ChannelOpenFailureReasonCode::AdministrativelyProhibited)
    } else if n == 2 {
        Some(ChannelOpenFailureReasonCode::ConnectFailed)
    } else if n == 3 {
        Some(ChannelOpenFailureReasonCode::UnknownChannelType)
    } else if n == 4 {
        Some(ChannelOpenFailureReasonCode::ResourceShortage)
    } else {
        None
    }
}

/// Outcome of decoding a `ChannelOpenFailureReasonCode` at `pos`: an undefined
/// discriminant is `Malformed`.
pub open spec fn spec_read_open_failure_code(b: Seq<u8>, pos: int) -> Result<(ChannelOpenFailureReasonCode, int), SSHError> {
    match spec_read_u32(b, pos) {
        Ok((n, p)) => match spec_open_failure_code_of(n) {
            Some(c) => Ok((c, p)),
            None => Err(SSHError::Malformed),
        },
        Err(e) => Err(e),
    }
}

impl ChannelOpenFailureReasonCode {
    pub fn read_ssh(buf: &Vec<u8>, pos: usize) -> (r: Result<(ChannelOpenFailureReasonCode, usize), SSHError>)
        requires
            pos <= buf.len(),
        ensures
            match r {
                Ok((c, end)) => pos <= end <= buf.len() && spec_read_open_failure_code(buf@, pos as int)
                    == Ok::<(ChannelOpenFailureReasonCode, int), SSHError>((c, end as int)),
                Err(e) => spec_read_open_failure_code(buf@, pos as int) == Err::<(ChannelOpenFailureReasonCode, int), SSHError>(e),
            },
    {
        let (n, end) = match read_u32(buf, pos) {
            Ok(v) => v,
            Err(e) => {
                return Err(e);
            },
        };
        if n == 1 {
            Ok((ChannelOpenFailureReasonCode::AdministrativelyProhibited, end))
        } else if n == 2 {
            Ok((ChannelOpenFailureReasonCode::ConnectFailed, end))
        } else if n == 3 {
            Ok((ChannelOpenFailureReasonCode::UnknownChannelType, end))
        } else if n == 4 {
            Ok((ChannelOpenFailureReasonCode::ResourceShortage, end))
        } else {
            Err(SSHError::Malformed)
        }
    }

    pub fn write_ssh(&self, out: &mut Vec<u8>)
        ensures
            final(out)@ == old(out)@ + spec_be32(spec_open_failure_code_u32(*self)),
    {
        let n: u32 = match self {
            ChannelOpenFailureReasonCode::AdministrativelyProhibited => 1,
            ChannelOpenFailureReasonCode::ConnectFailed => 2,
            ChannelOpenFailureReasonCode::UnknownChannelType => 3,
            ChannelOpenFailureReasonCode::ResourceShortage => 4,
        };
        write_u32(out, n);
    }
}

/// Reading four bytes that carry the discriminant of `c` yields `c`.
pub proof fn lemma_read_open_failure_code_at(b: Seq<u8>, pos: int, c: ChannelOpenFailureReasonCode)
    requires
        0 <= pos,
        pos + 4 <= b.len(),
        b.subrange(pos, pos + 4) == spec_be32(spec_open_failure_code_u32(c)),
    ensures
        spec_read_open_failure_code(b, pos) == Ok::<(ChannelOpenFailureReasonCode, int), SSHError>((c, pos + 4)),
{
    lemma_read_u32_at(b, pos, spec_open_failure_code_u32(c));
}

/// Reason codes carried as a 4-byte big-endian discriminant on the wire.
#[allow(non_camel_case_types)]
#[derive(Clone, Copy, Debug, PartialEq, Eq, Structural)]
pub enum PseudoTerminalModes {
    TTY_OP_END,
    VINTR,
    VQUIT,
    VERASE,
    VKILL,
    VEOF,
    VEOL,
    VEOL2,
    VSTART,
    VSTOP,
    VSUSP,
    VDSUSP,
    VREPRINT,
    VWERASE,
    VLNEXT,
    VFLUSH,
    VSWTCH,
    VSTATUS,
    VDISCARD,
    IGNPAR,
    PARMRK,
    INPCK,
    ISTRIP,
    INLCR,
    IGNCR,
    ICRNL,
    IUCLC,
    IXON,
    IXANY,
    IXOFF,
    IMAXBEL,
    ISIG,
    ICANON,
    XCASE,
    ECHO,
    ECHOE,
    ECHOK,
    ECHONL,
    NOFLSH,
    TOSTOP,
    IEXTEN,
    ECHOCTL,
    ECHOKE,
    PENDIN,
    OPOST,
    OLCUC,
    ONLCR,
    OCRNL,
    ONOCR,
    ONLRET,
    CS7,
    CS8,
    PARENB,
    PARODD,
    TTY_OP_ISPEED,
    TTY_OP_OSPEED,
}

/// The wire discriminant of each variant.
pub open spec fn spec_pty_mode_u32(c: PseudoTerminalModes) -> u32 {
    match c {
        PseudoTerminalModes::TTY_OP_END => 0,
        PseudoTerminalModes::VINTR => 1,
        PseudoTerminalModes::VQUIT => 2,
        PseudoTerminalModes::VERASE => 3,
        PseudoTerminalModes::VKILL => 4,
        PseudoTerminalModes::VEOF => 5,
        PseudoTerminalModes::VEOL => 6,
        PseudoTerminalModes::VEOL2 => 7,
        PseudoTerminalModes::VSTART => 8,
        PseudoTerminalModes::VSTOP => 9,
        PseudoTerminalModes::VSUSP => 10,
        PseudoTerminalModes::VDSUSP => 11,
        PseudoTerminalModes::VREPRINT => 12,
        PseudoTerminalModes::VWERASE => 13,
        PseudoTerminalModes::VLNEXT => 14,
        PseudoTerminalModes::VFLUSH => 15,
        PseudoTerminalModes::VSWTCH => 16,
        PseudoTerminalModes::VSTATUS => 17,
        PseudoTerminalModes::VDISCARD => 18,
        PseudoTerminalModes::IGNPAR => 30,
        PseudoTerminalModes::PARMRK => 31,
        PseudoTerminalModes::INPCK => 32,
        PseudoTerminalModes::ISTRIP => 33,
        PseudoTerminalModes::INLCR => 34,
        PseudoTerminalModes::IGNCR => 35,
        PseudoTerminalModes::ICRNL => 36,
        PseudoTerminalModes::IUCLC => 37,
        PseudoTerminalModes::IXON => 38,
        PseudoTerminalModes::IXANY => 39,
        PseudoTerminalModes::IXOFF => 40,
        PseudoTerminalModes::IMAXBEL => 41,
        PseudoTerminalModes::ISIG => 50,
        PseudoTerminalModes::ICANON => 51,
        PseudoTerminalModes::XCASE => 52,
        PseudoTerminalModes::ECHO => 53,
        PseudoTerminalModes::ECHOE => 54,
        PseudoTerminalModes::ECHOK => 55,
        PseudoTerminalModes::ECHONL => 56,
        PseudoTerminalModes::NOFLSH => 57,
        PseudoTerminalModes::TOSTOP => 58,
        PseudoTerminalModes::IEXTEN => 59,
        PseudoTerminalModes::ECHOCTL => 60,
        PseudoTerminalModes::ECHOKE => 61,
        PseudoTerminalModes::PENDIN => 62,
        PseudoTerminalModes::OPOST => 70,
        PseudoTerminalModes::OLCUC => 71,
        PseudoTerminalModes::ONLCR => 72,
        PseudoTerminalModes::OCRNL => 73,
        PseudoTerminalModes::ONOCR => 74,
        PseudoTerminalModes::ONLRET => 75,
        PseudoTerminalModes::CS7 => 90,
        PseudoTerminalModes::CS8 => 91,
        PseudoTerminalModes::PARENB => 92,
        PseudoTerminalModes::PARODD => 93,
        PseudoTerminalModes::TTY_OP_ISPEED => 128,
        PseudoTerminalModes::TTY_OP_OSPEED => 129,
    }
}

/// The variant a wire discriminant denotes, if any.
pub open spec fn spec_pty_mode_of(n: u32) -> Option<PseudoTerminalModes> {
    if n == 0 {
        Some(PseudoTerminalModes::TTY_OP_END)
    } else if n == 1 {
        Some(PseudoTerminalModes::VINTR)
    } else if n == 2 {
        Some(PseudoTerminalModes::VQUIT)
    } else if n == 3 {
        Some(PseudoTerminalModes::VERASE)
    } else if n == 4 {
        Some(PseudoTerminalModes::VKILL)
    } else if n == 5 {
        Some(PseudoTerminalModes::VEOF)
    } else if n == 6 {
        Some(PseudoTerminalModes::VEOL)
    } else if n == 7 {
        Some(PseudoTerminalModes::VEOL2)
    } else if n == 8 {
        Some(PseudoTerminalModes::VSTART)
    } else if n == 9 {
        Some(PseudoTerminalModes::VSTOP)
    } else if n == 10 {
        Some(PseudoTerminalModes::VSUSP)
    } else if n == 11 {
        Some(PseudoTerminalModes::VDSUSP)
    } else if n == 12 {
        Some(PseudoTerminalModes::VREPRINT)
    } else if n == 13 {
        Some(PseudoTerminalModes::VWERASE)
    } else if n == 14 {
        Some(PseudoTerminalModes::VLNEXT)
    } else if n == 15 {
        Some(PseudoTerminalModes::VFLUSH)
    } else if n == 16 {
        Some(PseudoTerminalModes::VSWTCH)
    } else if n == 17 {
        Some(PseudoTerminalModes::VSTATUS)
    } else if n == 18 {
        Some(PseudoTerminalModes::VDISCARD)
    } else if n == 30 {
        Some(PseudoTerminalModes::IGNPAR)
    } else if n == 31 {
        Some(PseudoTerminalModes::PARMRK)
    } else if n == 32 {
        Some(PseudoTerminalModes::INPCK)
    } else if n == 33 {
        Some(PseudoTerminalModes::ISTRIP)
    } else if n == 34 {
        Some(PseudoTerminalModes::INLCR)
    } else if n == 35 {
        Some(PseudoTerminalModes::IGNCR)
    } else if n == 36 {
        Some(PseudoTerminalModes::ICRNL)
    } else if n == 37 {
        Some(PseudoTerminalModes::IUCLC)
    } else if n == 38 {
        Some(PseudoTerminalModes::IXON)
    } else if n == 39 {
        Some(PseudoTerminalModes::IXANY)
    } else if n == 40 {
        Some(PseudoTerminalModes::IXOFF)
    } else if n == 41 {
        Some(PseudoTerminalModes::IMAXBEL)
    } else if n == 50 {
        Some(PseudoTerminalModes::ISIG)
    } else if n == 51 {
        Some(PseudoTerminalModes::ICANON)
    } else if n == 52 {
        Some(PseudoTerminalModes::XCASE)
    } else if n == 53 {
        Some(PseudoTerminalModes::ECHO)
    } else if n == 54 {
        Some(PseudoTerminalModes::ECHOE)
    } else if n == 55 {
        Some(PseudoTerminalModes::ECHOK)
    } else if n == 56 {
        Some(PseudoTerminalModes::ECHONL)
    } else if n == 57 {
        Some(PseudoTerminalModes::NOFLSH)
    } else if n == 58 {
        Some(PseudoTerminalModes::TOSTOP)
    } else if n == 59 {
        Some(PseudoTerminalModes::IEXTEN)
    } else if n == 60 {
        Some(PseudoTerminalModes::ECHOCTL)
    } else if n == 61 {
        Some(PseudoTerminalModes::ECHOKE)
    } else if n == 62 {
        Some(PseudoTerminalModes::PENDIN)
    } else if n == 70 {
        Some(PseudoTerminalModes::OPOST)
    } else if n == 71 {
        Some(PseudoTerminalModes::OLCUC)
    } else if n == 72 {
        Some(PseudoTerminalModes::ONLCR)
    } else if n == 73 {
        Some(PseudoTerminalModes::OCRNL)
    } else if n == 74 {
        Some(PseudoTerminalModes::ONOCR)
    } else if n == 75 {
        Some(PseudoTerminalModes::ONLRET)
    } else if n == 90 {
        Some(PseudoTerminalModes::CS7)
    } else if n == 91 {
        Some(PseudoTerminalModes::CS8)
    } else if n == 92 {
        Some(PseudoTerminalModes::PARENB)
    } else if n == 93 {
        Some(PseudoTerminalModes::PARODD)
    } else if n == 128 {
        Some(PseudoTerminalModes::TTY_OP_ISPEED)
    } else if n == 129 {
        Some(PseudoTerminalModes::TTY_OP_OSPEED)
    } else {
        None
    }
}

/// Outcome of decoding a `PseudoTerminalModes` at `pos`: an undefined
/// discriminant is `Malformed`.
pub open spec fn spec_read_pty_mode(b: Seq<u8>, pos: int) -> Result<(PseudoTerminalModes, int), SSHError> {
    match spec_read_u32(b, pos) {
        Ok((n, p)) => match spec_pty_mode_of(n) {
            Some(c) => Ok((c, p)),
            None => Err(SSHError::Malformed),
        },
        Err(e) => Err(e),
    }
}

impl PseudoTerminalModes {
    pub fn read_ssh(buf: &Vec<u8>, pos: usize) -> (r: Result<(PseudoTerminalModes, usize), SSHError>)
        requires
            pos <= buf.len(),
        ensures
            match r {
                Ok((c, end)) => pos <= end <= buf.len() && spec_read_pty_mode(buf@, pos as int)
                    == Ok::<(PseudoTerminalModes, int), SSHError>((c, end as int)),
                Err(e) => spec_read_pty_mode(buf@, pos as int) == Err::<(PseudoTerminalModes, int), SSHError>(e),
            },
    {
        let (n, end) = match read_u32(buf, pos) {
            Ok(v) => v,
            Err(e) => {
                return Err(e);
            },
        };
        if n == 0 {
            Ok((PseudoTerminalModes::TTY_OP_END, end))
        } else if n == 1 {
            Ok((PseudoTerminalModes::VINTR, end))
        } else if n == 2 {
            Ok((PseudoTerminalModes::VQUIT, end))
        } else if n == 3 {
            Ok((PseudoTerminalModes::VERASE, end))
        } else if n == 4 {
            Ok((PseudoTerminalModes::VKILL, end))
        } else if n == 5 {
            Ok((PseudoTerminalModes::VEOF, end))
        } else if n == 6 {
            Ok((PseudoTerminalModes::VEOL, end))
        } else if n == 7 {
            Ok((PseudoTerminalModes::VEOL2, end))
        } else if n == 8 {
            Ok((PseudoTerminalModes::VSTART, end))
        } else if n == 9 {
            Ok((PseudoTerminalModes::VSTOP, end))
        } else if n == 10 {
            Ok((PseudoTerminalModes::VSUSP, end))
        } else if n == 11 {
            Ok((PseudoTerminalModes::VDSUSP, end))
        } else if n == 12 {
            Ok((PseudoTerminalModes::VREPRINT, end))
        } else if n == 13 {
            Ok((PseudoTerminalModes::VWERASE, end))
        } else if n == 14 {
            Ok((PseudoTerminalModes::VLNEXT, end))
        } else if n == 15 {
            Ok((PseudoTerminalModes::VFLUSH, end))
        } else if n == 16 {
            Ok((PseudoTerminalModes::VSWTCH, end))
        } else if n == 17 {
            Ok((PseudoTerminalModes::VSTATUS, end))
        } else if n == 18 {
            Ok((PseudoTerminalModes::VDISCARD, end))
        } else if n == 30 {
            Ok((PseudoTerminalModes::IGNPAR, end))
        } else if n == 31 {
            Ok((PseudoTerminalModes::PARMRK, end))
        } else if n == 32 {
            Ok((PseudoTerminalModes::INPCK, end))
        } else if n == 33 {
            Ok((PseudoTerminalModes::ISTRIP, end))
        } else if n == 34 {
            Ok((PseudoTerminalModes::INLCR, end))
        } else if n == 35 {
            Ok((PseudoTerminalModes::IGNCR, end))
        } else if n == 36 {
            Ok((PseudoTerminalModes::ICRNL, end))
        } else if n == 37 {
            Ok((PseudoTerminalModes::IUCLC, end))
        } else if n == 38 {
            Ok((PseudoTerminalModes::IXON, end))
        } else if n == 39 {
            Ok((PseudoTerminalModes::IXANY, end))
        } else if n == 40 {
            Ok((PseudoTerminalModes::IXOFF, end))
        } else if n == 41 {
            Ok((PseudoTerminalModes::IMAXBEL, end))
        } else if n == 50 {
            Ok((PseudoTerminalModes::ISIG, end))
        } else if n == 51 {
            Ok((PseudoTerminalModes::ICANON, end))
        } else if n == 52 {
            Ok((PseudoTerminalModes::XCASE, end))
        } else if n == 53 {
            Ok((PseudoTerminalModes::ECHO, end))
        } else if n == 54 {
            Ok((PseudoTerminalModes::ECHOE, end))
        } else if n == 55 {
            Ok((PseudoTerminalModes::ECHOK, end))
        } else if n == 56 {
            Ok((PseudoTerminalModes::ECHONL, end))
        } else if n == 57 {
            Ok((PseudoTerminalModes::NOFLSH, end))
        } else if n == 58 {
            Ok((PseudoTerminalModes::TOSTOP, end))
        } else if n == 59 {
            Ok((PseudoTerminalModes::IEXTEN, end))
        } else if n == 60 {
            Ok((PseudoTerminalModes::ECHOCTL, end))
        } else if n == 61 {
            Ok((PseudoTerminalModes::ECHOKE, end))
        } else if n == 62 {
            Ok((PseudoTerminalModes::PENDIN, end))
        } else if n == 70 {
            Ok((PseudoTerminalModes::OPOST, end))
        } else if n == 71 {
            Ok((PseudoTerminalModes::OLCUC, end))
        } else if n == 72 {
            Ok((PseudoTerminalModes::ONLCR, end))
        } else if n == 73 {
            Ok((PseudoTerminalModes::OCRNL, end))
        } else if n == 74 {
            Ok((PseudoTerminalModes::ONOCR, end))
        } else if n == 75 {
            Ok((PseudoTerminalModes::ONLRET, end))
        } else if n == 90 {
            Ok((PseudoTerminalModes::CS7, end))
        } else if n == 91 {
            Ok((PseudoTerminalModes::CS8, end))
        } else if n == 92 {
            Ok((PseudoTerminalModes::PARENB, end))
        } else if n == 93 {
            Ok((PseudoTerminalModes::PARODD, end))
        } else if n == 128 {
            Ok((PseudoTerminalModes::TTY_OP_ISPEED, end))
        } else if n == 129 {
            Ok((PseudoTerminalModes::TTY_OP_OSPEED, end))
        } else {
            Err(SSHError::Malformed)
        }
    }

    pub fn write_ssh(&self, out: &mut Vec<u8>)
        ensures
            final(out)@ == old(out)@ + spec_be32(spec_pty_mode_u32(*self)),
    {
        let n: u32 = match self {
            PseudoTerminalModes::TTY_OP_END => 0,
            PseudoTerminalModes::VINTR => 1,
            PseudoTerminalModes::VQUIT => 2,
            PseudoTerminalModes::VERASE => 3,
            PseudoTerminalModes::VKILL => 4,
            PseudoTerminalModes::VEOF => 5,
            PseudoTerminalModes::VEOL => 6,
            PseudoTerminalModes::VEOL2 => 7,
            PseudoTerminalModes::VSTART => 8,
            PseudoTerminalModes::VSTOP => 9,
            PseudoTerminalModes::VSUSP => 10,
            PseudoTerminalModes::VDSUSP => 11,
            PseudoTerminalModes::VREPRINT => 12,
            PseudoTerminalModes::VWERASE => 13,
            PseudoTerminalModes::VLNEXT => 14,
            PseudoTerminalModes::VFLUSH => 15,
            PseudoTerminalModes::VSWTCH => 16,
            PseudoTerminalModes::VSTATUS => 17,
            PseudoTerminalModes::VDISCARD => 18,
            PseudoTerminalModes::IGNPAR => 30,
            PseudoTerminalModes::PARMRK => 31,
            PseudoTerminalModes::INPCK => 32,
            PseudoTerminalModes::ISTRIP => 33,
            PseudoTerminalModes::INLCR => 34,
            PseudoTerminalModes::IGNCR => 35,
            PseudoTerminalModes::ICRNL => 36,
            PseudoTerminalModes::IUCLC => 37,
            PseudoTerminalModes::IXON => 38,
            PseudoTerminalModes::IXANY => 39,
            PseudoTerminalModes::IXOFF => 40,
            PseudoTerminalModes::IMAXBEL => 41,
            PseudoTerminalModes::ISIG => 50,
            PseudoTerminalModes::ICANON => 51,
            PseudoTerminalModes::XCASE => 52,
            PseudoTerminalModes::ECHO => 53,
            PseudoTerminalModes::ECHOE => 54,
            PseudoTerminalModes::ECHOK => 55,
            PseudoTerminalModes::ECHONL => 56,
            PseudoTerminalModes::NOFLSH => 57,
            PseudoTerminalModes::TOSTOP => 58,
            PseudoTerminalModes::IEXTEN => 59,
            PseudoTerminalModes::ECHOCTL => 60,
            PseudoTerminalModes::ECHOKE => 61,
            PseudoTerminalModes::PENDIN => 62,
            PseudoTerminalModes::OPOST => 70,
            PseudoTerminalModes::OLCUC => 71,
            PseudoTerminalModes::ONLCR => 72,
            PseudoTerminalModes::OCRNL => 73,
            PseudoTerminalModes::ONOCR => 74,
            PseudoTerminalModes::ONLRET => 75,
            PseudoTerminalModes::CS7 => 90,
            PseudoTerminalModes::CS8 => 91,
            PseudoTerminalModes::PARENB => 92,
            PseudoTerminalModes::PARODD => 93,
            PseudoTerminalModes::TTY_OP_ISPEED => 128,
            PseudoTerminalModes::TTY_OP_OSPEED => 129,
        };
        write_u32(out, n);
    }
}

/// Reading four bytes that carry the discriminant of `c` yields `c`.
pub proof fn lemma_read_pty_mode_at(b: Seq<u8>, pos: int, c: PseudoTerminalModes)
    requires
        0 <= pos,
        pos + 4 <= b.len(),
        b.subrange(pos, pos + 4) == spec_be32(spec_pty_mode_u32(c)),
    ensures
        spec_read_pty_mode(b, pos) == Ok::<(PseudoTerminalModes, int), SSHError>((c, pos + 4)),
{
    lemma_read_u32_at(b, pos, spec_pty_mode_u32(c));
}

} // verus!
