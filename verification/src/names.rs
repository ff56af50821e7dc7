//! The symbolic tagged enums: values whose wire form is a length-prefixed
//! string naming the variant (with hyphens where the identifier has double
//! underscores).  The algorithm-name enums carry an `Unknown` variant that
//! captures any unrecognized name instead of failing, the open extension
//! point for forward-compatible algorithm names; the others reject an
//! unrecognized name as `Malformed`.

use vstd::prelude::*;
use vstd::utf8::encode_utf8;
use crate::err::SSHError;
use crate::wire::{spec_string_wire, spec_string_fits, spec_read_string, read_string, write_string,
    lemma_encode_utf8_len};

verus! {

/// A value named on the wire by a length-prefixed string.
#[allow(non_camel_case_types)]
#[derive(Clone, Copy, Debug, PartialEq, Eq, Structural)]
pub enum Service {
    ssh__userauth,
    ssh__connection,
}

/// The wire name of each variant.
pub open spec fn spec_service_name(v: Service) -> Seq<char> {
    match v {
        Service::ssh__userauth => "ssh-userauth"@,
        Service::ssh__connection => "ssh-connection"@,
    }
}

/// Outcome of decoding a `Service` at `pos`: an unrecognized
/// name is `Malformed`.
pub open spec fn spec_read_service(b: Seq<u8>, pos: int) -> Result<(Service, int), SSHError> {
    match spec_read_string(b, pos) {
        Ok((s, p)) => {
            if s == "ssh-userauth"@ {
                Ok((Service::ssh__userauth, p))
            } else if s == "ssh-connection"@ {
                Ok((Service::ssh__connection, p))
            } else {
                Err(SSHError::Malformed)
            }
        },
        Err(e) => Err(e),
    }
}

impl Service {
    pub fn read_ssh(buf: &Vec<u8>, pos: usize) -> (r: Result<(Service, usize), SSHError>)
        requires
            pos <= buf.len(),
        ensures
            match r {
                Ok((v, end)) => pos <= end <= buf.len() && spec_read_service(buf@, pos as int)
                    == Ok::<(Service, int), SSHError>((v, end as int)),
                Err(e) => spec_read_service(buf@, pos as int) == Err::<(Service, int), SSHError>(e),
            },
    {
        let (s, end) = match read_string(buf, pos) {
            Ok(v) => v,
            Err(e) => {
                return Err(e);
            },
        };
        if s == String::from_str("ssh-userauth") {
            Ok((Service::ssh__userauth, end))
        } else if s == String::from_str("ssh-connection") {
            Ok((Service::ssh__connection, end))
        } else {
            Err(SSHError::Malformed)
        }
    }

    pub fn write_ssh(&self, out: &mut Vec<u8>)
        ensures
            final(out)@ == old(out)@ + spec_string_wire(spec_service_name(*self)),
    {
        match self {
            Service::ssh__userauth => {
                proof {
                    reveal_strlit("ssh-userauth");
                    lemma_encode_utf8_len("ssh-userauth"@);
                }
                write_string(out, &String::from_str("ssh-userauth"));
            },
            Service::ssh__connection => {
                proof {
                    reveal_strlit("ssh-connection");
                    lemma_encode_utf8_len("ssh-connection"@);
                }
                write_string(out, &String::from_str("ssh-connection"));
            },
        }
    }
}

/// A value named on the wire by a length-prefixed string.
#[allow(non_camel_case_types)]
#[derive(Clone, Copy, Debug, PartialEq, Eq, Structural)]
pub enum AuthenticationMethod {
    publickey,
    password,
    hostBased,
    none,
}

/// The wire name of each variant.
pub open spec fn spec_auth_method_name(v: AuthenticationMethod) -> Seq<char> {
    match v {
        AuthenticationMethod::publickey => "publickey"@,
        AuthenticationMethod::password => "password"@,
        AuthenticationMethod::hostBased => "hostBased"@,
        AuthenticationMethod::none => "none"@,
    }
}

/// Outcome of decoding a `AuthenticationMethod` at `pos`: an unrecognized
/// name is `Malformed`.
pub open spec fn spec_read_auth_method(b: Seq<u8>, pos: int) -> Result<(AuthenticationMethod, int), SSHError> {
    match spec_read_string(b, pos) {
        Ok((s, p)) => {
            if s == "publickey"@ {
                Ok((AuthenticationMethod::publickey, p))
            } else if s == "password"@ {
                Ok((AuthenticationMethod::password, p))
            } else if s == "hostBased"@ {
                Ok((AuthenticationMethod::hostBased, p))
            } else if s == "none"@ {
                Ok((AuthenticationMethod::none, p))
            } else {
                Err(SSHError::Malformed)
            }
        },
        Err(e) => Err(e),
    }
}

impl AuthenticationMethod {
    pub fn read_ssh(buf: &Vec<u8>, pos: usize) -> (r: Result<(AuthenticationMethod, usize), SSHError>)
        requires
            pos <= buf.len(),
        ensures
            match r {
                Ok((v, end)) => pos <= end <= buf.len() && spec_read_auth_method(buf@, pos as int)
                    == Ok::<(AuthenticationMethod, int), SSHError>((v, end as int)),
                Err(e) => spec_read_auth_method(buf@, pos as int) == Err::<(AuthenticationMethod, int), SSHError>(e),
            },
    {
        let (s, end) = match read_string(buf, pos) {
            Ok(v) => v,
            Err(e) => {
                return Err(e);
            },
        };
        if s == String::from_str("publickey") {
            Ok((AuthenticationMethod::publickey, end))
        } else if s == String::from_str("password") {
            Ok((AuthenticationMethod::password, end))
        } else if s == String::from_str("hostBased") {
            Ok((AuthenticationMethod::hostBased, end))
        } else if s == String::from_str("none") {
            Ok((AuthenticationMethod::none, end))
        } else {
            Err(SSHError::Malformed)
        }
    }

    pub fn write_ssh(&self, out: &mut Vec<u8>)
        ensures
            final(out)@ == old(out)@ + spec_string_wire(spec_auth_method_name(*self)),
    {
        match self {
            AuthenticationMethod::publickey => {
                proof {
                    reveal_strlit("publickey");
                    lemma_encode_utf8_len("publickey"@);
                }
                write_string(out, &String::from_str("publickey"));
            },
            AuthenticationMethod::password => {
                proof {
                    reveal_strlit("password");
                    lemma_encode_utf8_len("password"@);
                }
                write_string(out, &String::from_str("password"));
            },
            AuthenticationMethod::hostBased => {
                proof {
                    reveal_strlit("hostBased");
                    lemma_encode_utf8_len("hostBased"@);
                }
                write_string(out, &String::from_str("hostBased"));
            },
            AuthenticationMethod::none => {
                proof {
                    reveal_strlit("none");
                    lemma_encode_utf8_len("none"@);
                }
                write_string(out, &String::from_str("none"));
            },
        }
    }
}

/// A value named on the wire by a length-prefixed string.
#[allow(non_camel_case_types)]
#[derive(Clone, Copy, Debug, PartialEq, Eq, Structural)]
pub enum ConnectionProtocolChannelType {
    session,
    x11,
    forwarded__tcpip,
    direct__tcpip,
}

/// The wire name of each variant.
pub open spec fn spec_channel_type_name(v: ConnectionProtocolChannelType) -> Seq<char> {
    match v {
        ConnectionProtocolChannelType::session => "session"@,
        ConnectionProtocolChannelType::x11 => "x11"@,
        ConnectionProtocolChannelType::forwarded__tcpip => "forwarded-tcpip"@,
        ConnectionProtocolChannelType::direct__tcpip => "direct-tcpip"@,
    }
}

/// Outcome of decoding a `ConnectionProtocolChannelType` at `pos`: an unrecognized
/// name is `Malformed`.
pub open spec fn spec_read_channel_type(b: Seq<u8>, pos: int) -> Result<(ConnectionProtocolChannelType, int), SSHError> {
    match spec_read_string(b, pos) {
        Ok((s, p)) => {
            if s == "session"@ {
                Ok((ConnectionProtocolChannelType::session, p))
            } else if s == "x11"@ {
                Ok((ConnectionProtocolChannelType::x11, p))
            } else if s == "forwarded-tcpip"@ {
                Ok((ConnectionProtocolChannelType::forwarded__tcpip, p))
            } else if s == "direct-tcpip"@ {
                Ok((ConnectionProtocolChannelType::direct__tcpip, p))
            } else {
                Err(SSHError::Malformed)
            }
        },
        Err(e) => Err(e),
    }
}

impl ConnectionProtocolChannelType {
    pub fn read_ssh(buf: &Vec<u8>, pos: usize) -> (r: Result<(ConnectionProtocolChannelType, usize), SSHError>)
        requires
            pos <= buf.len(),
        ensures
            match r {
                Ok((v, end)) => pos <= end <= buf.len() && spec_read_channel_type(buf@, pos as int)
                    == Ok::<(ConnectionProtocolChannelType, int), SSHError>((v, end as int)),
                Err(e) => spec_read_channel_type(buf@, pos as int) == Err::<(ConnectionProtocolChannelType, int), SSHError>(e),
            },
    {
        let (s, end) = match read_string(buf, pos) {
            Ok(v) => v,
            Err(e) => {
                return Err(e);
            },
        };
        if s == String::from_str("session") {
            Ok((ConnectionProtocolChannelType::session, end))
        } else if s == String::from_str("x11") {
            Ok((ConnectionProtocolChannelType::x11, end))
        } else if s == String::from_str("forwarded-tcpip") {
            Ok((ConnectionProtocolChannelType::forwarded__tcpip, end))
        } else if s == String::from_str("direct-tcpip") {
            Ok((ConnectionProtocolChannelType::direct__tcpip, end))
        } else {
            Err(SSHError::Malformed)
        }
    }

    pub fn write_ssh(&self, out: &mut Vec<u8>)
        ensures
            final(out)@ == old(out)@ + spec_string_wire(spec_channel_type_name(*self)),
    {
        match self {
            ConnectionProtocolChannelType::session => {
                proof {
                    reveal_strlit("session");
                    lemma_encode_utf8_len("session"@);
                }
                write_string(out, &String::from_str("session"));
            },
            ConnectionProtocolChannelType::x11 => {
                proof {
                    reveal_strlit("x11");
                    lemma_encode_utf8_len("x11"@);
                }
                write_string(out, &String::from_str("x11"));
            },
            ConnectionProtocolChannelType::forwarded__tcpip => {
                proof {
                    reveal_strlit("forwarded-tcpip");
                    lemma_encode_utf8_len("forwarded-tcpip"@);
                }
                write_string(out, &String::from_str("forwarded-tcpip"));
            },
            ConnectionProtocolChannelType::direct__tcpip => {
                proof {
                    reveal_strlit("direct-tcpip");
                    lemma_encode_utf8_len("direct-tcpip"@);
                }
                write_string(out, &String::from_str("direct-tcpip"));
            },
        }
    }
}

/// A value named on the wire by a length-prefixed string.
#[allow(non_camel_case_types)]
#[derive(Clone, Copy, Debug, PartialEq, Eq, Structural)]
pub enum ConnectionProtocolRequestType {
    tcpip__forward,
    cancel__tcpip__forward,
}

/// The wire name of each variant.
pub open spec fn spec_request_type_name(v: ConnectionProtocolRequestType) -> Seq<char> {
    match v {
        ConnectionProtocolRequestType::tcpip__forward => "tcpip-forward"@,
        ConnectionProtocolRequestType::cancel__tcpip__forward => "cancel-tcpip-forward"@,
    }
}

/// Outcome of decoding a `ConnectionProtocolRequestType` at `pos`: an unrecognized
/// name is `Malformed`.
pub open spec fn spec_read_request_type(b: Seq<u8>, pos: int) -> Result<(ConnectionProtocolRequestType, int), SSHError> {
    match spec_read_string(b, pos) {
        Ok((s, p)) => {
            if s == "tcpip-forward"@ {
                Ok((ConnectionProtocolRequestType::tcpip__forward, p))
            } else if s == "cancel-tcpip-forward"@ {
                Ok((ConnectionProtocolRequestType::cancel__tcpip__forward, p))
            } else {
                Err(SSHError::Malformed)
            }
        },
        Err(e) => Err(e),
    }
}

impl ConnectionProtocolRequestType {
    pub fn read_ssh(buf: &Vec<u8>, pos: usize) -> (r: Result<(ConnectionProtocolRequestType, usize), SSHError>)
        requires
            pos <= buf.len(),
        ensures
            match r {
                Ok((v, end)) => pos <= end <= buf.len() && spec_read_request_type(buf@, pos as int)
                    == Ok::<(ConnectionProtocolRequestType, int), SSHError>((v, end as int)),
                Err(e) => spec_read_request_type(buf@, pos as int) == Err::<(ConnectionProtocolRequestType, int), SSHError>(e),
            },
    {
        let (s, end) = match read_string(buf, pos) {
            Ok(v) => v,
            Err(e) => {
                return Err(e);
            },
        };
        if s == String::from_str("tcpip-forward") {
            Ok((ConnectionProtocolRequestType::tcpip__forward, end))
        } else if s == String::from_str("cancel-tcpip-forward") {
            Ok((ConnectionProtocolRequestType::cancel__tcpip__forward, end))
        } else {
            Err(SSHError::Malformed)
        }
    }

    pub fn write_ssh(&self, out: &mut Vec<u8>)
        ensures
            final(out)@ == old(out)@ + spec_string_wire(spec_request_type_name(*self)),
    {
        match self {
            ConnectionProtocolRequestType::tcpip__forward => {
                proof {
                    reveal_strlit("tcpip-forward");
                    lemma_encode_utf8_len("tcpip-forward"@);
                }
                write_string(out, &String::from_str("tcpip-forward"));
            },
            ConnectionProtocolRequestType::cancel__tcpip__forward => {
                proof {
                    reveal_strlit("cancel-tcpip-forward");
                    lemma_encode_utf8_len("cancel-tcpip-forward"@);
                }
                write_string(out, &String::from_str("cancel-tcpip-forward"));
            },
        }
    }
}

/// A value named on the wire by a length-prefixed string.
#[allow(non_camel_case_types)]
#[derive(Clone, Copy, Debug, PartialEq, Eq, Structural)]
pub enum ConnectionProtocolChannelRequestName {
    pty__req,
    x11__req,
    env,
    shell,
    exec,
    subsystem,
    window__change,
    xon__xoff,
    signal,
    exit__status,
    exit__signal,
}

/// The wire name of each variant.
pub open spec fn spec_channel_request_name_name(v: ConnectionProtocolChannelRequestName) -> Seq<char> {
    match v {
        ConnectionProtocolChannelRequestName::pty__req => "pty-req"@,
        ConnectionProtocolChannelRequestName::x11__req => "x11-req"@,
        ConnectionProtocolChannelRequestName::env => "env"@,
        ConnectionProtocolChannelRequestName::shell => "shell"@,
        ConnectionProtocolChannelRequestName::exec => "exec"@,
        ConnectionProtocolChannelRequestName::subsystem => "subsystem"@,
        ConnectionProtocolChannelRequestName::window__change => "window-change"@,
        ConnectionProtocolChannelRequestName::xon__xoff => "xon-xoff"@,
        ConnectionProtocolChannelRequestName::signal => "signal"@,
        ConnectionProtocolChannelRequestName::exit__status => "exit-status"@,
        ConnectionProtocolChannelRequestName::exit__signal => "exit-signal"@,
    }
}

/// Outcome of decoding a `ConnectionProtocolChannelRequestName` at `pos`: an unrecognized
/// name is `Malformed`.
pub open spec fn spec_read_channel_request_name(b: Seq<u8>, pos: int) -> Result<(ConnectionProtocolChannelRequestName, int), SSHError> {
    match spec_read_string(b, pos) {
        Ok((s, p)) => {
            if s == "pty-req"@ {
                Ok((ConnectionProtocolChannelRequestName::pty__req, p))
            } else if s == "x11-req"@ {
                Ok((ConnectionProtocolChannelRequestName::x11__req, p))
            } else if s == "env"@ {
                Ok((ConnectionProtocolChannelRequestName::env, p))
            } else if s == "shell"@ {
                Ok((ConnectionProtocolChannelRequestName::shell, p))
            } else if s == "exec"@ {
                Ok((ConnectionProtocolChannelRequestName::exec, p))
            } else if s == "subsystem"@ {
                Ok((ConnectionProtocolChannelRequestName::subsystem, p))
            } else if s == "window-change"@ {
                Ok((ConnectionProtocolChannelRequestName::window__change, p))
            } else if s == "xon-xoff"@ {
                Ok((ConnectionProtocolChannelRequestName::xon__xoff, p))
            } else if s == "signal"@ {
                Ok((ConnectionProtocolChannelRequestName::signal, p))
            } else if s == "exit-status"@ {
                Ok((ConnectionProtocolChannelRequestName::exit__status, p))
            } else if s == "exit-signal"@ {
                Ok((ConnectionProtocolChannelRequestName::exit__signal, p))
            } else {
                Err(SSHError::Malformed)
            }
        },
        Err(e) => Err(e),
    }
}

impl ConnectionProtocolChannelRequestName {
    pub fn read_ssh(buf: &Vec<u8>, pos: usize) -> (r: Result<(ConnectionProtocolChannelRequestName, usize), SSHError>)
        requires
            pos <= buf.len(),
        ensures
            match r {
                Ok((v, end)) => pos <= end <= buf.len() && spec_read_channel_request_name(buf@, pos as int)
                    == Ok::<(ConnectionProtocolChannelRequestName, int), SSHError>((v, end as int)),
                Err(e) => spec_read_channel_request_name(buf@, pos as int) == Err::<(ConnectionProtocolChannelRequestName, int), SSHError>(e),
            },
    {
        let (s, end) = match read_string(buf, pos) {
            Ok(v) => v,
            Err(e) => {
                return Err(e);
            },
        };
        if s == String::from_str("pty-req") {
            Ok((ConnectionProtocolChannelRequestName::pty__req, end))
        } else if s == String::from_str("x11-req") {
            Ok((ConnectionProtocolChannelRequestName::x11__req, end))
        } else if s == String::from_str("env") {
            Ok((ConnectionProtocolChannelRequestName::env, end))
        } else if s == String::from_str("shell") {
            Ok((ConnectionProtocolChannelRequestName::shell, end))
        } else if s == String::from_str("exec") {
            Ok((ConnectionProtocolChannelRequestName::exec, end))
        } else if s == String::from_str("subsystem") {
            Ok((ConnectionProtocolChannelRequestName::subsystem, end))
        } else if s == String::from_str("window-change") {
            Ok((ConnectionProtocolChannelRequestName::window__change, end))
        } else if s == String::from_str("xon-xoff") {
            Ok((ConnectionProtocolChannelRequestName::xon__xoff, end))
        } else if s == String::from_str("signal") {
            Ok((ConnectionProtocolChannelRequestName::signal, end))
        } else if s == String::from_str("exit-status") {
            Ok((ConnectionProtocolChannelRequestName::exit__status, end))
        } else if s == String::from_str("exit-signal") {
            Ok((ConnectionProtocolChannelRequestName::exit__signal, end))
        } else {
            Err(SSHError::Malformed)
        }
    }

    pub fn write_ssh(&self, out: &mut Vec<u8>)
        ensures
            final(out)@ == old(out)@ + spec_string_wire(spec_channel_request_name_name(*self)),
    {
        match self {
            ConnectionProtocolChannelRequestName::pty__req => {
                proof {
                    reveal_strlit("pty-req");
                    lemma_encode_utf8_len("pty-req"@);
                }
                write_string(out, &String::from_str("pty-req"));
            },
            ConnectionProtocolChannelRequestName::x11__req => {
                proof {
                    reveal_strlit("x11-req");
                    lemma_encode_utf8_len("x11-req"@);
                }
                write_string(out, &String::from_str("x11-req"));
            },
            ConnectionProtocolChannelRequestName::env => {
                proof {
                    reveal_strlit("env");
                    lemma_encode_utf8_len("env"@);
                }
                write_string(out, &String::from_str("env"));
            },
            ConnectionProtocolChannelRequestName::shell => {
                proof {
                    reveal_strlit("shell");
                    lemma_encode_utf8_len("shell"@);
                }
                write_string(out, &String::from_str("shell"));
            },
            ConnectionProtocolChannelRequestName::exec => {
                proof {
                    reveal_strlit("exec");
                    lemma_encode_utf8_len("exec"@);
                }
                write_string(out, &String::from_str("exec"));
            },
            ConnectionProtocolChannelRequestName::subsystem => {
                proof {
                    reveal_strlit("subsystem");
                    lemma_encode_utf8_len("subsystem"@);
                }
                write_string(out, &String::from_str("subsystem"));
            },
            ConnectionProtocolChannelRequestName::window__change => {
                proof {
                    reveal_strlit("window-change");
                    lemma_encode_utf8_len("window-change"@);
                }
                write_string(out, &String::from_str("window-change"));
            },
            ConnectionProtocolChannelRequestName::xon__xoff => {
                proof {
                    reveal_strlit("xon-xoff");
                    lemma_encode_utf8_len("xon-xoff"@);
                }
                write_string(out, &String::from_str("xon-xoff"));
            },
            ConnectionProtocolChannelRequestName::signal => {
                proof {
                    reveal_strlit("signal");
                    lemma_encode_utf8_len("signal"@);
                }
                write_string(out, &String::from_str("signal"));
            },
            ConnectionProtocolChannelRequestName::exit__status => {
                proof {
                    reveal_strlit("exit-status");
                    lemma_encode_utf8_len("exit-status"@);
                }
                write_string(out, &String::from_str("exit-status"));
            },
            ConnectionProtocolChannelRequestName::exit__signal => {
                proof {
                    reveal_strlit("exit-signal");
                    lemma_encode_utf8_len("exit-signal"@);
                }
                write_string(out, &String::from_str("exit-signal"));
            },
        }
    }
}

/// A value named on the wire by a length-prefixed string.
#[allow(non_camel_case_types)]
#[derive(Clone, Copy, Debug, PartialEq, Eq, Structural)]
pub enum SignalName {
    ABRT,
    ALRM,
    FPE,
    HUP,
    ILL,
    INT,
    KILL,
    PIPE,
    QUIT,
    SEGV,
    TERM,
    USR1,
    USR2,
}

/// The wire name of each variant.
pub open spec fn spec_signal_name_name(v: SignalName) -> Seq<char> {
    match v {
        SignalName::ABRT => "ABRT"@,
        SignalName::ALRM => "ALRM"@,
        SignalName::FPE => "FPE"@,
        SignalName::HUP => "HUP"@,
        SignalName::ILL => "ILL"@,
        SignalName::INT => "INT"@,
        SignalName::KILL => "KILL"@,
        SignalName::PIPE => "PIPE"@,
        SignalName::QUIT => "QUIT"@,
        SignalName::SEGV => "SEGV"@,
        SignalName::TERM => "TERM"@,
        SignalName::USR1 => "USR1"@,
        SignalName::USR2 => "USR2"@,
    }
}

/// Outcome of decoding a `SignalName` at `pos`: an unrecognized
/// name is `Malformed`.
pub open spec fn spec_read_signal_name(b: Seq<u8>, pos: int) -> Result<(SignalName, int), SSHError> {
    match spec_read_string(b, pos) {
        Ok((s, p)) => {
            if s == "ABRT"@ {
                Ok((SignalName::ABRT, p))
            } else if s == "ALRM"@ {
                Ok((SignalName::ALRM, p))
            } else if s == "FPE"@ {
                Ok((SignalName::FPE, p))
            } else if s == "HUP"@ {
                Ok((SignalName::HUP, p))
            } else if s == "ILL"@ {
                Ok((SignalName::ILL, p))
            } else if s == "INT"@ {
                Ok((SignalName::INT, p))
            } else if s == "KILL"@ {
                Ok((SignalName::KILL, p))
            } else if s == "PIPE"@ {
                Ok((SignalName::PIPE, p))
            } else if s == "QUIT"@ {
                Ok((SignalName::QUIT, p))
            } else if s == "SEGV"@ {
                Ok((SignalName::SEGV, p))
            } else if s == "TERM"@ {
                Ok((SignalName::TERM, p))
            } else if s == "USR1"@ {
                Ok((SignalName::USR1, p))
            } else if s == "USR2"@ {
                Ok((SignalName::USR2, p))
            } else {
                Err(SSHError::Malformed)
            }
        },
        Err(e) => Err(e),
    }
}

impl SignalName {
    pub fn read_ssh(buf: &Vec<u8>, pos: usize) -> (r: Result<(SignalName, usize), SSHError>)
        requires
            pos <= buf.len(),
        ensures
            match r {
                Ok((v, end)) => pos <= end <= buf.len() && spec_read_signal_name(buf@, pos as int)
                    == Ok::<(SignalName, int), SSHError>((v, end as int)),
                Err(e) => spec_read_signal_name(buf@, pos as int) == Err::<(SignalName, int), SSHError>(e),
            },
    {
        let (s, end) = match read_string(buf, pos) {
            Ok(v) => v,
            Err(e) => {
                return Err(e);
            },
        };
        if s == String::from_str("ABRT") {
            Ok((SignalName::ABRT, end))
        } else if s == String::from_str("ALRM") {
            Ok((SignalName::ALRM, end))
        } else if s == String::from_str("FPE") {
            Ok((SignalName::FPE, end))
        } else if s == String::from_str("HUP") {
            Ok((SignalName::HUP, end))
        } else if s == String::from_str("ILL") {
            Ok((SignalName::ILL, end))
        } else if s == String::from_str("INT") {
            Ok((SignalName::INT, end))
        } else if s == String::from_str("KILL") {
            Ok((SignalName::KILL, end))
        } else if s == String::from_str("PIPE") {
            Ok((SignalName::PIPE, end))
        } else if s == String::from_str("QUIT") {
            Ok((SignalName::QUIT, end))
        } else if s == String::from_str("SEGV") {
            Ok((SignalName::SEGV, end))
        } else if s == String::from_str("TERM") {
            Ok((SignalName::TERM, end))
        } else if s == String::from_str("USR1") {
            Ok((SignalName::USR1, end))
        } else if s == String::from_str("USR2") {
            Ok((SignalName::USR2, end))
        } else {
            Err(SSHError::Malformed)
        }
    }

    pub fn write_ssh(&self, out: &mut Vec<u8>)
        ensures
            final(out)@ == old(out)@ + spec_string_wire(spec_signal_name_name(*self)),
    {
        match self {
            SignalName::ABRT => {
                proof {
                    reveal_strlit("ABRT");
                    lemma_encode_utf8_len("ABRT"@);
                }
                write_string(out, &String::from_str("ABRT"));
            },
            SignalName::ALRM => {
                proof {
                    reveal_strlit("ALRM");
                    lemma_encode_utf8_len("ALRM"@);
                }
                write_string(out, &String::from_str("ALRM"));
            },
            SignalName::FPE => {
                proof {
                    reveal_strlit("FPE");
                    lemma_encode_utf8_len("FPE"@);
                }
                write_string(out, &String::from_str("FPE"));
            },
            SignalName::HUP => {
                proof {
                    reveal_strlit("HUP");
                    lemma_encode_utf8_len("HUP"@);
                }
                write_string(out, &String::from_str("HUP"));
            },
            SignalName::ILL => {
                proof {
                    reveal_strlit("ILL");
                    lemma_encode_utf8_len("ILL"@);
                }
                write_string(out, &String::from_str("ILL"));
            },
            SignalName::INT => {
                proof {
                    reveal_strlit("INT");
                    lemma_encode_utf8_len("INT"@);
                }
                write_string(out, &String::from_str("INT"));
            },
            SignalName::KILL => {
                proof {
                    reveal_strlit("KILL");
                    lemma_encode_utf8_len("KILL"@);
                }
                write_string(out, &String::from_str("KILL"));
            },
            SignalName::PIPE => {
                proof {
                    reveal_strlit("PIPE");
                    lemma_encode_utf8_len("PIPE"@);
                }
                write_string(out, &String::from_str("PIPE"));
            },
            SignalName::QUIT => {
                proof {
                    reveal_strlit("QUIT");
                    lemma_encode_utf8_len("QUIT"@);
                }
                write_string(out, &String::from_str("QUIT"));
            },
            SignalName::SEGV => {
                proof {
                    reveal_strlit("SEGV");
                    lemma_encode_utf8_len("SEGV"@);
                }
                write_string(out, &String::from_str("SEGV"));
            },
            SignalName::TERM => {
                proof {
                    reveal_strlit("TERM");
                    lemma_encode_utf8_len("TERM"@);
                }
                write_string(out, &String::from_str("TERM"));
            },
            SignalName::USR1 => {
                proof {
                    reveal_strlit("USR1");
                    lemma_encode_utf8_len("USR1"@);
                }
                write_string(out, &String::from_str("USR1"));
            },
            SignalName::USR2 => {
                proof {
                    reveal_strlit("USR2");
                    lemma_encode_utf8_len("USR2"@);
                }
                write_string(out, &String::from_str("USR2"));
            },
        }
    }
}

/// A value named on the wire by a length-prefixed string, with an
/// `Unknown` variant that keeps any unrecognized name.
#[allow(non_camel_case_types)]
#[derive(Clone, Debug, PartialEq)]
pub enum KeyExchangeMethod {
    ecdh__sha2__nistp256,
    Unknown(String),
}

/// Mathematical view of [`KeyExchangeMethod`].
#[allow(non_camel_case_types)]
pub enum KeyExchangeMethodV {
    ecdh__sha2__nistp256,
    Unknown(Seq<char>),
}

impl View for KeyExchangeMethod {
    type V = KeyExchangeMethodV;

    open spec fn view(&self) -> KeyExchangeMethodV {
        match self {
            KeyExchangeMethod::ecdh__sha2__nistp256 => KeyExchangeMethodV::ecdh__sha2__nistp256,
            KeyExchangeMethod::Unknown(s) => KeyExchangeMethodV::Unknown(s@),
        }
    }
}

/// Whether `s` names a defined variant of `KeyExchangeMethod`.
pub open spec fn spec_kex_method_known(s: Seq<char>) -> bool {
    s == "ecdh-sha2-nistp256"@
}

/// The wire name of each value.
pub open spec fn spec_kex_method_name(v: KeyExchangeMethodV) -> Seq<char> {
    match v {
        KeyExchangeMethodV::ecdh__sha2__nistp256 => "ecdh-sha2-nistp256"@,
        KeyExchangeMethodV::Unknown(s) => s,
    }
}

/// A value the wire represents faithfully: an `Unknown` name is not one
/// of the defined names (those decode to their own variant) and fits
/// behind a 32-bit length.
pub open spec fn spec_kex_method_ok(v: KeyExchangeMethodV) -> bool {
    match v {
        KeyExchangeMethodV::Unknown(s) => !spec_kex_method_known(s) && spec_string_fits(s),
        _ => true,
    }
}

/// Outcome of decoding a `KeyExchangeMethod` at `pos`: an unrecognized name
/// becomes `Unknown`.
pub open spec fn spec_read_kex_method(b: Seq<u8>, pos: int) -> Result<(KeyExchangeMethodV, int), SSHError> {
    match spec_read_string(b, pos) {
        Ok((s, p)) => {
            if s == "ecdh-sha2-nistp256"@ {
                Ok((KeyExchangeMethodV::ecdh__sha2__nistp256, p))
            } else {
                Ok((KeyExchangeMethodV::Unknown(s), p))
            }
        },
        Err(e) => Err(e),
    }
}

impl KeyExchangeMethod {
    pub fn read_ssh(buf: &Vec<u8>, pos: usize) -> (r: Result<(KeyExchangeMethod, usize), SSHError>)
        requires
            pos <= buf.len(),
        ensures
            match r {
                Ok((v, end)) => pos <= end <= buf.len() && spec_read_kex_method(buf@, pos as int)
                    == Ok::<(KeyExchangeMethodV, int), SSHError>((v@, end as int)),
                Err(e) => spec_read_kex_method(buf@, pos as int) == Err::<(KeyExchangeMethodV, int), SSHError>(e),
            },
    {
        let (s, end) = match read_string(buf, pos) {
            Ok(v) => v,
            Err(e) => {
                return Err(e);
            },
        };
        if s == String::from_str("ecdh-sha2-nistp256") {
            Ok((KeyExchangeMethod::ecdh__sha2__nistp256, end))
        } else {
            Ok((KeyExchangeMethod::Unknown(s), end))
        }
    }

    pub fn write_ssh(&self, out: &mut Vec<u8>)
        requires
            spec_string_fits(spec_kex_method_name(self@)),
        ensures
            final(out)@ == old(out)@ + spec_string_wire(spec_kex_method_name(self@)),
    {
        match self {
            KeyExchangeMethod::ecdh__sha2__nistp256 => {
                proof {
                    reveal_strlit("ecdh-sha2-nistp256");
                    lemma_encode_utf8_len("ecdh-sha2-nistp256"@);
                }
                write_string(out, &String::from_str("ecdh-sha2-nistp256"));
            },
            KeyExchangeMethod::Unknown(s) => {
                write_string(out, s);
            },
        }
    }
}

/// A value named on the wire by a length-prefixed string, with an
/// `Unknown` variant that keeps any unrecognized name.
#[allow(non_camel_case_types)]
#[derive(Clone, Debug, PartialEq)]
pub enum EncryptionAlgorithm {
    aes128__ctr,
    none,
    Unknown(String),
}

/// Mathematical view of [`EncryptionAlgorithm`].
#[allow(non_camel_case_types)]
pub enum EncryptionAlgorithmV {
    aes128__ctr,
    none,
    Unknown(Seq<char>),
}

impl View for EncryptionAlgorithm {
    type V = EncryptionAlgorithmV;

    open spec fn view(&self) -> EncryptionAlgorithmV {
        match self {
            EncryptionAlgorithm::aes128__ctr => EncryptionAlgorithmV::aes128__ctr,
            EncryptionAlgorithm::none => EncryptionAlgorithmV::none,
            EncryptionAlgorithm::Unknown(s) => EncryptionAlgorithmV::Unknown(s@),
        }
    }
}

/// Whether `s` names a defined variant of `EncryptionAlgorithm`.
pub open spec fn spec_encryption_algorithm_known(s: Seq<char>) -> bool {
    s == "aes128-ctr"@ || s == "none"@
}

/// The wire name of each value.
pub open spec fn spec_encryption_algorithm_name(v: EncryptionAlgorithmV) -> Seq<char> {
    match v {
        EncryptionAlgorithmV::aes128__ctr => "aes128-ctr"@,
        EncryptionAlgorithmV::none => "none"@,
        EncryptionAlgorithmV::Unknown(s) => s,
    }
}

/// A value the wire represents faithfully: an `Unknown` name is not one
/// of the defined names (those decode to their own variant) and fits
/// behind a 32-bit length.
pub open spec fn spec_encryption_algorithm_ok(v: EncryptionAlgorithmV) -> bool {
    match v {
        EncryptionAlgorithmV::Unknown(s) => !spec_encryption_algorithm_known(s) && spec_string_fits(s),
        _ => true,
    }
}

/// Outcome of decoding a `EncryptionAlgorithm` at `pos`: an unrecognized name
/// becomes `Unknown`.
pub open spec fn spec_read_encryption_algorithm(b: Seq<u8>, pos: int) -> Result<(EncryptionAlgorithmV, int), SSHError> {
    match spec_read_string(b, pos) {
        Ok((s, p)) => {
            if s == "aes128-ctr"@ {
                Ok((EncryptionAlgorithmV::aes128__ctr, p))
            } else if s == "none"@ {
                Ok((EncryptionAlgorithmV::none, p))
            } else {
                Ok((EncryptionAlgorithmV::Unknown(s), p))
            }
        },
        Err(e) => Err(e),
    }
}

impl EncryptionAlgorithm {
    pub fn read_ssh(buf: &Vec<u8>, pos: usize) -> (r: Result<(EncryptionAlgorithm, usize), SSHError>)
        requires
            pos <= buf.len(),
        ensures
            match r {
                Ok((v, end)) => pos <= end <= buf.len() && spec_read_encryption_algorithm(buf@, pos as int)
                    == Ok::<(EncryptionAlgorithmV, int), SSHError>((v@, end as int)),
                Err(e) => spec_read_encryption_algorithm(buf@, pos as int) == Err::<(EncryptionAlgorithmV, int), SSHError>(e),
            },
    {
        let (s, end) = match read_string(buf, pos) {
            Ok(v) => v,
            Err(e) => {
                return Err(e);
            },
        };
        if s == String::from_str("aes128-ctr") {
            Ok((EncryptionAlgorithm::aes128__ctr, end))
        } else if s == String::from_str("none") {
            Ok((EncryptionAlgorithm::none, end))
        } else {
            Ok((EncryptionAlgorithm::Unknown(s), end))
        }
    }

    pub fn write_ssh(&self, out: &mut Vec<u8>)
        requires
            spec_string_fits(spec_encryption_algorithm_name(self@)),
        ensures
            final(out)@ == old(out)@ + spec_string_wire(spec_encryption_algorithm_name(self@)),
    {
        match self {
            EncryptionAlgorithm::aes128__ctr => {
                proof {
                    reveal_strlit("aes128-ctr");
                    lemma_encode_utf8_len("aes128-ctr"@);
                }
                write_string(out, &String::from_str("aes128-ctr"));
            },
            EncryptionAlgorithm::none => {
                proof {
                    reveal_strlit("none");
                    lemma_encode_utf8_len("none"@);
                }
                write_string(out, &String::from_str("none"));
            },
            EncryptionAlgorithm::Unknown(s) => {
                write_string(out, s);
            },
        }
    }
}

/// A value named on the wire by a length-prefixed string, with an
/// `Unknown` variant that keeps any unrecognized name.
#[allow(non_camel_case_types)]
#[derive(Clone, Debug, PartialEq)]
pub enum MACAlgorithm {
    hmac__sha1,
    hmac__sha2__256,
    none,
    Unknown(String),
}

/// Mathematical view of [`MACAlgorithm`].
#[allow(non_camel_case_types)]
pub enum MACAlgorithmV {
    hmac__sha1,
    hmac__sha2__256,
    none,
    Unknown(Seq<char>),
}

impl View for MACAlgorithm {
    type V = MACAlgorithmV;

    open spec fn view(&self) -> MACAlgorithmV {
        match self {
            MACAlgorithm::hmac__sha1 => MACAlgorithmV::hmac__sha1,
            MACAlgorithm::hmac__sha2__256 => MACAlgorithmV::hmac__sha2__256,
            MACAlgorithm::none => MACAlgorithmV::none,
            MACAlgorithm::Unknown(s) => MACAlgorithmV::Unknown(s@),
        }
    }
}

/// Whether `s` names a defined variant of `MACAlgorithm`.
pub open spec fn spec_mac_algorithm_known(s: Seq<char>) -> bool {
    s == "hmac-sha1"@ || s == "hmac-sha2-256"@ || s == "none"@
}

/// The wire name of each value.
pub open spec fn spec_mac_algorithm_name(v: MACAlgorithmV) -> Seq<char> {
    match v {
        MACAlgorithmV::hmac__sha1 => "hmac-sha1"@,
        MACAlgorithmV::hmac__sha2__256 => "hmac-sha2-256"@,
        MACAlgorithmV::none => "none"@,
        MACAlgorithmV::Unknown(s) => s,
    }
}

/// A value the wire represents faithfully: an `Unknown` name is not one
/// of the defined names (those decode to their own variant) and fits
/// behind a 32-bit length.
pub open spec fn spec_mac_algorithm_ok(v: MACAlgorithmV) -> bool {
    match v {
        MACAlgorithmV::Unknown(s) => !spec_mac_algorithm_known(s) && spec_string_fits(s),
        _ => true,
    }
}

/// Outcome of decoding a `MACAlgorithm` at `pos`: an unrecognized name
/// becomes `Unknown`.
pub open spec fn spec_read_mac_algorithm(b: Seq<u8>, pos: int) -> Result<(MACAlgorithmV, int), SSHError> {
    match spec_read_string(b, pos) {
        Ok((s, p)) => {
            if s == "hmac-sha1"@ {
                Ok((MACAlgorithmV::hmac__sha1, p))
            } else if s == "hmac-sha2-256"@ {
                Ok((MACAlgorithmV::hmac__sha2__256, p))
            } else if s == "none"@ {
                Ok((MACAlgorithmV::none, p))
            } else {
                Ok((MACAlgorithmV::Unknown(s), p))
            }
        },
        Err(e) => Err(e),
    }
}

impl MACAlgorithm {
    pub fn read_ssh(buf: &Vec<u8>, pos: usize) -> (r: Result<(MACAlgorithm, usize), SSHError>)
        requires
            pos <= buf.len(),
        ensures
            match r {
                Ok((v, end)) => pos <= end <= buf.len() && spec_read_mac_algorithm(buf@, pos as int)
                    == Ok::<(MACAlgorithmV, int), SSHError>((v@, end as int)),
                Err(e) => spec_read_mac_algorithm(buf@, pos as int) == Err::<(MACAlgorithmV, int), SSHError>(e),
            },
    {
        let (s, end) = match read_string(buf, pos) {
            Ok(v) => v,
            Err(e) => {
                return Err(e);
            },
        };
        if s == String::from_str("hmac-sha1") {
            Ok((MACAlgorithm::hmac__sha1, end))
        } else if s == String::from_str("hmac-sha2-256") {
            Ok((MACAlgorithm::hmac__sha2__256, end))
        } else if s == String::from_str("none") {
            Ok((MACAlgorithm::none, end))
        } else {
            Ok((MACAlgorithm::Unknown(s), end))
        }
    }

    pub fn write_ssh(&self, out: &mut Vec<u8>)
        requires
            spec_string_fits(spec_mac_algorithm_name(self@)),
        ensures
            final(out)@ == old(out)@ + spec_string_wire(spec_mac_algorithm_name(self@)),
    {
        match self {
            MACAlgorithm::hmac__sha1 => {
                proof {
                    reveal_strlit("hmac-sha1");
                    lemma_encode_utf8_len("hmac-sha1"@);
                }
                write_string(out, &String::from_str("hmac-sha1"));
            },
            MACAlgorithm::hmac__sha2__256 => {
                proof {
                    reveal_strlit("hmac-sha2-256");
                    lemma_encode_utf8_len("hmac-sha2-256"@);
                }
                write_string(out, &String::from_str("hmac-sha2-256"));
            },
            MACAlgorithm::none => {
                proof {
                    reveal_strlit("none");
                    lemma_encode_utf8_len("none"@);
                }
                write_string(out, &String::from_str("none"));
            },
            MACAlgorithm::Unknown(s) => {
                write_string(out, s);
            },
        }
    }
}

/// A value named on the wire by a length-prefixed string, with an
/// `Unknown` variant that keeps any unrecognized name.
#[allow(non_camel_case_types)]
#[derive(Clone, Debug, PartialEq)]
pub enum PublicKeyAlgorithm {
    ssh__rsa,
    ssh__ed25519,
    Unknown(String),
}

/// Mathematical view of [`PublicKeyAlgorithm`].
#[allow(non_camel_case_types)]
pub enum PublicKeyAlgorithmV {
    ssh__rsa,
    ssh__ed25519,
    Unknown(Seq<char>),
}

impl View for PublicKeyAlgorithm {
    type V = PublicKeyAlgorithmV;

    open spec fn view(&self) -> PublicKeyAlgorithmV {
        match self {
            PublicKeyAlgorithm::ssh__rsa => PublicKeyAlgorithmV::ssh__rsa,
            PublicKeyAlgorithm::ssh__ed25519 => PublicKeyAlgorithmV::ssh__ed25519,
            PublicKeyAlgorithm::Unknown(s) => PublicKeyAlgorithmV::Unknown(s@),
        }
    }
}

/// Whether `s` names a defined variant of `PublicKeyAlgorithm`.
pub open spec fn spec_public_key_algorithm_known(s: Seq<char>) -> bool {
    s == "ssh-rsa"@ || s == "ssh-ed25519"@
}

/// The wire name of each value.
pub open spec fn spec_public_key_algorithm_name(v: PublicKeyAlgorithmV) -> Seq<char> {
    match v {
        PublicKeyAlgorithmV::ssh__rsa => "ssh-rsa"@,
        PublicKeyAlgorithmV::ssh__ed25519 => "ssh-ed25519"@,
        PublicKeyAlgorithmV::Unknown(s) => s,
    }
}

/// A value the wire represents faithfully: an `Unknown` name is not one
/// of the defined names (those decode to their own variant) and fits
/// behind a 32-bit length.
pub open spec fn spec_public_key_algorithm_ok(v: PublicKeyAlgorithmV) -> bool {
    match v {
        PublicKeyAlgorithmV::Unknown(s) => !spec_public_key_algorithm_known(s) && spec_string_fits(s),
        _ => true,
    }
}

/// Outcome of decoding a `PublicKeyAlgorithm` at `pos`: an unrecognized name
/// becomes `Unknown`.
pub open spec fn spec_read_public_key_algorithm(b: Seq<u8>, pos: int) -> Result<(PublicKeyAlgorithmV, int), SSHError> {
    match spec_read_string(b, pos) {
        Ok((s, p)) => {
            if s == "ssh-rsa"@ {
                Ok((PublicKeyAlgorithmV::ssh__rsa, p))
            } else if s == "ssh-ed25519"@ {
                Ok((PublicKeyAlgorithmV::ssh__ed25519, p))
            } else {
                Ok((PublicKeyAlgorithmV::Unknown(s), p))
            }
        },
        Err(e) => Err(e),
    }
}

impl PublicKeyAlgorithm {
    pub fn read_ssh(buf: &Vec<u8>, pos: usize) -> (r: Result<(PublicKeyAlgorithm, usize), SSHError>)
        requires
            pos <= buf.len(),
        ensures
            match r {
                Ok((v, end)) => pos <= end <= buf.len() && spec_read_public_key_algorithm(buf@, pos as int)
                    == Ok::<(PublicKeyAlgorithmV, int), SSHError>((v@, end as int)),
                Err(e) => spec_read_public_key_algorithm(buf@, pos as int) == Err::<(PublicKeyAlgorithmV, int), SSHError>(e),
            },
    {
        let (s, end) = match read_string(buf, pos) {
            Ok(v) => v,
            Err(e) => {
                return Err(e);
            },
        };
        if s == String::from_str("ssh-rsa") {
            Ok((PublicKeyAlgorithm::ssh__rsa, end))
        } else if s == String::from_str("ssh-ed25519") {
            Ok((PublicKeyAlgorithm::ssh__ed25519, end))
        } else {
            Ok((PublicKeyAlgorithm::Unknown(s), end))
        }
    }

    pub fn write_ssh(&self, out: &mut Vec<u8>)
        requires
            spec_string_fits(spec_public_key_algorithm_name(self@)),
        ensures
            final(out)@ == old(out)@ + spec_string_wire(spec_public_key_algorithm_name(self@)),
    {
        match self {
            PublicKeyAlgorithm::ssh__rsa => {
                proof {
                    reveal_strlit("ssh-rsa");
                    lemma_encode_utf8_len("ssh-rsa"@);
                }
                write_string(out, &String::from_str("ssh-rsa"));
            },
            PublicKeyAlgorithm::ssh__ed25519 => {
                proof {
                    reveal_strlit("ssh-ed25519");
                    lemma_encode_utf8_len("ssh-ed25519"@);
                }
                write_string(out, &String::from_str("ssh-ed25519"));
            },
            PublicKeyAlgorithm::Unknown(s) => {
                write_string(out, s);
            },
        }
    }
}

/// A value named on the wire by a length-prefixed string, with an
/// `Unknown` variant that keeps any unrecognized name.
#[allow(non_camel_case_types)]
#[derive(Clone, Debug, PartialEq)]
pub enum CompressionAlgorithm {
    zlib,
    none,
    Unknown(String),
}

/// Mathematical view of [`CompressionAlgorithm`].
#[allow(non_camel_case_types)]
pub enum CompressionAlgorithmV {
    zlib,
    none,
    Unknown(Seq<char>),
}

impl View for CompressionAlgorithm {
    type V = CompressionAlgorithmV;

    open spec fn view(&self) -> CompressionAlgorithmV {
        match self {
            CompressionAlgorithm::zlib => CompressionAlgorithmV::zlib,
            CompressionAlgorithm::none => CompressionAlgorithmV::none,
            CompressionAlgorithm::Unknown(s) => CompressionAlgorithmV::Unknown(s@),
        }
    }
}

/// Whether `s` names a defined variant of `CompressionAlgorithm`.
pub open spec fn spec_compression_algorithm_known(s: Seq<char>) -> bool {
    s == "zlib"@ || s == "none"@
}

/// The wire name of each value.
pub open spec fn spec_compression_algorithm_name(v: CompressionAlgorithmV) -> Seq<char> {
    match v {
        CompressionAlgorithmV::zlib => "zlib"@,
        CompressionAlgorithmV::none => "none"@,
        CompressionAlgorithmV::Unknown(s) => s,
    }
}

/// A value the wire represents faithfully: an `Unknown` name is not one
/// of the defined names (those decode to their own variant) and fits
/// behind a 32-bit length.
pub open spec fn spec_compression_algorithm_ok(v: CompressionAlgorithmV) -> bool {
    match v {
        CompressionAlgorithmV::Unknown(s) => !spec_compression_algorithm_known(s) && spec_string_fits(s),
        _ => true,
    }
}

/// Outcome of decoding a `CompressionAlgorithm` at `pos`: an unrecognized name
/// becomes `Unknown`.
pub open spec fn spec_read_compression_algorithm(b: Seq<u8>, pos: int) -> Result<(CompressionAlgorithmV, int), SSHError> {
    match spec_read_string(b, pos) {
        Ok((s, p)) => {
            if s == "zlib"@ {
                Ok((CompressionAlgorithmV::zlib, p))
            } else if s == "none"@ {
                Ok((CompressionAlgorithmV::none, p))
            } else {
                Ok((CompressionAlgorithmV::Unknown(s), p))
            }
        },
        Err(e) => Err(e),
    }
}

impl CompressionAlgorithm {
    pub fn read_ssh(buf: &Vec<u8>, pos: usize) -> (r: Result<(CompressionAlgorithm, usize), SSHError>)
        requires
            pos <= buf.len(),
        ensures
            match r {
                Ok((v, end)) => pos <= end <= buf.len() && spec_read_compression_algorithm(buf@, pos as int)
                    == Ok::<(CompressionAlgorithmV, int), SSHError>((v@, end as int)),
                Err(e) => spec_read_compression_algorithm(buf@, pos as int) == Err::<(CompressionAlgorithmV, int), SSHError>(e),
            },
    {
        let (s, end) = match read_string(buf, pos) {
            Ok(v) => v,
            Err(e) => {
                return Err(e);
            },
        };
        if s == String::from_str("zlib") {
            Ok((CompressionAlgorithm::zlib, end))
        } else if s == String::from_str("none") {
            Ok((CompressionAlgorithm::none, end))
        } else {
            Ok((CompressionAlgorithm::Unknown(s), end))
        }
    }

    pub fn write_ssh(&self, out: &mut Vec<u8>)
        requires
            spec_string_fits(spec_compression_algorithm_name(self@)),
        ensures
            final(out)@ == old(out)@ + spec_string_wire(spec_compression_algorithm_name(self@)),
    {
        match self {
            CompressionAlgorithm::zlib => {
                proof {
                    reveal_strlit("zlib");
                    lemma_encode_utf8_len("zlib"@);
                }
                write_string(out, &String::from_str("zlib"));
            },
            CompressionAlgorithm::none => {
                proof {
                    reveal_strlit("none");
                    lemma_encode_utf8_len("none"@);
                }
                write_string(out, &String::from_str("none"));
            },
            CompressionAlgorithm::Unknown(s) => {
                write_string(out, s);
            },
        }
    }
}

} // verus!
