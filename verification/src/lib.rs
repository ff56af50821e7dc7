//! Transport layer of an SSH-style secure remote-access protocol: a typed
//! binary codec for protocol messages, a packet framing layer for the
//! plaintext and encrypted wire regimes, algorithm negotiation, and a
//! per-connection handshake state machine.

pub mod err;
pub mod wire;
pub mod namelist;
pub mod codes;
pub mod names;
pub mod msg;
pub mod frame;
pub mod crypto;
pub mod negotiate;
pub mod engine;
