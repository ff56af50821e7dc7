use vstd::prelude::*;

verus! {

/// Error taxonomy of the transport core.
///
/// `Truncated` means the input ended before a complete value; at the framing
/// layer it is recoverable (wait for more bytes), everywhere else it is fatal.
/// Every other kind terminates the connection: this protocol cannot safely
/// resynchronize a corrupted stream.
#[derive(Clone, Copy, Debug, PartialEq, Eq, Structural)]
pub enum SSHError {
    /// Not enough bytes yet to finish reading a value or a frame.
    Truncated,
    /// Invalid data: bad UTF-8, an undefined enum discriminant or name,
    /// inconsistent padding, or an implausible packet length.
    Malformed,
    /// A message tag byte that matches no known message variant.
    Unrecognized,
    /// No common algorithm in a required negotiation category.
    NegotiationFailure,
    /// A MAC or signature did not verify.
    VerifyFailure,
    /// The peer stayed silent beyond the allowed idle time.
    Timeout,
    /// A message that is illegal in the current connection phase and would
    /// corrupt state if acted on.
    Protocol,
}

} // verus!
