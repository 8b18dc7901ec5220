//! Client-side TLS handshake engine: the connection state machine, the
//! handshake transcript, cipher-suite negotiation, and the read/write
//! scheduling contract between the state machine and the transport.
//!
//! Record framing, certificate-chain validation and the transport itself are
//! external collaborators; the engine works on complete, type-tagged messages.
use vstd::prelude::*;

pub mod client;
pub mod hash;
pub mod laws;
pub mod msgs;
pub mod suites;

verus! {

/// The error taxonomy of the handshake engine. Every failure aborts the
/// handshake; nothing is retried.
#[derive(Clone, Copy, PartialEq, Eq, Structural, Debug)]
pub enum HandshakeError {
    /// A message arrived that does not match what the current state expects.
    ProtocolViolation,
    /// A message's raw payload could not be parsed.
    DecodeFailure,
    /// No mutually acceptable cipher suite, or the peer picked the
    /// renegotiation sentinel as if it were a real suite.
    NegotiationFailure,
    /// A message was dispatched in a state that has no real handler.
    UnexpectedState,
}

} // verus!
