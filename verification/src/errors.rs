//! Error taxonomy of the protocol core.
//!
//! Soft failures (`UnsupportedCurve`, `UnrecognizedCipherSuite`,
//! `AuthFailure`) never surface to the remote peer: callers route them to
//! the passthrough fallback. Hard failures (`MalformedRecord`,
//! `ReplayDetected`) mean the byte stream can no longer be parsed safely
//! and terminate the connection.

use vstd::prelude::*;

verus! {

#[derive(Clone, Copy, Debug, PartialEq, Eq, Structural)]
pub enum ProtocolError {
    /// The negotiated key-exchange group is not one the tunnel supports.
    UnsupportedCurve,
    /// The negotiated cipher suite is neither a known legacy GCM suite
    /// nor handled by the modern path.
    UnrecognizedCipherSuite,
    /// An authenticator (handshake or record) failed to verify.
    AuthFailure,
    /// A length is out of its declared bounds or a field is truncated.
    MalformedRecord,
    /// A record's sequence number regressed within one direction.
    ReplayDetected,
}

impl ProtocolError {
    /// A soft error forces the passthrough fallback; a hard one
    /// terminates the connection.
    pub fn is_hard(&self) -> (r: bool)
        ensures
            r == (*self == ProtocolError::MalformedRecord
                || *self == ProtocolError::ReplayDetected),
    {
        match self {
            ProtocolError::MalformedRecord => true,
            ProtocolError::ReplayDetected => true,
            _ => false,
        }
    }
}

} // verus!
