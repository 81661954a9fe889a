//! Validator for negotiated key-exchange groups and cipher suites.
//!
//! A supported group maps to the index of its precomputed key-exchange
//! slot; anything else is `UnsupportedCurve`. A cipher suite is either
//! one of the recognized legacy TLS 1.2 GCM fallback suites or
//! unrecognized, in which case the connection must fall back to
//! passthrough rather than surface an error.

use vstd::prelude::*;
use crate::consts::{CURVE_P256, CURVE_P384, X25519};
use crate::errors::ProtocolError;

verus! {

/// The key-exchange groups the tunnel accepts.
pub open spec fn spec_curve_supported(curve_id: int) -> bool {
    curve_id == 29 || curve_id == 23 || curve_id == 24
}

/// Slot index of a supported key-exchange group: X25519, P-256, P-384
/// in that order.
pub open spec fn spec_curve_index(curve_id: int) -> int {
    if curve_id == 29 {
        0
    } else if curve_id == 23 {
        1
    } else {
        2
    }
}

/// Maps a negotiated key-exchange group to its precomputed slot index.
pub fn curve_id_to_index(curve_id: usize) -> (r: Result<usize, ProtocolError>)
    ensures
        spec_curve_supported(curve_id as int) ==> r == Ok::<usize, ProtocolError>(
            spec_curve_index(curve_id as int) as usize,
        ),
        !spec_curve_supported(curve_id as int) ==> r == Err::<usize, ProtocolError>(
            ProtocolError::UnsupportedCurve,
        ),
{
    if curve_id == X25519 {
        Ok(0)
    } else if curve_id == CURVE_P256 {
        Ok(1)
    } else if curve_id == CURVE_P384 {
        Ok(2)
    } else {
        Err(ProtocolError::UnsupportedCurve)
    }
}

#[derive(Clone, Copy, Debug, PartialEq, Eq, Structural)]
pub enum CipherSuiteClass {
    /// One of the fixed TLS 1.2 GCM suites kept for the legacy path.
    LegacyGcmFallback,
    /// Everything else: the connection becomes transparent relay.
    Unrecognized,
}

/// The fixed list of TLS 1.2 GCM suites recognized for legacy fallback.
pub open spec fn spec_is_tls12_gcm(id: int) -> bool {
    id == 0xc02f || id == 0xc02b || id == 0xc030 || id == 0xc02c
}

/// Classifies a negotiated cipher suite; unrecognized suites force
/// passthrough, never an error visible to the peer.
pub fn classify_cipher_suite(id: u16) -> (r: CipherSuiteClass)
    ensures
        r == CipherSuiteClass::LegacyGcmFallback <==> spec_is_tls12_gcm(id as int),
{
    if id == 0xc02f || id == 0xc02b || id == 0xc030 || id == 0xc02c {
        CipherSuiteClass::LegacyGcmFallback
    } else {
        CipherSuiteClass::Unrecognized
    }
}

} // verus!
