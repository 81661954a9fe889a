//! Wire-level core of a TLS-camouflaging tunnel protocol.
//!
//! The crate covers four mechanisms, each verified against its contract:
//! a validator for negotiated key-exchange groups and cipher suites, a
//! codec that hides an authentication token in the 32-byte TLS session
//! identifier, a framer for fixed-overhead authenticated and masked
//! application-data records, and a per-connection handshake classifier
//! that decides between an authenticated tunnel and transparent relay.
//! Transport I/O and the TLS cryptographic primitives themselves are the
//! caller's collaborators and stay outside this crate.

pub mod classifier;
pub mod consts;
pub mod errors;
pub mod framer;
pub mod mac;
pub mod records;
pub mod session_auth;
pub mod suites;
