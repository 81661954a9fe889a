//! ClientAuth codec: the authentication token hidden in the 32-byte TLS
//! session identifier.
//!
//! Under the four-region ticket layout the bytes are
//! `fresh random [0,8) | handshake authenticator [8,24) | ticket [24,32)`.
//! Decoding first tries this layout: it recomputes the authenticator over
//! the random and ticket regions under the shared key and compares it to
//! the embedded region in constant time. A match authenticates the
//! ticket; a mismatch falls back to the three-region probe reading and is
//! never an error, so uninitiated clients and active probes are
//! indistinguishable. Only a session identifier that is not exactly 32
//! bytes is malformed.

use vstd::prelude::*;
use crate::mac::{ct_eq, handshake_hmac, push_bytes, spec_handshake_hmac};

verus! {

/// Outcome of reading a session identifier: the tri-state result that
/// keeps authentication failures indistinguishable from ordinary TLS.
#[derive(Debug)]
pub enum ClientAuthVerdict {
    /// The four-region authenticator matched; the ticket region follows.
    Authenticated(Vec<u8>),
    /// Correctly sized but unauthenticated: treat as an ordinary client
    /// or probe under the three-region layout.
    Probe,
    /// Not exactly 32 bytes: structurally invalid, never authenticated.
    Malformed,
}

/// A session identifier under the four-region layout: fresh random,
/// authenticator over (random, ticket), ticket.
pub open spec fn spec_encode_client_auth(ticket: Seq<u8>, key: Seq<u8>, fresh: Seq<u8>) -> Seq<
    u8,
> {
    fresh + spec_handshake_hmac(key, fresh + ticket) + ticket
}

/// Whether the embedded authenticator of a 32-byte session identifier
/// matches the one recomputed under `key`.
pub open spec fn spec_auth_accepts(sid: Seq<u8>, key: Seq<u8>) -> bool {
    &&& sid.len() == 32
    &&& sid.subrange(8, 24) == spec_handshake_hmac(
        key,
        sid.subrange(0, 8) + sid.subrange(24, 32),
    )
}

/// The ticket region of a session identifier under the ticket layout.
pub open spec fn spec_auth_ticket(sid: Seq<u8>) -> Seq<u8> {
    sid.subrange(24, 32)
}

/// Packs a ticket, a shared key and a fresh 8-byte random into a 32-byte
/// session identifier under the four-region layout. The random is an
/// input of the authenticator, so two encodings with distinct randoms
/// differ even for the same ticket.
pub fn encode_client_auth(ticket: &[u8], key: &[u8], fresh_random: &[u8]) -> (sid: Vec<u8>)
    requires
        ticket@.len() == 8,
        fresh_random@.len() == 8,
    ensures
        sid@ == spec_encode_client_auth(ticket@, key@, fresh_random@),
        sid@.len() == 32,
{
    let mut data: Vec<u8> = Vec::new();
    push_bytes(&mut data, fresh_random);
    push_bytes(&mut data, ticket);
    let hmac = handshake_hmac(key, data.as_slice());
    let mut sid: Vec<u8> = Vec::new();
    push_bytes(&mut sid, fresh_random);
    push_bytes(&mut sid, hmac.as_slice());
    push_bytes(&mut sid, ticket);
    proof {
        assert(sid@ =~= spec_encode_client_auth(ticket@, key@, fresh_random@));
    }
    sid
}

/// Reads a session identifier under the shared key. Exactly one of the
/// three verdicts holds: a wrong length is `Malformed`; a matching
/// authenticator yields the embedded ticket; anything else is `Probe`.
/// The authenticator comparison runs in constant time so that an active
/// prober cannot distinguish a near-match from a mismatch.
pub fn decode_client_auth(session_id: &[u8], key: &[u8]) -> (r: ClientAuthVerdict)
    ensures
        match r {
            ClientAuthVerdict::Authenticated(t) => spec_auth_accepts(session_id@, key@) && t@
                == spec_auth_ticket(session_id@),
            ClientAuthVerdict::Probe => session_id@.len() == 32 && !spec_auth_accepts(
                session_id@,
                key@,
            ),
            ClientAuthVerdict::Malformed => session_id@.len() != 32,
        },
{
    if session_id.len() != 32 {
        return ClientAuthVerdict::Malformed;
    }
    let mut data: Vec<u8> = Vec::new();
    push_bytes(&mut data, vstd::slice::slice_subrange(session_id, 0, 8));
    push_bytes(&mut data, vstd::slice::slice_subrange(session_id, 24, 32));
    proof {
        assert(data@ =~= session_id@.subrange(0, 8) + session_id@.subrange(24, 32));
    }
    let expected = handshake_hmac(key, data.as_slice());
    let embedded = vstd::slice::slice_subrange(session_id, 8, 24);
    if ct_eq(embedded, expected.as_slice()) {
        let mut ticket: Vec<u8> = Vec::new();
        push_bytes(&mut ticket, vstd::slice::slice_subrange(session_id, 24, 32));
        proof {
            assert(ticket@ =~= spec_auth_ticket(session_id@));
        }
        ClientAuthVerdict::Authenticated(ticket)
    } else {
        ClientAuthVerdict::Probe
    }
}

/// Law: decoding an encoding under the same key authenticates and
/// returns exactly the encoded ticket.
pub proof fn lemma_client_auth_round_trip(ticket: Seq<u8>, key: Seq<u8>, fresh: Seq<u8>)
    requires
        ticket.len() == 8,
        fresh.len() == 8,
    ensures
        spec_auth_accepts(spec_encode_client_auth(ticket, key, fresh), key),
        spec_auth_ticket(spec_encode_client_auth(ticket, key, fresh)) == ticket,
{
    let sid = spec_encode_client_auth(ticket, key, fresh);
    crate::mac::lemma_handshake_hmac_len(key, fresh + ticket);
    assert(sid.subrange(0, 8) =~= fresh);
    assert(sid.subrange(24, 32) =~= ticket);
    assert(sid.subrange(8, 24) =~= spec_handshake_hmac(key, fresh + ticket));
    assert(sid.subrange(0, 8) + sid.subrange(24, 32) == fresh + ticket);
}

/// Law: under a key whose recomputed authenticator differs from the one
/// the encoder embedded, decoding falls back to the probe reading. (If
/// the two keys' authenticators collide on these bytes the encoding is
/// accepted; the hypothesis rules exactly that out.)
pub proof fn lemma_client_auth_wrong_key(
    ticket: Seq<u8>,
    key_enc: Seq<u8>,
    key_dec: Seq<u8>,
    fresh: Seq<u8>,
)
    requires
        ticket.len() == 8,
        fresh.len() == 8,
        spec_handshake_hmac(key_dec, fresh + ticket) != spec_handshake_hmac(
            key_enc,
            fresh + ticket,
        ),
    ensures
        !spec_auth_accepts(spec_encode_client_auth(ticket, key_enc, fresh), key_dec),
{
    let sid = spec_encode_client_auth(ticket, key_enc, fresh);
    crate::mac::lemma_handshake_hmac_len(key_enc, fresh + ticket);
    assert(sid.subrange(0, 8) =~= fresh);
    assert(sid.subrange(24, 32) =~= ticket);
    assert(sid.subrange(8, 24) =~= spec_handshake_hmac(key_enc, fresh + ticket));
    assert(sid.subrange(0, 8) + sid.subrange(24, 32) == fresh + ticket);
}

} // verus!
