//! Handshake classifier: the per-connection state machine that composes
//! the codec, the validator and the parsers to decide whether a
//! connection becomes an authenticated tunnel or falls back to
//! transparent relay.
//!
//! Soft failures (an unauthenticated session identifier, an unsupported
//! group, an unrecognized suite) move the connection to `Passthrough`
//! and never surface an error to the peer; only structural violations of
//! the byte stream are hard `MalformedRecord` failures. Every transition
//! is pinned by `spec_step`, one specified outcome per state and record.

use vstd::prelude::*;
use crate::consts::hello_retry_random;
use crate::errors::ProtocolError;
use crate::records::{
    extract_session_id, is_hello_retry, key_share_group, parse_server_hello, skippable,
    spec_client_hello_sid, spec_key_share_group, spec_record_wf, spec_sh_cipher, spec_sh_exts,
    spec_sh_random, spec_sh_wf, spec_skippable, spec_tls13_selected, tls13_selected,
};
use crate::session_auth::{
    decode_client_auth, lemma_client_auth_round_trip, lemma_client_auth_wrong_key,
    spec_auth_accepts, spec_auth_ticket, spec_encode_client_auth, ClientAuthVerdict,
};
use crate::suites::{
    classify_cipher_suite, curve_id_to_index, spec_curve_supported, spec_is_tls12_gcm,
    CipherSuiteClass,
};

verus! {

#[derive(Clone, Copy, Debug, PartialEq, Eq, Structural)]
pub enum HandshakeState {
    AwaitClientHello,
    AwaitServerHello,
    AwaitRetryClientHello,
    AwaitKeyExchange,
    Established,
    Passthrough,
}

/// Which key-exchange path the connection took after the ServerHello.
#[derive(Clone, Copy, Debug, PartialEq, Eq, Structural)]
pub enum KeyExchangeMode {
    /// TLS 1.3 selected through supported-versions with a supported
    /// key-share group.
    Modern,
    /// A recognized TLS 1.2 GCM suite: the legacy key-exchange messages
    /// are awaited.
    Legacy,
}

/// What one classified record meant for the connection.
#[derive(Clone, Copy, Debug, PartialEq, Eq, Structural)]
pub enum ClassifierEvent {
    /// The record was consumed without a transition.
    NeedMore,
    /// The handshake advanced to the named state.
    AdvancedTo(HandshakeState),
    /// The tunnel is established; application data now belongs to the
    /// record framer.
    Established,
    /// The connection is transparent relay from here on.
    Passthrough,
}

/// The specified outcome of classifying one record.
pub struct StepOutcome {
    pub state: HandshakeState,
    pub mode: Option<KeyExchangeMode>,
    pub ticket: Option<Seq<u8>>,
    pub event: Result<ClassifierEvent, ProtocolError>,
}

/// The transition relation of the classifier: for a connection in
/// `state` with stored `mode` and `ticket` under shared key `key`, the
/// outcome of classifying the record `rec`.
pub open spec fn spec_step(
    state: HandshakeState,
    mode: Option<KeyExchangeMode>,
    ticket: Option<Seq<u8>>,
    key: Seq<u8>,
    rec: Seq<u8>,
) -> StepOutcome {
    match state {
        HandshakeState::AwaitClientHello => match spec_client_hello_sid(rec) {
            Option::None => StepOutcome {
                state: HandshakeState::Passthrough,
                mode,
                ticket,
                event: Ok(ClassifierEvent::Passthrough),
            },
            Option::Some(sid) => if sid.len() != 32 {
                StepOutcome { state, mode, ticket, event: Err(ProtocolError::MalformedRecord) }
            } else if spec_auth_accepts(sid, key) {
                StepOutcome {
                    state: HandshakeState::AwaitServerHello,
                    mode,
                    ticket: Some(spec_auth_ticket(sid)),
                    event: Ok(ClassifierEvent::AdvancedTo(HandshakeState::AwaitServerHello)),
                }
            } else {
                StepOutcome {
                    state: HandshakeState::Passthrough,
                    mode,
                    ticket,
                    event: Ok(ClassifierEvent::Passthrough),
                }
            },
        },
        HandshakeState::AwaitServerHello => if spec_skippable(rec) {
            StepOutcome { state, mode, ticket, event: Ok(ClassifierEvent::NeedMore) }
        } else if !spec_sh_wf(rec) {
            StepOutcome { state, mode, ticket, event: Err(ProtocolError::MalformedRecord) }
        } else if spec_sh_random(rec) == hello_retry_random() {
            StepOutcome {
                state: HandshakeState::AwaitRetryClientHello,
                mode,
                ticket,
                event: Ok(ClassifierEvent::AdvancedTo(HandshakeState::AwaitRetryClientHello)),
            }
        } else if spec_tls13_selected(spec_sh_exts(rec)) {
            match spec_key_share_group(spec_sh_exts(rec)) {
                Option::Some(g) => if spec_curve_supported(g) {
                    StepOutcome {
                        state: HandshakeState::AwaitKeyExchange,
                        mode: Some(KeyExchangeMode::Modern),
                        ticket,
                        event: Ok(ClassifierEvent::AdvancedTo(HandshakeState::AwaitKeyExchange)),
                    }
                } else {
                    StepOutcome {
                        state: HandshakeState::Passthrough,
                        mode,
                        ticket,
                        event: Ok(ClassifierEvent::Passthrough),
                    }
                },
                Option::None => StepOutcome {
                    state: HandshakeState::Passthrough,
                    mode,
                    ticket,
                    event: Ok(ClassifierEvent::Passthrough),
                },
            }
        } else if spec_is_tls12_gcm(spec_sh_cipher(rec)) {
            StepOutcome {
                state: HandshakeState::AwaitKeyExchange,
                mode: Some(KeyExchangeMode::Legacy),
                ticket,
                event: Ok(ClassifierEvent::AdvancedTo(HandshakeState::AwaitKeyExchange)),
            }
        } else {
            StepOutcome {
                state: HandshakeState::Passthrough,
                mode,
                ticket,
                event: Ok(ClassifierEvent::Passthrough),
            }
        },
        HandshakeState::AwaitRetryClientHello => if spec_skippable(rec) {
            StepOutcome { state, mode, ticket, event: Ok(ClassifierEvent::NeedMore) }
        } else {
            match spec_client_hello_sid(rec) {
                Option::Some(_) => StepOutcome {
                    state: HandshakeState::AwaitServerHello,
                    mode,
                    ticket,
                    event: Ok(ClassifierEvent::AdvancedTo(HandshakeState::AwaitServerHello)),
                },
                Option::None => StepOutcome {
                    state,
                    mode,
                    ticket,
                    event: Err(ProtocolError::MalformedRecord),
                },
            }
        },
        HandshakeState::AwaitKeyExchange => if spec_skippable(rec) {
            StepOutcome { state, mode, ticket, event: Ok(ClassifierEvent::NeedMore) }
        } else if !spec_record_wf(rec) {
            StepOutcome { state, mode, ticket, event: Err(ProtocolError::MalformedRecord) }
        } else {
            match mode {
                Option::Some(KeyExchangeMode::Legacy) => if rec[0] == 0x16 && rec.len() >= 6 && (
                rec[5] == 0x10 || rec[5] == 0x0c) {
                    StepOutcome {
                        state: HandshakeState::Established,
                        mode,
                        ticket,
                        event: Ok(ClassifierEvent::Established),
                    }
                } else if rec[0] == 0x16 {
                    StepOutcome { state, mode, ticket, event: Ok(ClassifierEvent::NeedMore) }
                } else {
                    StepOutcome {
                        state,
                        mode,
                        ticket,
                        event: Err(ProtocolError::MalformedRecord),
                    }
                },
                Option::Some(KeyExchangeMode::Modern) => if rec[0] == 0x17 {
                    StepOutcome {
                        state: HandshakeState::Established,
                        mode,
                        ticket,
                        event: Ok(ClassifierEvent::Established),
                    }
                } else {
                    StepOutcome { state, mode, ticket, event: Ok(ClassifierEvent::NeedMore) }
                },
                Option::None => StepOutcome {
                    state,
                    mode,
                    ticket,
                    event: Err(ProtocolError::MalformedRecord),
                },
            }
        },
        HandshakeState::Established => StepOutcome {
            state,
            mode,
            ticket,
            event: Ok(ClassifierEvent::Established),
        },
        HandshakeState::Passthrough => StepOutcome {
            state,
            mode,
            ticket,
            event: Ok(ClassifierEvent::Passthrough),
        },
    }
}

/// Law: a ClientHello whose session identifier encodes a ticket under
/// the server's own key advances the connection to awaiting the
/// ServerHello and stores exactly that ticket.
pub proof fn lemma_authenticated_hello_advances(
    mode: Option<KeyExchangeMode>,
    ticket: Option<Seq<u8>>,
    t: Seq<u8>,
    key: Seq<u8>,
    fresh: Seq<u8>,
    rec: Seq<u8>,
)
    requires
        t.len() == 8,
        fresh.len() == 8,
        spec_client_hello_sid(rec) == Some(spec_encode_client_auth(t, key, fresh)),
    ensures
        spec_step(HandshakeState::AwaitClientHello, mode, ticket, key, rec) == (StepOutcome {
            state: HandshakeState::AwaitServerHello,
            mode,
            ticket: Some(t),
            event: Ok(ClassifierEvent::AdvancedTo(HandshakeState::AwaitServerHello)),
        }),
{
    crate::mac::lemma_handshake_hmac_len(key, fresh + t);
    assert(spec_encode_client_auth(t, key, fresh).len() == 32);
    lemma_client_auth_round_trip(t, key, fresh);
}

/// Law: the identical ClientHello offered to a server whose key computes
/// a different authenticator over the same random and ticket moves the
/// connection to `Passthrough`, never to an error. (Only a collision of
/// the two keys' authenticators on these bytes is excluded.)
pub proof fn lemma_foreign_key_hello_passes_through(
    mode: Option<KeyExchangeMode>,
    ticket: Option<Seq<u8>>,
    t: Seq<u8>,
    key_enc: Seq<u8>,
    key_srv: Seq<u8>,
    fresh: Seq<u8>,
    rec: Seq<u8>,
)
    requires
        t.len() == 8,
        fresh.len() == 8,
        spec_client_hello_sid(rec) == Some(spec_encode_client_auth(t, key_enc, fresh)),
        crate::mac::spec_handshake_hmac(key_srv, fresh + t) != crate::mac::spec_handshake_hmac(
            key_enc,
            fresh + t,
        ),
    ensures
        spec_step(HandshakeState::AwaitClientHello, mode, ticket, key_srv, rec) == (StepOutcome {
            state: HandshakeState::Passthrough,
            mode,
            ticket,
            event: Ok(ClassifierEvent::Passthrough),
        }),
{
    crate::mac::lemma_handshake_hmac_len(key_enc, fresh + t);
    assert(spec_encode_client_auth(t, key_enc, fresh).len() == 32);
    lemma_client_auth_wrong_key(t, key_enc, key_srv, fresh);
}

/// Law: `Established` and `Passthrough` are terminal. No record moves a
/// connection out of either state; classification only reports the state
/// itself, so a passthrough connection is relayed without further
/// interpretation and an established one is left to the record framer.
pub proof fn lemma_terminal_states(
    mode: Option<KeyExchangeMode>,
    ticket: Option<Seq<u8>>,
    key: Seq<u8>,
    rec: Seq<u8>,
)
    ensures
        spec_step(HandshakeState::Established, mode, ticket, key, rec) == (StepOutcome {
            state: HandshakeState::Established,
            mode,
            ticket,
            event: Ok(ClassifierEvent::Established),
        }),
        spec_step(HandshakeState::Passthrough, mode, ticket, key, rec) == (StepOutcome {
            state: HandshakeState::Passthrough,
            mode,
            ticket,
            event: Ok(ClassifierEvent::Passthrough),
        }),
{
}

/// One connection's classifier: its current state, the shared key the
/// codec authenticates against, and what the handshake has established
/// so far. Each connection owns its own instance; nothing is shared.
pub struct Classifier {
    pub state: HandshakeState,
    pub auth_key: Vec<u8>,
    pub mode: Option<KeyExchangeMode>,
    pub ticket: Option<Vec<u8>>,
}

impl Classifier {
    /// The stored ticket as a byte sequence.
    pub open spec fn ticket_view(self) -> Option<Seq<u8>> {
        match self.ticket {
            Option::Some(t) => Some(t@),
            Option::None => None,
        }
    }

    /// A fresh classifier awaiting the first ClientHello.
    pub fn new(auth_key: Vec<u8>) -> (c: Classifier)
        ensures
            c.state == HandshakeState::AwaitClientHello,
            c.auth_key == auth_key,
            c.mode is None,
            c.ticket is None,
    {
        Classifier { state: HandshakeState::AwaitClientHello, auth_key, mode: None, ticket: None }
    }

    /// Classifies one raw record and advances the connection exactly as
    /// `spec_step` prescribes.
    pub fn classify(&mut self, rec: &[u8]) -> (r: Result<ClassifierEvent, ProtocolError>)
        ensures
            ({
                let o = spec_step(
                    old(self).state,
                    old(self).mode,
                    old(self).ticket_view(),
                    old(self).auth_key@,
                    rec@,
                );
                &&& final(self).state == o.state
                &&& final(self).mode == o.mode
                &&& final(self).ticket_view() == o.ticket
                &&& final(self).auth_key == old(self).auth_key
                &&& r == o.event
            }),
    {
        match self.state {
            HandshakeState::AwaitClientHello => {
                match extract_session_id(rec) {
                    None => {
                        self.state = HandshakeState::Passthrough;
                        Ok(ClassifierEvent::Passthrough)
                    },
                    Some(sid) => {
                        if sid.len() != 32 {
                            return Err(ProtocolError::MalformedRecord);
                        }
                        match decode_client_auth(sid.as_slice(), self.auth_key.as_slice()) {
                            ClientAuthVerdict::Authenticated(t) => {
                                self.state = HandshakeState::AwaitServerHello;
                                self.ticket = Some(t);
                                Ok(ClassifierEvent::AdvancedTo(HandshakeState::AwaitServerHello))
                            },
                            ClientAuthVerdict::Probe => {
                                self.state = HandshakeState::Passthrough;
                                Ok(ClassifierEvent::Passthrough)
                            },
                            ClientAuthVerdict::Malformed => {
                                proof {
                                    assert(false);
                                }
                                Err(ProtocolError::MalformedRecord)
                            },
                        }
                    },
                }
            },
            HandshakeState::AwaitServerHello => {
                if skippable(rec) {
                    return Ok(ClassifierEvent::NeedMore);
                }
                match parse_server_hello(rec) {
                    None => Err(ProtocolError::MalformedRecord),
                    Some(sh) => {
                        if is_hello_retry(sh.random.as_slice()) {
                            self.state = HandshakeState::AwaitRetryClientHello;
                            Ok(ClassifierEvent::AdvancedTo(HandshakeState::AwaitRetryClientHello))
                        } else if tls13_selected(sh.exts.as_slice()) {
                            match key_share_group(sh.exts.as_slice()) {
                                Some(g) => {
                                    match curve_id_to_index(g as usize) {
                                        Ok(_) => {
                                            self.state = HandshakeState::AwaitKeyExchange;
                                            self.mode = Some(KeyExchangeMode::Modern);
                                            Ok(
                                                ClassifierEvent::AdvancedTo(
                                                    HandshakeState::AwaitKeyExchange,
                                                ),
                                            )
                                        },
                                        Err(_) => {
                                            self.state = HandshakeState::Passthrough;
                                            Ok(ClassifierEvent::Passthrough)
                                        },
                                    }
                                },
                                None => {
                                    self.state = HandshakeState::Passthrough;
                                    Ok(ClassifierEvent::Passthrough)
                                },
                            }
                        } else {
                            match classify_cipher_suite(sh.cipher) {
                                CipherSuiteClass::LegacyGcmFallback => {
                                    self.state = HandshakeState::AwaitKeyExchange;
                                    self.mode = Some(KeyExchangeMode::Legacy);
                                    Ok(ClassifierEvent::AdvancedTo(HandshakeState::AwaitKeyExchange))
                                },
                                CipherSuiteClass::Unrecognized => {
                                    self.state = HandshakeState::Passthrough;
                                    Ok(ClassifierEvent::Passthrough)
                                },
                            }
                        }
                    },
                }
            },
            HandshakeState::AwaitRetryClientHello => {
                if skippable(rec) {
                    return Ok(ClassifierEvent::NeedMore);
                }
                match extract_session_id(rec) {
                    Some(_) => {
                        self.state = HandshakeState::AwaitServerHello;
                        Ok(ClassifierEvent::AdvancedTo(HandshakeState::AwaitServerHello))
                    },
                    None => Err(ProtocolError::MalformedRecord),
                }
            },
            HandshakeState::AwaitKeyExchange => {
                if skippable(rec) {
                    return Ok(ClassifierEvent::NeedMore);
                }
                if !crate::records::record_wf(rec) {
                    return Err(ProtocolError::MalformedRecord);
                }
                match self.mode {
                    Some(KeyExchangeMode::Legacy) => {
                        if rec[0] == 0x16 && rec.len() >= 6 && (rec[5] == 0x10 || rec[5] == 0x0c) {
                            self.state = HandshakeState::Established;
                            Ok(ClassifierEvent::Established)
                        } else if rec[0] == 0x16 {
                            Ok(ClassifierEvent::NeedMore)
                        } else {
                            Err(ProtocolError::MalformedRecord)
                        }
                    },
                    Some(KeyExchangeMode::Modern) => {
                        if rec[0] == 0x17 {
                            self.state = HandshakeState::Established;
                            Ok(ClassifierEvent::Established)
                        } else {
                            Ok(ClassifierEvent::NeedMore)
                        }
                    },
                    None => Err(ProtocolError::MalformedRecord),
                }
            },
            HandshakeState::Established => Ok(ClassifierEvent::Established),
            HandshakeState::Passthrough => Ok(ClassifierEvent::Passthrough),
        }
    }
}

} // verus!
