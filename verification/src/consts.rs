//! Protocol constants and fixed byte layouts.
//!
//! Everything here is immutable wire-format data: record and handshake
//! type tags, extension identifiers, the fixed offsets of the
//! authenticated application-data record, the two session-identifier
//! layouts, and the HelloRetryRequest marker.

use vstd::prelude::*;

verus! {

/// A session identifier is only ever authenticated at exactly this length.
pub const REQUIRED_SESSION_ID_LEN: usize = 32;

/// Length of the handshake authenticator embedded in a session identifier.
pub const RESTLS_HANDSHAKE_HMAC_LEN: usize = 16;

/// Length of the truncated authenticator heading an application-data record.
pub const RESTLS_APPDATA_HMAC_LEN: usize = 8;

/// Offset of the masked length field inside an application-data record.
pub const RESTLS_APPDATA_LEN_OFFSET: usize = 8;

/// Length of the mask combined with the length field and payload.
pub const RESTLS_MASK_LEN: usize = 4;

/// Offset of the payload inside an application-data record; also the
/// record's fixed overhead.
pub const RESTLS_APPDATA_OFFSET: usize = 12;

/// Length of the outer TLS record header: type, version, length.
pub const TLS_RECORD_HEADER_LEN: usize = 5;

pub const RECORD_HANDSHAKE: u8 = 0x16;

pub const RECORD_APPLICATION_DATA: u8 = 0x17;

pub const RECORD_CCS: u8 = 0x14;

pub const RECORD_ALERT: u8 = 0x15;

pub const EXTENSION_SESSION_TICKET: u16 = 0x0023;

pub const EXTENSION_SUPPORTED_VERSIONS: u16 = 0x002b;

pub const EXTENSION_PRE_SHARED_KEY: u16 = 0x0029;

pub const EXTENSION_KEY_SHARE: u16 = 0x0033;

pub const HANDSHAKE_TYPE_CLIENT_HELLO: u8 = 0x01;

pub const HANDSHAKE_TYPE_SERVER_HELLO: u8 = 0x02;

pub const HANDSHAKE_TYPE_CLIENT_KEY_EXCHANGE: u8 = 0x10;

pub const HANDSHAKE_TYPE_SERVER_KEY_EXCHANGE: u8 = 0x0c;

/// Upper bound on any buffered record, outer header included.
pub const BUF_SIZE: usize = 0x3000;

/// Largest payload an application-data record can carry.
pub const MAX_APPDATA_PAYLOAD: usize = 0x3000 - 12;

/// Offset of the ticket region in the four-region layout.
pub const CLIENT_AUTH_SESSION_TICKET_OFFSET: usize = 24;

/// Length of the ticket region in the four-region layout.
pub const CLIENT_AUTH_SESSION_TICKET_LEN: usize = 32 - 24;

pub const CURVE_P256: usize = 23;

pub const CURVE_P384: usize = 24;

pub const X25519: usize = 29;

/// A layout partitions the 32 session-identifier bytes into ordered,
/// non-overlapping regions: boundaries strictly increase from 0 to 32.
pub open spec fn layout_wf(bounds: Seq<int>) -> bool {
    &&& bounds.len() >= 2
    &&& bounds[0] == 0
    &&& bounds[bounds.len() - 1] == 32
    &&& forall|i: int| 0 <= i < bounds.len() - 1 ==> #[trigger] bounds[i] < bounds[i + 1]
}

/// The three-region layout read when no authenticated ticket is present.
pub open spec fn probe_layout() -> Seq<int> {
    seq![0, 11, 22, 32]
}

/// The four-region layout whose last region carries the ticket.
pub open spec fn ticket_layout() -> Seq<int> {
    seq![0, 8, 16, 24, 32]
}

/// Both fixed layouts are well-formed partitions of the 32 bytes.
pub proof fn lemma_layouts_wf()
    ensures
        layout_wf(probe_layout()),
        layout_wf(ticket_layout()),
{
}

/// The fixed ServerHello random value that signals a HelloRetryRequest.
pub open spec fn hello_retry_random() -> Seq<u8> {
    seq![
        0xCF, 0x21, 0xAD, 0x74, 0xE5, 0x9A, 0x61, 0x11,
        0xBE, 0x1D, 0x8C, 0x02, 0x1E, 0x65, 0xB8, 0x91,
        0xC2, 0xA2, 0x11, 0x16, 0x7A, 0xBB, 0x8C, 0x5E,
        0x07, 0x9E, 0x09, 0xE2, 0xC8, 0xA8, 0x33, 0x9C,
    ]
}

/// The HelloRetryRequest marker as runnable bytes.
pub fn hello_retry_random_bytes() -> (v: Vec<u8>)
    ensures
        v@ == hello_retry_random(),
{
    let mut v: Vec<u8> = Vec::new();
    v.push(0xCF);
    v.push(0x21);
    v.push(0xAD);
    v.push(0x74);
    v.push(0xE5);
    v.push(0x9A);
    v.push(0x61);
    v.push(0x11);
    v.push(0xBE);
    v.push(0x1D);
    v.push(0x8C);
    v.push(0x02);
    v.push(0x1E);
    v.push(0x65);
    v.push(0xB8);
    v.push(0x91);
    v.push(0xC2);
    v.push(0xA2);
    v.push(0x11);
    v.push(0x16);
    v.push(0x7A);
    v.push(0xBB);
    v.push(0x8C);
    v.push(0x5E);
    v.push(0x07);
    v.push(0x9E);
    v.push(0x09);
    v.push(0xE2);
    v.push(0xC8);
    v.push(0xA8);
    v.push(0x33);
    v.push(0x9C);
    proof {
        assert(v@ =~= hello_retry_random());
    }
    v
}

/// Direction label mixed into the client-to-server keys: "client-to-server".
pub open spec fn to_server_magic() -> Seq<u8> {
    seq![
        0x63, 0x6c, 0x69, 0x65, 0x6e, 0x74, 0x2d, 0x74,
        0x6f, 0x2d, 0x73, 0x65, 0x72, 0x76, 0x65, 0x72,
    ]
}

/// Direction label mixed into the server-to-client keys: "server-to-client".
pub open spec fn to_client_magic() -> Seq<u8> {
    seq![
        0x73, 0x65, 0x72, 0x76, 0x65, 0x72, 0x2d, 0x74,
        0x6f, 0x2d, 0x63, 0x6c, 0x69, 0x65, 0x6e, 0x74,
    ]
}

/// The "client-to-server" direction label as runnable bytes.
pub fn to_server_magic_bytes() -> (v: Vec<u8>)
    ensures
        v@ == to_server_magic(),
{
    let mut v: Vec<u8> = Vec::new();
    v.push(0x63);
    v.push(0x6c);
    v.push(0x69);
    v.push(0x65);
    v.push(0x6e);
    v.push(0x74);
    v.push(0x2d);
    v.push(0x74);
    v.push(0x6f);
    v.push(0x2d);
    v.push(0x73);
    v.push(0x65);
    v.push(0x72);
    v.push(0x76);
    v.push(0x65);
    v.push(0x72);
    proof {
        assert(v@ =~= to_server_magic());
    }
    v
}

/// The "server-to-client" direction label as runnable bytes.
pub fn to_client_magic_bytes() -> (v: Vec<u8>)
    ensures
        v@ == to_client_magic(),
{
    let mut v: Vec<u8> = Vec::new();
    v.push(0x73);
    v.push(0x65);
    v.push(0x72);
    v.push(0x76);
    v.push(0x65);
    v.push(0x72);
    v.push(0x2d);
    v.push(0x74);
    v.push(0x6f);
    v.push(0x2d);
    v.push(0x63);
    v.push(0x6c);
    v.push(0x69);
    v.push(0x65);
    v.push(0x6e);
    v.push(0x74);
    proof {
        assert(v@ =~= to_client_magic());
    }
    v
}

} // verus!
