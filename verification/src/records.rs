//! Parsing of outer TLS records and of the handshake messages the
//! classifier inspects: ClientHello session identifiers, ServerHello
//! random, cipher suite and extensions, and the HelloRetryRequest marker.
//!
//! Each parser has a total specification over the raw bytes, so a caller
//! knows exactly which byte strings parse and what they parse to; the
//! outer record header is only ever read to find boundaries, never
//! altered.

use vstd::prelude::*;
use crate::consts::{hello_retry_random, hello_retry_random_bytes};
use crate::mac::{ct_eq, push_bytes};

verus! {

/// The 16-bit big-endian integer at offset `i`.
pub open spec fn be16(s: Seq<u8>, i: int) -> int
    recommends
        0 <= i,
        i + 2 <= s.len(),
{
    s[i] * 256 + s[i + 1]
}

/// The 24-bit big-endian integer at offset `i`.
pub open spec fn be24(s: Seq<u8>, i: int) -> int
    recommends
        0 <= i,
        i + 3 <= s.len(),
{
    s[i] * 65536 + s[i + 1] * 256 + s[i + 2]
}

/// Reads the 16-bit big-endian integer at offset `i`.
pub fn read_be16(b: &[u8], i: usize) -> (r: u16)
    requires
        i + 2 <= b@.len(),
    ensures
        r as int == be16(b@, i as int),
{
    (b[i] as u16) * 256 + (b[i + 1] as u16)
}

/// Reads the 24-bit big-endian integer at offset `i`.
pub fn read_be24(b: &[u8], i: usize) -> (r: u32)
    requires
        i + 3 <= b@.len(),
    ensures
        r as int == be24(b@, i as int),
{
    (b[i] as u32) * 65536 + (b[i + 1] as u32) * 256 + (b[i + 2] as u32)
}

/// A well-formed outer record: a known type tag, a declared length that
/// matches the body, and the whole record within the buffer bound.
pub open spec fn spec_record_wf(s: Seq<u8>) -> bool {
    &&& s.len() >= 5
    &&& s.len() <= 0x3000
    &&& be16(s, 3) == s.len() - 5
    &&& (s[0] == 0x14 || s[0] == 0x15 || s[0] == 0x16 || s[0] == 0x17)
}

/// Checks the outer record header against the buffer it arrived in.
pub fn record_wf(rec: &[u8]) -> (r: bool)
    ensures
        r == spec_record_wf(rec@),
{
    if rec.len() < 5 || rec.len() > 0x3000 {
        return false;
    }
    let l = read_be16(rec, 3);
    if l as usize != rec.len() - 5 {
        return false;
    }
    let t = rec[0];
    t == 0x14 || t == 0x15 || t == 0x16 || t == 0x17
}

/// A record the classifier passes over without a transition:
/// change-cipher-spec or alert.
pub open spec fn spec_skippable(s: Seq<u8>) -> bool {
    spec_record_wf(s) && (s[0] == 0x14 || s[0] == 0x15)
}

/// Whether `rec` is a change-cipher-spec or alert record.
pub fn skippable(rec: &[u8]) -> (r: bool)
    ensures
        r == spec_skippable(rec@),
{
    if !record_wf(rec) {
        return false;
    }
    rec[0] == 0x14 || rec[0] == 0x15
}

/// The session identifier of a ClientHello record, when the record is a
/// structurally sound handshake record of that type; `None` otherwise.
pub open spec fn spec_client_hello_sid(s: Seq<u8>) -> Option<Seq<u8>> {
    if spec_record_wf(s) && s.len() >= 44 && s[0] == 0x16 && s[5] == 0x01 && be24(s, 6) == s.len()
        - 9 && 44 + s[43] <= s.len() {
        Some(s.subrange(44, 44 + s[43]))
    } else {
        None
    }
}

/// Extracts the session identifier from a ClientHello record.
pub fn extract_session_id(rec: &[u8]) -> (r: Option<Vec<u8>>)
    ensures
        match r {
            Some(v) => spec_client_hello_sid(rec@) == Some(v@),
            None => spec_client_hello_sid(rec@) is None,
        },
{
    if !record_wf(rec) {
        return None;
    }
    if rec.len() < 44 {
        return None;
    }
    if rec[0] != 0x16 || rec[5] != 0x01 {
        return None;
    }
    let hl = read_be24(rec, 6);
    if hl as usize != rec.len() - 9 {
        return None;
    }
    let sl = rec[43] as usize;
    if sl > rec.len() - 44 {
        return None;
    }
    let sid = vstd::slice::slice_subrange(rec, 44, 44 + sl);
    let mut v: Vec<u8> = Vec::new();
    push_bytes(&mut v, sid);
    proof {
        assert(v@ =~= rec@.subrange(44, 44 + rec@[43]));
    }
    Some(v)
}

/// The extension list of a ClientHello record, when the cipher-suite,
/// compression and extension lengths are all consistent with the
/// record's extent; `None` otherwise. The session-ticket,
/// supported-versions, pre-shared-key and key-share extensions the
/// handshake consults are then found with `ext_lookup`.
pub open spec fn spec_ch_exts(s: Seq<u8>) -> Option<Seq<u8>> {
    if spec_client_hello_sid(s) is None {
        None
    } else {
        let p0 = 44 + s[43];
        if p0 + 2 > s.len() {
            None
        } else {
            let p1 = p0 + 2 + be16(s, p0);
            if p1 + 1 > s.len() {
                None
            } else {
                let p2 = p1 + 1 + s[p1];
                if p2 + 2 > s.len() {
                    None
                } else if p2 + 2 + be16(s, p2) == s.len() {
                    Some(s.subrange(p2 + 2, s.len() as int))
                } else {
                    None
                }
            }
        }
    }
}

/// Extracts the extension list of a ClientHello record.
pub fn client_hello_extensions(rec: &[u8]) -> (r: Option<Vec<u8>>)
    ensures
        match r {
            Some(v) => spec_ch_exts(rec@) == Some(v@),
            None => spec_ch_exts(rec@) is None,
        },
{
    match extract_session_id(rec) {
        None => None,
        Some(_) => {
            let p0 = 44 + (rec[43] as usize);
            if p0 + 2 > rec.len() {
                return None;
            }
            let p1 = p0 + 2 + (read_be16(rec, p0) as usize);
            if p1 + 1 > rec.len() {
                return None;
            }
            let p2 = p1 + 1 + (rec[p1] as usize);
            if p2 + 2 > rec.len() {
                return None;
            }
            if p2 + 2 + (read_be16(rec, p2) as usize) != rec.len() {
                return None;
            }
            let mut v: Vec<u8> = Vec::new();
            push_bytes(&mut v, vstd::slice::slice_subrange(rec, p2 + 2, rec.len()));
            proof {
                assert(v@ =~= rec@.subrange(p2 + 2, rec@.len() as int));
            }
            Some(v)
        },
    }
}

/// The body of the first extension of type `ext_type` in a TLS extension
/// list, or `None` when the type is absent or the list stops parsing.
pub open spec fn spec_ext_lookup(s: Seq<u8>, ext_type: int) -> Option<Seq<u8>>
    decreases s.len(),
{
    if s.len() < 4 {
        None
    } else {
        let l = be16(s, 2);
        if 4 + l > s.len() {
            None
        } else if be16(s, 0) == ext_type {
            Some(s.subrange(4, 4 + l))
        } else {
            spec_ext_lookup(s.skip(4 + l), ext_type)
        }
    }
}

/// Finds the first extension of type `ext_type` in an extension list.
pub fn ext_lookup(exts: &[u8], ext_type: u16) -> (r: Option<Vec<u8>>)
    ensures
        match r {
            Some(v) => spec_ext_lookup(exts@, ext_type as int) == Some(v@),
            None => spec_ext_lookup(exts@, ext_type as int) is None,
        },
{
    let mut pos: usize = 0;
    proof {
        assert(exts@.skip(0) =~= exts@);
    }
    while pos < exts.len() && exts.len() - pos >= 4
        invariant
            pos <= exts@.len(),
            spec_ext_lookup(exts@.skip(pos as int), ext_type as int) == spec_ext_lookup(
                exts@,
                ext_type as int,
            ),
        decreases exts@.len() - pos,
    {
        let ghost rest = exts@.skip(pos as int);
        let t = read_be16(exts, pos);
        let l = read_be16(exts, pos + 2) as usize;
        proof {
            assert(rest[0] == exts@[pos as int]);
            assert(rest[1] == exts@[pos + 1]);
            assert(rest[2] == exts@[pos + 2]);
            assert(rest[3] == exts@[pos + 3]);
        }
        if l > exts.len() - pos - 4 {
            return None;
        }
        if t == ext_type {
            let d = vstd::slice::slice_subrange(exts, pos + 4, pos + 4 + l);
            let mut v: Vec<u8> = Vec::new();
            push_bytes(&mut v, d);
            proof {
                assert(v@ =~= rest.subrange(4, 4 + be16(rest, 2)));
            }
            return Some(v);
        }
        pos = pos + 4 + l;
        proof {
            assert(rest.skip(4 + be16(rest, 2)) =~= exts@.skip(pos as int));
        }
    }
    None
}

/// A structurally sound ServerHello record: a handshake record of type
/// ServerHello whose handshake, session-identifier-echo and extension
/// lengths are all consistent with the record's extent.
pub open spec fn spec_sh_wf(s: Seq<u8>) -> bool {
    &&& spec_record_wf(s)
    &&& s.len() >= 44
    &&& s[0] == 0x16
    &&& s[5] == 0x02
    &&& be24(s, 6) == s.len() - 9
    &&& 44 + s[43] + 5 <= s.len()
    &&& be16(s, 44 + s[43] + 3) == s.len() - (44 + s[43] + 5)
}

/// The 32-byte random of a ServerHello record.
pub open spec fn spec_sh_random(s: Seq<u8>) -> Seq<u8> {
    s.subrange(11, 43)
}

/// The negotiated cipher suite of a ServerHello record.
pub open spec fn spec_sh_cipher(s: Seq<u8>) -> int {
    be16(s, 44 + s[43])
}

/// The extension list of a ServerHello record.
pub open spec fn spec_sh_exts(s: Seq<u8>) -> Seq<u8> {
    s.subrange(44 + s[43] + 5, s.len() as int)
}

/// The fields of a ServerHello the classifier consults.
pub struct ServerHelloSummary {
    pub random: Vec<u8>,
    pub cipher: u16,
    pub exts: Vec<u8>,
}

/// Parses a ServerHello record into the fields the classifier consults.
pub fn parse_server_hello(rec: &[u8]) -> (r: Option<ServerHelloSummary>)
    ensures
        match r {
            Some(sh) => spec_sh_wf(rec@) && sh.random@ == spec_sh_random(rec@) && sh.cipher as int
                == spec_sh_cipher(rec@) && sh.exts@ == spec_sh_exts(rec@),
            None => !spec_sh_wf(rec@),
        },
{
    if !record_wf(rec) {
        return None;
    }
    if rec.len() < 44 {
        return None;
    }
    if rec[0] != 0x16 || rec[5] != 0x02 {
        return None;
    }
    let hl = read_be24(rec, 6);
    if hl as usize != rec.len() - 9 {
        return None;
    }
    let sl = rec[43] as usize;
    if sl + 5 > rec.len() - 44 {
        return None;
    }
    let el = read_be16(rec, 44 + sl + 3);
    if el as usize != rec.len() - (44 + sl + 5) {
        return None;
    }
    let cipher = read_be16(rec, 44 + sl);
    let mut random: Vec<u8> = Vec::new();
    push_bytes(&mut random, vstd::slice::slice_subrange(rec, 11, 43));
    let mut exts: Vec<u8> = Vec::new();
    push_bytes(&mut exts, vstd::slice::slice_subrange(rec, 44 + sl + 5, rec.len()));
    proof {
        assert(random@ =~= spec_sh_random(rec@));
        assert(exts@ =~= spec_sh_exts(rec@));
    }
    Some(ServerHelloSummary { random, cipher, exts })
}

/// Whether a ServerHello's extensions select TLS 1.3 through the
/// supported-versions extension.
pub open spec fn spec_tls13_selected(exts: Seq<u8>) -> bool {
    match spec_ext_lookup(exts, 0x002b) {
        Some(d) => d.len() == 2 && be16(d, 0) == 0x0304,
        None => false,
    }
}

/// Checks the supported-versions extension for a TLS 1.3 selection.
pub fn tls13_selected(exts: &[u8]) -> (r: bool)
    ensures
        r == spec_tls13_selected(exts@),
{
    match ext_lookup(exts, 0x002b) {
        Some(d) => {
            if d.len() != 2 {
                return false;
            }
            let v = read_be16(d.as_slice(), 0);
            v == 0x0304
        },
        None => false,
    }
}

/// The key-exchange group named by a ServerHello key-share extension.
pub open spec fn spec_key_share_group(exts: Seq<u8>) -> Option<int> {
    match spec_ext_lookup(exts, 0x0033) {
        Some(d) => if d.len() >= 2 {
            Some(be16(d, 0))
        } else {
            None
        },
        None => None,
    }
}

/// Reads the group from the key-share extension, if one is present.
pub fn key_share_group(exts: &[u8]) -> (r: Option<u16>)
    ensures
        match r {
            Some(g) => spec_key_share_group(exts@) == Some(g as int),
            None => spec_key_share_group(exts@) is None,
        },
{
    match ext_lookup(exts, 0x0033) {
        Some(d) => {
            if d.len() < 2 {
                return None;
            }
            Some(read_be16(d.as_slice(), 0))
        },
        None => None,
    }
}

/// Whether a ServerHello random equals the fixed HelloRetryRequest
/// marker, byte for byte.
pub fn is_hello_retry(random: &[u8]) -> (r: bool)
    ensures
        r <==> random@ == hello_retry_random(),
{
    if random.len() != 32 {
        proof {
            assert(hello_retry_random().len() == 32);
        }
        return false;
    }
    let marker = hello_retry_random_bytes();
    ct_eq(random, marker.as_slice())
}

/// Law: a 32-byte random that differs from the HelloRetryRequest marker
/// in even a single byte classifies as an ordinary ServerHello.
pub proof fn lemma_hello_retry_single_byte(random: Seq<u8>, i: int)
    requires
        random.len() == 32,
        0 <= i < 32,
        random[i] != hello_retry_random()[i],
    ensures
        random != hello_retry_random(),
{
}

} // verus!
