//! Record framer: the fixed-overhead authenticated, masked
//! application-data records of the established tunnel.
//!
//! A record is `tag(8) | masked length(4) | payload`, 12 bytes of
//! overhead whatever the payload, so record-size statistics match
//! genuine encrypted TLS traffic. The 4-byte mask is derived from the
//! mask key and the record's sequence number and xored over the length
//! field; the 8-byte tag authenticates `mask | masked length | payload`
//! under the direction's tag key. Decoding verifies the tag first and
//! short-circuits on mismatch, so a forged record yields one bit of
//! information and never decoded content.

use vstd::prelude::*;
use vstd::bytes::{
    spec_u32_from_le_bytes, spec_u32_to_le_bytes, u32_from_le_bytes, u32_to_le_bytes,
};
use crate::errors::ProtocolError;
use crate::mac::{
    appdata_tag, ct_eq, derive_mask, lemma_appdata_tag_len, lemma_xor_involutive, push_bytes,
    spec_appdata_tag, spec_mask, xor_bytes, xor_into,
};

verus! {

/// The encoded record for `payload` at sequence number `seq_no`:
/// 8-byte tag, 4-byte masked length, payload.
pub open spec fn spec_encode_record(
    payload: Seq<u8>,
    mask_key: Seq<u8>,
    tag_key: Seq<u8>,
    seq_no: u64,
) -> Seq<u8> {
    let mask = spec_mask(mask_key, seq_no);
    let masked_len = xor_bytes(spec_u32_to_le_bytes(payload.len() as u32), mask);
    spec_appdata_tag(tag_key, mask + masked_len + payload) + masked_len + payload
}

/// What decoding `bytes` at sequence number `seq_no` yields: the payload,
/// or `MalformedRecord` for a truncated or over-long record or a length
/// field inconsistent with the record, or `AuthFailure` when the tag does
/// not verify. The tag is checked before the length is unmasked.
pub open spec fn spec_decode_record(
    bytes: Seq<u8>,
    mask_key: Seq<u8>,
    tag_key: Seq<u8>,
    seq_no: u64,
) -> Result<Seq<u8>, ProtocolError> {
    if bytes.len() < 12 {
        Err(ProtocolError::MalformedRecord)
    } else {
        let mask = spec_mask(mask_key, seq_no);
        let masked_len = bytes.subrange(8, 12);
        let payload = bytes.subrange(12, bytes.len() as int);
        if bytes.subrange(0, 8) != spec_appdata_tag(tag_key, mask + masked_len + payload) {
            Err(ProtocolError::AuthFailure)
        } else if bytes.len() > 0x3000 || spec_u32_from_le_bytes(xor_bytes(masked_len, mask))
            != bytes.len() - 12 {
            Err(ProtocolError::MalformedRecord)
        } else {
            Ok(payload)
        }
    }
}

/// Builds the record carrying `payload` at sequence number `seq_no`.
pub fn encode_record(payload: &[u8], mask_key: &[u8], tag_key: &[u8], seq_no: u64) -> (rec: Vec<
    u8,
>)
    requires
        payload@.len() <= 0x3000 - 12,
    ensures
        rec@ == spec_encode_record(payload@, mask_key@, tag_key@, seq_no),
        rec@.len() == payload@.len() + 12,
{
    let mask = derive_mask(mask_key, seq_no);
    let len_bytes = u32_to_le_bytes(payload.len() as u32);
    let masked_len = xor_into(len_bytes.as_slice(), mask.as_slice());
    let mut mac_input: Vec<u8> = Vec::new();
    push_bytes(&mut mac_input, mask.as_slice());
    push_bytes(&mut mac_input, masked_len.as_slice());
    push_bytes(&mut mac_input, payload);
    let tag = appdata_tag(tag_key, mac_input.as_slice());
    let mut rec: Vec<u8> = Vec::new();
    push_bytes(&mut rec, tag.as_slice());
    push_bytes(&mut rec, masked_len.as_slice());
    push_bytes(&mut rec, payload);
    proof {
        assert(mac_input@ =~= spec_mask(mask_key@, seq_no) + xor_bytes(
            spec_u32_to_le_bytes(payload@.len() as u32),
            spec_mask(mask_key@, seq_no),
        ) + payload@);
        assert(rec@ =~= spec_encode_record(payload@, mask_key@, tag_key@, seq_no));
    }
    rec
}

/// Parses and verifies one record at sequence number `seq_no`. The tag
/// comparison is constant-time and happens before anything is unmasked.
pub fn decode_record(bytes: &[u8], mask_key: &[u8], tag_key: &[u8], seq_no: u64) -> (r: Result<
    Vec<u8>,
    ProtocolError,
>)
    ensures
        match r {
            Ok(v) => spec_decode_record(bytes@, mask_key@, tag_key@, seq_no) == Ok::<
                Seq<u8>,
                ProtocolError,
            >(v@),
            Err(e) => spec_decode_record(bytes@, mask_key@, tag_key@, seq_no) == Err::<
                Seq<u8>,
                ProtocolError,
            >(e),
        },
{
    if bytes.len() < 12 {
        return Err(ProtocolError::MalformedRecord);
    }
    let mask = derive_mask(mask_key, seq_no);
    let masked_len = vstd::slice::slice_subrange(bytes, 8, 12);
    let payload_slice = vstd::slice::slice_subrange(bytes, 12, bytes.len());
    let mut mac_input: Vec<u8> = Vec::new();
    push_bytes(&mut mac_input, mask.as_slice());
    push_bytes(&mut mac_input, masked_len);
    push_bytes(&mut mac_input, payload_slice);
    proof {
        assert(mac_input@ =~= spec_mask(mask_key@, seq_no) + bytes@.subrange(8, 12)
            + bytes@.subrange(12, bytes@.len() as int));
    }
    let expected = appdata_tag(tag_key, mac_input.as_slice());
    let tag = vstd::slice::slice_subrange(bytes, 0, 8);
    if !ct_eq(tag, expected.as_slice()) {
        return Err(ProtocolError::AuthFailure);
    }
    if bytes.len() > 0x3000 {
        return Err(ProtocolError::MalformedRecord);
    }
    let unmasked = xor_into(masked_len, mask.as_slice());
    let declared = u32_from_le_bytes(unmasked.as_slice());
    if declared as usize != bytes.len() - 12 {
        return Err(ProtocolError::MalformedRecord);
    }
    let mut payload: Vec<u8> = Vec::new();
    push_bytes(&mut payload, payload_slice);
    proof {
        assert(payload@ =~= bytes@.subrange(12, bytes@.len() as int));
    }
    Ok(payload)
}

/// One direction of an established tunnel: the direction's two derived
/// keys and the sequence number of the next record. The two directions
/// of a connection hold independently derived keys, so a record replayed
/// in the opposite direction fails tag verification, not merely a
/// sequence comparison.
pub struct DirectionState {
    pub mask_key: Vec<u8>,
    pub tag_key: Vec<u8>,
    pub next_seq: u64,
}

impl DirectionState {
    /// A fresh direction starting at sequence number zero.
    pub fn new(mask_key: Vec<u8>, tag_key: Vec<u8>) -> (s: DirectionState)
        ensures
            s.mask_key == mask_key,
            s.tag_key == tag_key,
            s.next_seq == 0,
    {
        DirectionState { mask_key, tag_key, next_seq: 0 }
    }

    /// Frames `payload` at this direction's next sequence number and
    /// advances it. A payload over the fixed bound is `MalformedRecord`
    /// and leaves the direction unchanged.
    pub fn encode_app_data(&mut self, payload: &[u8]) -> (r: Result<Vec<u8>, ProtocolError>)
        requires
            old(self).next_seq < u64::MAX,
        ensures
            final(self).mask_key == old(self).mask_key,
            final(self).tag_key == old(self).tag_key,
            payload@.len() > 0x3000 - 12 ==> r == Err::<Vec<u8>, ProtocolError>(
                ProtocolError::MalformedRecord,
            ) && final(self).next_seq == old(self).next_seq,
            payload@.len() <= 0x3000 - 12 ==> match r {
                Ok(v) => v@ == spec_encode_record(
                    payload@,
                    old(self).mask_key@,
                    old(self).tag_key@,
                    old(self).next_seq,
                ) && final(self).next_seq == old(self).next_seq + 1,
                Err(_) => false,
            },
    {
        if payload.len() > 0x3000 - 12 {
            return Err(ProtocolError::MalformedRecord);
        }
        let rec = encode_record(payload, self.mask_key.as_slice(), self.tag_key.as_slice(), self.next_seq);
        self.next_seq = self.next_seq + 1;
        Ok(rec)
    }

    /// Verifies and unframes one record at this direction's next
    /// sequence number. The number advances only on success, so one
    /// forged record does not desynchronize the tunnel.
    pub fn decode_app_data(&mut self, bytes: &[u8]) -> (r: Result<Vec<u8>, ProtocolError>)
        requires
            old(self).next_seq < u64::MAX,
        ensures
            final(self).mask_key == old(self).mask_key,
            final(self).tag_key == old(self).tag_key,
            match r {
                Ok(v) => spec_decode_record(
                    bytes@,
                    old(self).mask_key@,
                    old(self).tag_key@,
                    old(self).next_seq,
                ) == Ok::<Seq<u8>, ProtocolError>(v@) && final(self).next_seq == old(
                    self,
                ).next_seq + 1,
                Err(e) => spec_decode_record(
                    bytes@,
                    old(self).mask_key@,
                    old(self).tag_key@,
                    old(self).next_seq,
                ) == Err::<Seq<u8>, ProtocolError>(e) && final(self).next_seq == old(
                    self,
                ).next_seq,
            },
    {
        let r = decode_record(bytes, self.mask_key.as_slice(), self.tag_key.as_slice(), self.next_seq);
        match r {
            Ok(v) => {
                self.next_seq = self.next_seq + 1;
                Ok(v)
            },
            Err(e) => Err(e),
        }
    }

    /// Verifies a record that carries its own sequence number, refusing
    /// regression: a number below the next expected one is
    /// `ReplayDetected`, a hard failure. On success the direction skips
    /// forward past the accepted number.
    pub fn decode_app_data_at(&mut self, bytes: &[u8], seq_no: u64) -> (r: Result<
        Vec<u8>,
        ProtocolError,
    >)
        requires
            seq_no < u64::MAX,
        ensures
            final(self).mask_key == old(self).mask_key,
            final(self).tag_key == old(self).tag_key,
            seq_no < old(self).next_seq ==> r == Err::<Vec<u8>, ProtocolError>(
                ProtocolError::ReplayDetected,
            ) && final(self).next_seq == old(self).next_seq,
            seq_no >= old(self).next_seq ==> match r {
                Ok(v) => spec_decode_record(
                    bytes@,
                    old(self).mask_key@,
                    old(self).tag_key@,
                    seq_no,
                ) == Ok::<Seq<u8>, ProtocolError>(v@) && final(self).next_seq == seq_no + 1,
                Err(e) => spec_decode_record(
                    bytes@,
                    old(self).mask_key@,
                    old(self).tag_key@,
                    seq_no,
                ) == Err::<Seq<u8>, ProtocolError>(e) && final(self).next_seq == old(
                    self,
                ).next_seq,
            },
    {
        if seq_no < self.next_seq {
            return Err(ProtocolError::ReplayDetected);
        }
        let r = decode_record(bytes, self.mask_key.as_slice(), self.tag_key.as_slice(), seq_no);
        match r {
            Ok(v) => {
                self.next_seq = seq_no + 1;
                Ok(v)
            },
            Err(e) => Err(e),
        }
    }
}

/// Law: decoding an encoded record at the same keys and sequence number
/// returns exactly the encoded payload, for every payload that fits.
pub proof fn lemma_record_round_trip(
    payload: Seq<u8>,
    mask_key: Seq<u8>,
    tag_key: Seq<u8>,
    seq_no: u64,
)
    requires
        payload.len() <= 0x3000 - 12,
    ensures
        spec_decode_record(
            spec_encode_record(payload, mask_key, tag_key, seq_no),
            mask_key,
            tag_key,
            seq_no,
        ) == Ok::<Seq<u8>, ProtocolError>(payload),
{
    vstd::bytes::lemma_auto_spec_u32_to_from_le_bytes();
    vstd::bytes::lemma_auto_spec_u64_to_from_le_bytes();
    let mask = spec_mask(mask_key, seq_no);
    let len_bytes = spec_u32_to_le_bytes(payload.len() as u32);
    let masked_len = xor_bytes(len_bytes, mask);
    let tag = spec_appdata_tag(tag_key, mask + masked_len + payload);
    lemma_appdata_tag_len(tag_key, mask + masked_len + payload);
    let enc = spec_encode_record(payload, mask_key, tag_key, seq_no);
    assert(enc.len() == payload.len() + 12);
    assert(enc.subrange(0, 8) =~= tag);
    assert(enc.subrange(8, 12) =~= masked_len);
    assert(enc.subrange(12, enc.len() as int) =~= payload);
    lemma_xor_involutive(len_bytes, mask);
    assert(spec_u32_from_le_bytes(xor_bytes(masked_len, mask)) == payload.len() as u32);
}

/// Law: any change confined to the 8-byte tag of an encoded record,
/// however many bytes it touches, makes decoding fail with
/// `AuthFailure`, since the rest of the record still carries the input
/// the stored tag was computed over.
pub proof fn lemma_tag_tamper_detected(
    payload: Seq<u8>,
    mask_key: Seq<u8>,
    tag_key: Seq<u8>,
    seq_no: u64,
    tampered: Seq<u8>,
)
    requires
        payload.len() <= 0x3000 - 12,
        tampered.len() == spec_encode_record(payload, mask_key, tag_key, seq_no).len(),
        tampered.subrange(8, tampered.len() as int) == spec_encode_record(
            payload,
            mask_key,
            tag_key,
            seq_no,
        ).subrange(8, tampered.len() as int),
        tampered.subrange(0, 8) != spec_encode_record(
            payload,
            mask_key,
            tag_key,
            seq_no,
        ).subrange(0, 8),
    ensures
        spec_decode_record(tampered, mask_key, tag_key, seq_no) == Err::<Seq<u8>, ProtocolError>(
            ProtocolError::AuthFailure,
        ),
{
    vstd::bytes::lemma_auto_spec_u32_to_from_le_bytes();
    let mask = spec_mask(mask_key, seq_no);
    let len_bytes = spec_u32_to_le_bytes(payload.len() as u32);
    let masked_len = xor_bytes(len_bytes, mask);
    let tag = spec_appdata_tag(tag_key, mask + masked_len + payload);
    lemma_appdata_tag_len(tag_key, mask + masked_len + payload);
    let enc = spec_encode_record(payload, mask_key, tag_key, seq_no);
    assert(enc.len() == payload.len() + 12);
    assert(enc.subrange(0, 8) =~= tag);
    assert(enc.subrange(8, 12) =~= masked_len);
    assert(enc.subrange(12, enc.len() as int) =~= payload);
    let n = tampered.len() as int;
    assert(tampered.subrange(8, 12) =~= tampered.subrange(8, n).subrange(0, 4));
    assert(enc.subrange(8, 12) =~= enc.subrange(8, n).subrange(0, 4));
    assert(tampered.subrange(12, n) =~= tampered.subrange(8, n).subrange(4, n - 8));
    assert(enc.subrange(12, n) =~= enc.subrange(8, n).subrange(4, n - 8));
    assert(tampered.subrange(8, 12) == masked_len);
    assert(tampered.subrange(12, n) == payload);
    assert(tampered.subrange(0, 8) != spec_appdata_tag(
        tag_key,
        mask + tampered.subrange(8, 12) + tampered.subrange(12, n),
    ));
}

/// Law: changing any single byte — so in particular flipping any single
/// bit — within an encoded record's 12-byte header makes decoding fail
/// with `AuthFailure`. In the tag region the stored tag no longer
/// matches; in the masked length region the tag's input changes, and the
/// fold maps single-byte changes to distinct tags.
pub proof fn lemma_header_tamper_detected(
    payload: Seq<u8>,
    mask_key: Seq<u8>,
    tag_key: Seq<u8>,
    seq_no: u64,
    tampered: Seq<u8>,
    i: int,
)
    requires
        payload.len() <= 0x3000 - 12,
        tampered.len() == payload.len() + 12,
        0 <= i < 12,
        tampered[i] != spec_encode_record(payload, mask_key, tag_key, seq_no)[i],
        forall|j: int|
            0 <= j < tampered.len() && j != i ==> tampered[j] == spec_encode_record(
                payload,
                mask_key,
                tag_key,
                seq_no,
            )[j],
    ensures
        spec_decode_record(tampered, mask_key, tag_key, seq_no) == Err::<Seq<u8>, ProtocolError>(
            ProtocolError::AuthFailure,
        ),
{
    vstd::bytes::lemma_auto_spec_u32_to_from_le_bytes();
    vstd::bytes::lemma_auto_spec_u64_to_from_le_bytes();
    let mask = spec_mask(mask_key, seq_no);
    assert(mask.len() == 4);
    let len_bytes = spec_u32_to_le_bytes(payload.len() as u32);
    let masked_len = xor_bytes(len_bytes, mask);
    let tag = spec_appdata_tag(tag_key, mask + masked_len + payload);
    lemma_appdata_tag_len(tag_key, mask + masked_len + payload);
    let enc = spec_encode_record(payload, mask_key, tag_key, seq_no);
    assert(enc.len() == payload.len() + 12);
    assert(enc.subrange(0, 8) =~= tag);
    assert(enc.subrange(8, 12) =~= masked_len);
    assert(enc.subrange(12, enc.len() as int) =~= payload);
    let n = tampered.len() as int;
    let masked_seen = tampered.subrange(8, 12);
    let payload_seen = tampered.subrange(12, n);
    if i < 8 {
        assert(masked_seen =~= masked_len);
        assert(payload_seen =~= payload);
        assert(tampered.subrange(0, 8)[i] != tag[i]);
        assert(tampered.subrange(0, 8) != spec_appdata_tag(
            tag_key,
            mask + masked_seen + payload_seen,
        ));
    } else {
        assert(tampered.subrange(0, 8) =~= tag);
        assert(payload_seen =~= payload);
        let d1 = mask + masked_len + payload;
        let d2 = mask + masked_seen + payload_seen;
        assert(d1.len() == d2.len());
        assert(d2[i - 4] == tampered[i] && d1[i - 4] == enc[i]);
        assert forall|j: int| 0 <= j < d1.len() && j != i - 4 implies d1[j] == d2[j] by {
            if j < 4 {
                assert(d1[j] == mask[j] && d2[j] == mask[j]);
            } else if j < 8 {
                assert(d1[j] == masked_len[j - 4] && d2[j] == masked_seen[j - 4]);
                assert(masked_len[j - 4] == enc[j + 4] && masked_seen[j - 4] == tampered[j + 4]);
            } else {
                assert(d1[j] == payload[j - 8] && d2[j] == payload_seen[j - 8]);
            }
        }
        crate::mac::lemma_appdata_tag_single_byte(tag_key, d1, d2, i - 4);
        assert(tampered.subrange(0, 8) != spec_appdata_tag(tag_key, d2));
    }
}

} // verus!
