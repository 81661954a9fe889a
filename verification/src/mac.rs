//! Keyed integrity tags, masks, and constant-time comparison.
//!
//! All authenticators of the protocol are truncations of one keyed fold:
//! the state absorbs the key bytes and then the message bytes, one
//! xor-and-multiply step per byte. The fold is fully specified, so every
//! tag is a function of key and data alone and the codec and framer
//! round-trip laws are proved, not assumed.

use vstd::prelude::*;
use vstd::bytes::{spec_u64_from_le_bytes, spec_u64_to_le_bytes, u64_to_le_bytes};

verus! {

/// Multiplier of the fold step; odd, so each step is invertible.
pub const MAC_PRIME: u64 = 0x100000001b3;

/// Initial state for the first half of a handshake authenticator.
pub const SEED_HANDSHAKE_LO: u64 = 0xcbf29ce484222325;

/// Initial state for the second half of a handshake authenticator.
pub const SEED_HANDSHAKE_HI: u64 = 0x84222325cbf29ce4;

/// Initial state for application-data record tags.
pub const SEED_APPDATA: u64 = 0x9ae16a3b2f90404f;

/// Initial state for mask derivation.
pub const SEED_MASK: u64 = 0xc3a5c85c97cb3127;

/// Initial state for direction-key derivation.
pub const SEED_DIRECTION: u64 = 0xb492b66fbe98f273;

/// One absorption step: xor the byte in, multiply by the odd prime,
/// wrapping at 64 bits.
pub open spec fn mac_step(h: u64, b: u8) -> u64 {
    vstd::wrapping::u64_specs::wrapping_mul(h ^ (b as u64), MAC_PRIME)
}

/// State after absorbing a whole byte sequence, front to back.
pub open spec fn mac_fold(h: u64, s: Seq<u8>) -> u64
    decreases s.len(),
{
    if s.len() == 0 {
        h
    } else {
        mac_fold(mac_step(h, s[0]), s.skip(1))
    }
}

/// The 64-bit keyed tag: absorb the key, then the data, from a fixed seed.
pub open spec fn spec_keyed64(key: Seq<u8>, data: Seq<u8>, seed: u64) -> u64 {
    mac_fold(mac_fold(seed, key), data)
}

/// Absorbs `bytes` into state `h0`, one step per byte.
fn absorb(h0: u64, bytes: &[u8]) -> (h: u64)
    ensures
        h == mac_fold(h0, bytes@),
{
    let mut h: u64 = h0;
    let mut i: usize = 0;
    proof {
        assert(bytes@.skip(0) =~= bytes@);
    }
    while i < bytes.len()
        invariant
            i <= bytes@.len(),
            mac_fold(h, bytes@.skip(i as int)) == mac_fold(h0, bytes@),
        decreases bytes@.len() - i,
    {
        let ghost pre = bytes@.skip(i as int);
        let b = bytes[i];
        h = (h ^ (b as u64)).wrapping_mul(MAC_PRIME);
        i = i + 1;
        proof {
            assert(pre[0] == bytes@[i - 1]);
            assert(pre.skip(1) =~= bytes@.skip(i as int));
        }
    }
    proof {
        assert(bytes@.skip(bytes@.len() as int) =~= Seq::<u8>::empty());
    }
    h
}

/// The 64-bit keyed tag over `data` under `key`, from seed `seed`.
pub fn keyed64(key: &[u8], data: &[u8], seed: u64) -> (h: u64)
    ensures
        h == spec_keyed64(key@, data@, seed),
{
    let hk = absorb(seed, key);
    absorb(hk, data)
}

/// The 16-byte handshake authenticator binding `data` to `key`.
pub open spec fn spec_handshake_hmac(key: Seq<u8>, data: Seq<u8>) -> Seq<u8> {
    spec_u64_to_le_bytes(spec_keyed64(key, data, SEED_HANDSHAKE_LO)) + spec_u64_to_le_bytes(
        spec_keyed64(key, data, SEED_HANDSHAKE_HI),
    )
}

/// The handshake authenticator is always 16 bytes.
pub proof fn lemma_handshake_hmac_len(key: Seq<u8>, data: Seq<u8>)
    ensures
        spec_handshake_hmac(key, data).len() == 16,
{
    vstd::bytes::lemma_auto_spec_u64_to_from_le_bytes();
}

/// The application-data record tag is always 8 bytes.
pub proof fn lemma_appdata_tag_len(key: Seq<u8>, data: Seq<u8>)
    ensures
        spec_appdata_tag(key, data).len() == 8,
{
    vstd::bytes::lemma_auto_spec_u64_to_from_le_bytes();
}

/// Computes the 16-byte handshake authenticator.
pub fn handshake_hmac(key: &[u8], data: &[u8]) -> (v: Vec<u8>)
    ensures
        v@ == spec_handshake_hmac(key@, data@),
        v@.len() == 16,
{
    let lo = keyed64(key, data, SEED_HANDSHAKE_LO);
    let hi = keyed64(key, data, SEED_HANDSHAKE_HI);
    let mut v = u64_to_le_bytes(lo);
    let mut vh = u64_to_le_bytes(hi);
    v.append(&mut vh);
    proof {
        vstd::bytes::lemma_auto_spec_u64_to_from_le_bytes();
        assert(v@ =~= spec_handshake_hmac(key@, data@));
    }
    v
}

/// The 8-byte truncated tag heading an application-data record.
pub open spec fn spec_appdata_tag(key: Seq<u8>, data: Seq<u8>) -> Seq<u8> {
    spec_u64_to_le_bytes(spec_keyed64(key, data, SEED_APPDATA))
}

/// Computes the 8-byte application-data record tag.
pub fn appdata_tag(key: &[u8], data: &[u8]) -> (v: Vec<u8>)
    ensures
        v@ == spec_appdata_tag(key@, data@),
        v@.len() == 8,
{
    let t = keyed64(key, data, SEED_APPDATA);
    u64_to_le_bytes(t)
}

/// The 4-byte mask of the record with sequence number `seq_no`.
pub open spec fn spec_mask(mask_key: Seq<u8>, seq_no: u64) -> Seq<u8> {
    spec_u64_to_le_bytes(
        spec_keyed64(mask_key, spec_u64_to_le_bytes(seq_no), SEED_MASK),
    ).subrange(0, 4)
}

/// Derives the 4-byte mask for one record from the mask key and the
/// record's sequence number.
pub fn derive_mask(mask_key: &[u8], seq_no: u64) -> (m: Vec<u8>)
    ensures
        m@ == spec_mask(mask_key@, seq_no),
        m@.len() == 4,
{
    let seq_bytes = u64_to_le_bytes(seq_no);
    let h = keyed64(mask_key, seq_bytes.as_slice(), SEED_MASK);
    let full = u64_to_le_bytes(h);
    let mut m: Vec<u8> = Vec::new();
    m.push(full[0]);
    m.push(full[1]);
    m.push(full[2]);
    m.push(full[3]);
    proof {
        assert(m@ =~= spec_mask(mask_key@, seq_no));
    }
    m
}

/// One direction's 8-byte derived key: the shared secret bound to that
/// direction's fixed label, so the two directions never share a key
/// unless the labelled tags collide.
pub open spec fn spec_direction_key(secret: Seq<u8>, to_server: bool) -> Seq<u8> {
    if to_server {
        spec_u64_to_le_bytes(
            spec_keyed64(crate::consts::to_server_magic(), secret, SEED_DIRECTION),
        )
    } else {
        spec_u64_to_le_bytes(
            spec_keyed64(crate::consts::to_client_magic(), secret, SEED_DIRECTION),
        )
    }
}

/// Derives one direction's key from the session's shared secret and the
/// fixed direction label.
pub fn derive_direction_key(secret: &[u8], to_server: bool) -> (k: Vec<u8>)
    ensures
        k@ == spec_direction_key(secret@, to_server),
        k@.len() == 8,
{
    let label = if to_server {
        crate::consts::to_server_magic_bytes()
    } else {
        crate::consts::to_client_magic_bytes()
    };
    let h = keyed64(label.as_slice(), secret, SEED_DIRECTION);
    u64_to_le_bytes(h)
}

/// Multiplying by the odd fold multiplier is invertible modulo 2^64:
/// equal products mean equal factors.
proof fn lemma_mul_prime_injective(x1: u64, x2: u64)
    requires
        (x1 * 0x100000001b3) % 0x1_0000_0000_0000_0000 == (x2 * 0x100000001b3)
            % 0x1_0000_0000_0000_0000,
    ensures
        x1 == x2,
{
    assert((((x1 * 0x100000001b3) % 0x1_0000_0000_0000_0000) * 0xce965057aff6957b)
        % 0x1_0000_0000_0000_0000 == x1) by (bit_vector);
    assert((((x2 * 0x100000001b3) % 0x1_0000_0000_0000_0000) * 0xce965057aff6957b)
        % 0x1_0000_0000_0000_0000 == x2) by (bit_vector);
}

/// The fold step keeps distinct states distinct under the same byte.
pub proof fn lemma_mac_step_state_injective(h1: u64, h2: u64, b: u8)
    requires
        h1 != h2,
    ensures
        mac_step(h1, b) != mac_step(h2, b),
{
    let x1 = h1 ^ (b as u64);
    let x2 = h2 ^ (b as u64);
    assert((h1 ^ (b as u64)) == (h2 ^ (b as u64)) ==> h1 == h2) by (bit_vector);
    if mac_step(h1, b) == mac_step(h2, b) {
        assert((x1 * 0x100000001b3) % 0x1_0000_0000_0000_0000 == (x2 * 0x100000001b3)
            % 0x1_0000_0000_0000_0000);
        lemma_mul_prime_injective(x1, x2);
        assert(false);
    }
}

/// The fold step maps distinct bytes of one state to distinct states.
pub proof fn lemma_mac_step_byte_injective(h: u64, b1: u8, b2: u8)
    requires
        b1 != b2,
    ensures
        mac_step(h, b1) != mac_step(h, b2),
{
    let x1 = h ^ (b1 as u64);
    let x2 = h ^ (b2 as u64);
    assert((h ^ (b1 as u64)) == (h ^ (b2 as u64)) ==> b1 == b2) by (bit_vector);
    if mac_step(h, b1) == mac_step(h, b2) {
        assert((x1 * 0x100000001b3) % 0x1_0000_0000_0000_0000 == (x2 * 0x100000001b3)
            % 0x1_0000_0000_0000_0000);
        lemma_mul_prime_injective(x1, x2);
        assert(false);
    }
}

/// Distinct states stay distinct while absorbing the same bytes.
pub proof fn lemma_mac_fold_state_injective(h1: u64, h2: u64, s: Seq<u8>)
    requires
        h1 != h2,
    ensures
        mac_fold(h1, s) != mac_fold(h2, s),
    decreases s.len(),
{
    if s.len() > 0 {
        lemma_mac_step_state_injective(h1, h2, s[0]);
        lemma_mac_fold_state_injective(mac_step(h1, s[0]), mac_step(h2, s[0]), s.skip(1));
    }
}

/// Changing exactly one absorbed byte changes the fold's result.
pub proof fn lemma_mac_fold_single_byte(h: u64, s1: Seq<u8>, s2: Seq<u8>, i: int)
    requires
        s1.len() == s2.len(),
        0 <= i < s1.len(),
        s1[i] != s2[i],
        forall|j: int| 0 <= j < s1.len() && j != i ==> s1[j] == s2[j],
    ensures
        mac_fold(h, s1) != mac_fold(h, s2),
    decreases s1.len(),
{
    if i == 0 {
        lemma_mac_step_byte_injective(h, s1[0], s2[0]);
        assert(s1.skip(1) =~= s2.skip(1));
        lemma_mac_fold_state_injective(mac_step(h, s1[0]), mac_step(h, s2[0]), s1.skip(1));
    } else {
        let t1 = s1.skip(1);
        let t2 = s2.skip(1);
        assert(t1[i - 1] == s1[i] && t2[i - 1] == s2[i]);
        assert forall|j: int| 0 <= j < t1.len() && j != i - 1 implies t1[j] == t2[j] by {
            assert(t1[j] == s1[j + 1] && t2[j] == s2[j + 1]);
        }
        lemma_mac_fold_single_byte(mac_step(h, s1[0]), t1, t2, i - 1);
    }
}

/// Two inputs that differ in exactly one byte never share an
/// application-data tag under the same key: the fold is injective in a
/// single byte, and so is the byte encoding of its result.
pub proof fn lemma_appdata_tag_single_byte(key: Seq<u8>, d1: Seq<u8>, d2: Seq<u8>, i: int)
    requires
        d1.len() == d2.len(),
        0 <= i < d1.len(),
        d1[i] != d2[i],
        forall|j: int| 0 <= j < d1.len() && j != i ==> d1[j] == d2[j],
    ensures
        spec_appdata_tag(key, d1) != spec_appdata_tag(key, d2),
{
    lemma_mac_fold_single_byte(mac_fold(SEED_APPDATA, key), d1, d2, i);
    vstd::bytes::lemma_auto_spec_u64_to_from_le_bytes();
    let a = spec_keyed64(key, d1, SEED_APPDATA);
    let b = spec_keyed64(key, d2, SEED_APPDATA);
    if spec_u64_to_le_bytes(a) == spec_u64_to_le_bytes(b) {
        assert(spec_u64_from_le_bytes(spec_u64_to_le_bytes(a)) == spec_u64_from_le_bytes(
            spec_u64_to_le_bytes(b),
        ));
        assert(false);
    }
}

/// Appends all of `src` to `dst`.
pub fn push_bytes(dst: &mut Vec<u8>, src: &[u8])
    ensures
        final(dst)@ == old(dst)@ + src@,
{
    let mut i: usize = 0;
    proof {
        assert(dst@ =~= dst@ + src@.subrange(0, 0));
    }
    while i < src.len()
        invariant
            i <= src@.len(),
            dst@ == old(dst)@ + src@.subrange(0, i as int),
        decreases src@.len() - i,
    {
        dst.push(src[i]);
        i = i + 1;
        proof {
            assert(old(dst)@ + src@.subrange(0, i - 1 as int) + seq![src@[i - 1]] =~= old(dst)@
                + src@.subrange(0, i as int));
        }
    }
    proof {
        assert(src@.subrange(0, src@.len() as int) =~= src@);
    }
}

/// Pointwise xor of two equal-length byte sequences.
pub open spec fn xor_bytes(a: Seq<u8>, b: Seq<u8>) -> Seq<u8> {
    Seq::new(a.len(), |i: int| a[i] ^ b[i])
}

/// Masking twice with the same bytes restores the input.
pub proof fn lemma_xor_involutive(a: Seq<u8>, b: Seq<u8>)
    requires
        a.len() == b.len(),
    ensures
        xor_bytes(xor_bytes(a, b), b) == a,
{
    assert forall|i: int| 0 <= i < a.len() implies xor_bytes(xor_bytes(a, b), b)[i] == a[i] by {
        let x = a[i];
        let y = b[i];
        assert((x ^ y) ^ y == x) by (bit_vector);
    }
    assert(xor_bytes(xor_bytes(a, b), b) =~= a);
}

/// Xors two equal-length byte slices, pointwise.
pub fn xor_into(a: &[u8], b: &[u8]) -> (v: Vec<u8>)
    requires
        a@.len() == b@.len(),
    ensures
        v@ == xor_bytes(a@, b@),
{
    let mut v: Vec<u8> = Vec::new();
    let mut i: usize = 0;
    while i < a.len()
        invariant
            i <= a@.len(),
            a@.len() == b@.len(),
            v@.len() == i,
            forall|j: int| 0 <= j < i ==> v@[j] == (a@[j] ^ b@[j]),
        decreases a@.len() - i,
    {
        v.push(a[i] ^ b[i]);
        i = i + 1;
    }
    proof {
        assert(v@ =~= xor_bytes(a@, b@));
    }
    v
}

/// Compares two equal-length byte slices without an early exit, so the
/// time taken does not reveal the position of a first mismatch.
pub fn ct_eq(a: &[u8], b: &[u8]) -> (r: bool)
    requires
        a@.len() == b@.len(),
    ensures
        r <==> a@ == b@,
{
    let mut acc: u8 = 0;
    let mut i: usize = 0;
    while i < a.len()
        invariant
            i <= a@.len(),
            a@.len() == b@.len(),
            (acc == 0) <==> (forall|j: int| 0 <= j < i ==> a@[j] == b@[j]),
        decreases a@.len() - i,
    {
        let x = a[i];
        let y = b[i];
        let d = x ^ y;
        proof {
            assert((x ^ y) == 0 <==> x == y) by (bit_vector);
            assert(forall|p: u8, q: u8| (p | q) == 0 <==> p == 0 && q == 0) by (bit_vector);
        }
        acc = acc | d;
        i = i + 1;
    }
    if acc == 0 {
        proof {
            assert(a@ =~= b@);
        }
        true
    } else {
        false
    }
}

} // verus!
