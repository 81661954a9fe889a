use restls_core::errors::ProtocolError;
use restls_core::framer::{decode_record, encode_record, DirectionState};
use restls_core::mac::{ct_eq, derive_direction_key, derive_mask, xor_into};

fn mask_key() -> Vec<u8> {
    vec![0x11, 0x22, 0x33, 0x44, 0x55, 0x66, 0x77, 0x88]
}

fn tag_key() -> Vec<u8> {
    vec![0xa0, 0xa1, 0xa2, 0xa3, 0xa4, 0xa5, 0xa6, 0xa7]
}

#[test]
fn record_round_trip_small_payload() {
    let payload = b"tunnel says hello".to_vec();
    let rec = encode_record(&payload, &mask_key(), &tag_key(), 7);
    assert_eq!(rec.len(), payload.len() + 12);
    let out = decode_record(&rec, &mask_key(), &tag_key(), 7).expect("decode");
    assert_eq!(out, payload);
}

#[test]
fn record_round_trip_empty_payload() {
    let payload: Vec<u8> = Vec::new();
    let rec = encode_record(&payload, &mask_key(), &tag_key(), 0);
    assert_eq!(rec.len(), 12);
    let out = decode_record(&rec, &mask_key(), &tag_key(), 0).expect("decode");
    assert_eq!(out, payload);
}

#[test]
fn record_round_trip_largest_payload() {
    let payload = vec![0x5a; 0x3000 - 12];
    let rec = encode_record(&payload, &mask_key(), &tag_key(), 3);
    assert_eq!(rec.len(), 0x3000);
    let out = decode_record(&rec, &mask_key(), &tag_key(), 3).expect("decode");
    assert_eq!(out, payload);
}

#[test]
fn record_header_is_twelve_bytes_for_any_payload() {
    for n in [0usize, 1, 2, 100, 1000] {
        let payload = vec![0xcc; n];
        let rec = encode_record(&payload, &mask_key(), &tag_key(), 1);
        assert_eq!(rec.len(), n + 12);
    }
}

#[test]
fn every_header_bit_flip_is_auth_failure() {
    let payload = b"fixed payload for the exhaustive header flip".to_vec();
    let rec = encode_record(&payload, &mask_key(), &tag_key(), 42);
    for byte in 0..12 {
        for bit in 0..8 {
            let mut forged = rec.clone();
            forged[byte] ^= 1u8 << bit;
            let r = decode_record(&forged, &mask_key(), &tag_key(), 42);
            assert_eq!(
                r,
                Err(ProtocolError::AuthFailure),
                "flip of bit {} in header byte {} went undetected",
                bit,
                byte
            );
        }
    }
}

#[test]
fn same_payload_encodes_differently_per_sequence_number() {
    let payload = b"identical payload".to_vec();
    let a = encode_record(&payload, &mask_key(), &tag_key(), 0);
    let b = encode_record(&payload, &mask_key(), &tag_key(), 1);
    assert_ne!(a, b);
}

#[test]
fn wrong_sequence_number_is_auth_failure() {
    let payload = b"ordered".to_vec();
    let rec = encode_record(&payload, &mask_key(), &tag_key(), 5);
    let r = decode_record(&rec, &mask_key(), &tag_key(), 6);
    assert_eq!(r, Err(ProtocolError::AuthFailure));
}

#[test]
fn wrong_direction_key_is_auth_failure() {
    let payload = b"one way".to_vec();
    let rec = encode_record(&payload, &mask_key(), &tag_key(), 5);
    let r = decode_record(&rec, &mask_key(), &mask_key(), 5);
    assert_eq!(r, Err(ProtocolError::AuthFailure));
}

#[test]
fn truncated_record_is_malformed() {
    let r = decode_record(&[0u8; 11], &mask_key(), &tag_key(), 0);
    assert_eq!(r, Err(ProtocolError::MalformedRecord));
}

#[test]
fn tampered_payload_is_auth_failure() {
    let payload = b"payload under the tag".to_vec();
    let rec = encode_record(&payload, &mask_key(), &tag_key(), 9);
    let mut forged = rec.clone();
    let last = forged.len() - 1;
    forged[last] ^= 0x80;
    let r = decode_record(&forged, &mask_key(), &tag_key(), 9);
    assert_eq!(r, Err(ProtocolError::AuthFailure));
}

#[test]
fn direction_state_counts_sequence_numbers() {
    let mut sender = DirectionState::new(mask_key(), tag_key());
    let mut receiver = DirectionState::new(mask_key(), tag_key());
    assert_eq!(sender.next_seq, 0);
    for i in 0..4u64 {
        let msg = vec![i as u8; 3];
        let rec = sender.encode_app_data(&msg).expect("encode");
        assert_eq!(sender.next_seq, i + 1);
        let out = receiver.decode_app_data(&rec).expect("decode");
        assert_eq!(out, msg);
        assert_eq!(receiver.next_seq, i + 1);
    }
}

#[test]
fn oversize_payload_is_malformed_and_keeps_state() {
    let mut sender = DirectionState::new(mask_key(), tag_key());
    let r = sender.encode_app_data(&vec![0u8; 0x3000 - 11]);
    assert_eq!(r, Err(ProtocolError::MalformedRecord));
    assert_eq!(sender.next_seq, 0);
}

#[test]
fn failed_decode_keeps_sequence_number() {
    let mut receiver = DirectionState::new(mask_key(), tag_key());
    let r = receiver.decode_app_data(&[0u8; 20]);
    assert_eq!(r, Err(ProtocolError::AuthFailure));
    assert_eq!(receiver.next_seq, 0);
}

#[test]
fn sequence_regression_is_replay_detected() {
    let mut sender = DirectionState::new(mask_key(), tag_key());
    let mut receiver = DirectionState::new(mask_key(), tag_key());
    let first = sender.encode_app_data(b"first").expect("encode");
    let out = receiver.decode_app_data_at(&first, 0).expect("decode");
    assert_eq!(out, b"first".to_vec());
    assert_eq!(receiver.next_seq, 1);
    let replay = receiver.decode_app_data_at(&first, 0);
    assert_eq!(replay, Err(ProtocolError::ReplayDetected));
    assert_eq!(receiver.next_seq, 1);
}

#[test]
fn direction_keys_differ_by_label() {
    let secret = b"shared session secret";
    let to_server = derive_direction_key(secret, true);
    let to_client = derive_direction_key(secret, false);
    assert_eq!(to_server.len(), 8);
    assert_eq!(to_client.len(), 8);
    assert_ne!(to_server, to_client);
}

#[test]
fn mask_depends_on_sequence_number() {
    let m0 = derive_mask(&mask_key(), 0);
    let m1 = derive_mask(&mask_key(), 1);
    assert_eq!(m0.len(), 4);
    assert_eq!(m1.len(), 4);
    assert_ne!(m0, m1);
    assert_eq!(m0, derive_mask(&mask_key(), 0));
}

#[test]
fn xor_round_trips() {
    let a = vec![0x01, 0x02, 0x03, 0x04];
    let m = vec![0xff, 0x00, 0xaa, 0x55];
    let masked = xor_into(&a, &m);
    assert_ne!(masked, a);
    assert_eq!(xor_into(&masked, &m), a);
}

#[test]
fn constant_time_compare_agrees_with_equality() {
    assert!(ct_eq(b"same bytes", b"same bytes"));
    assert!(!ct_eq(b"same bytes", b"same bytez"));
    assert!(ct_eq(b"", b""));
}

#[test]
fn hard_and_soft_errors() {
    assert!(ProtocolError::MalformedRecord.is_hard());
    assert!(ProtocolError::ReplayDetected.is_hard());
    assert!(!ProtocolError::AuthFailure.is_hard());
    assert!(!ProtocolError::UnsupportedCurve.is_hard());
    assert!(!ProtocolError::UnrecognizedCipherSuite.is_hard());
}
