use restls_core::classifier::{Classifier, ClassifierEvent, HandshakeState, KeyExchangeMode};
use restls_core::errors::ProtocolError;
use restls_core::consts::{
    EXTENSION_KEY_SHARE, EXTENSION_PRE_SHARED_KEY, EXTENSION_SESSION_TICKET,
    EXTENSION_SUPPORTED_VERSIONS,
};
use restls_core::records::{
    client_hello_extensions, ext_lookup, extract_session_id, is_hello_retry, key_share_group,
    parse_server_hello, tls13_selected,
};
use restls_core::session_auth::{decode_client_auth, encode_client_auth, ClientAuthVerdict};
use restls_core::suites::{classify_cipher_suite, curve_id_to_index, CipherSuiteClass};

fn key1() -> Vec<u8> {
    b"the tunnel's shared secret".to_vec()
}

fn key2() -> Vec<u8> {
    b"somebody else's secret".to_vec()
}

fn ticket() -> Vec<u8> {
    vec![0xd0, 0xd1, 0xd2, 0xd3, 0xd4, 0xd5, 0xd6, 0xd7]
}

fn fresh() -> Vec<u8> {
    vec![0x41, 0x42, 0x43, 0x44, 0x45, 0x46, 0x47, 0x48]
}

/// Wraps a handshake message body of the given type into a full record.
fn handshake_record(hs_type: u8, body: &[u8]) -> Vec<u8> {
    let hs_len = body.len();
    let mut hs = vec![
        hs_type,
        (hs_len >> 16) as u8,
        (hs_len >> 8) as u8,
        hs_len as u8,
    ];
    hs.extend_from_slice(body);
    let rec_len = hs.len();
    let mut rec = vec![0x16, 0x03, 0x03, (rec_len >> 8) as u8, rec_len as u8];
    rec.extend_from_slice(&hs);
    rec
}

fn client_hello(session_id: &[u8]) -> Vec<u8> {
    let mut body = vec![0x03, 0x03];
    body.extend_from_slice(&[0x77; 32]);
    body.push(session_id.len() as u8);
    body.extend_from_slice(session_id);
    handshake_record(0x01, &body)
}

fn server_hello(random: &[u8; 32], cipher: u16, exts: &[u8]) -> Vec<u8> {
    let mut body = vec![0x03, 0x03];
    body.extend_from_slice(random);
    body.push(0x00);
    body.push((cipher >> 8) as u8);
    body.push(cipher as u8);
    body.push(0x00);
    body.push((exts.len() >> 8) as u8);
    body.push(exts.len() as u8);
    body.extend_from_slice(exts);
    handshake_record(0x02, &body)
}

fn tls13_exts_with_group(group: u16) -> Vec<u8> {
    let mut exts = vec![0x00, 0x2b, 0x00, 0x02, 0x03, 0x04];
    exts.extend_from_slice(&[0x00, 0x33, 0x00, 0x05, (group >> 8) as u8, group as u8, 0x00, 0x01, 0xaa]);
    exts
}

fn hello_retry_marker() -> [u8; 32] {
    [
        0xCF, 0x21, 0xAD, 0x74, 0xE5, 0x9A, 0x61, 0x11, 0xBE, 0x1D, 0x8C, 0x02, 0x1E, 0x65, 0xB8,
        0x91, 0xC2, 0xA2, 0x11, 0x16, 0x7A, 0xBB, 0x8C, 0x5E, 0x07, 0x9E, 0x09, 0xE2, 0xC8, 0xA8,
        0x33, 0x9C,
    ]
}

fn ccs_record() -> Vec<u8> {
    vec![0x14, 0x03, 0x03, 0x00, 0x01, 0x01]
}

fn app_data_record() -> Vec<u8> {
    vec![0x17, 0x03, 0x03, 0x00, 0x01, 0x00]
}

#[test]
fn curve_indices() {
    assert_eq!(curve_id_to_index(29), Ok(0));
    assert_eq!(curve_id_to_index(23), Ok(1));
    assert_eq!(curve_id_to_index(24), Ok(2));
    assert_eq!(curve_id_to_index(25), Err(ProtocolError::UnsupportedCurve));
    assert_eq!(curve_id_to_index(0), Err(ProtocolError::UnsupportedCurve));
}

#[test]
fn cipher_suite_classification() {
    for id in [0xc02f, 0xc02b, 0xc030, 0xc02c] {
        assert_eq!(classify_cipher_suite(id), CipherSuiteClass::LegacyGcmFallback);
    }
    assert_eq!(classify_cipher_suite(0x1301), CipherSuiteClass::Unrecognized);
    assert_eq!(classify_cipher_suite(0x0000), CipherSuiteClass::Unrecognized);
}

#[test]
fn client_auth_round_trip_same_key() {
    let sid = encode_client_auth(&ticket(), &key1(), &fresh());
    assert_eq!(sid.len(), 32);
    match decode_client_auth(&sid, &key1()) {
        ClientAuthVerdict::Authenticated(t) => assert_eq!(t, ticket()),
        other => panic!("expected authentication, got {:?}", other),
    }
}

#[test]
fn client_auth_wrong_key_is_probe() {
    let sid = encode_client_auth(&ticket(), &key1(), &fresh());
    assert!(matches!(decode_client_auth(&sid, &key2()), ClientAuthVerdict::Probe));
}

#[test]
fn client_auth_random_bytes_are_probe_not_error() {
    let mut sid = vec![0u8; 32];
    for (i, b) in sid.iter_mut().enumerate() {
        *b = (i as u8).wrapping_mul(37).wrapping_add(11);
    }
    assert!(matches!(decode_client_auth(&sid, &key1()), ClientAuthVerdict::Probe));
}

#[test]
fn client_auth_wrong_length_is_malformed() {
    assert!(matches!(decode_client_auth(&[0u8; 31], &key1()), ClientAuthVerdict::Malformed));
    assert!(matches!(decode_client_auth(&[0u8; 33], &key1()), ClientAuthVerdict::Malformed));
    assert!(matches!(decode_client_auth(&[], &key1()), ClientAuthVerdict::Malformed));
}

#[test]
fn client_auth_tampered_hmac_region_is_probe() {
    let mut sid = encode_client_auth(&ticket(), &key1(), &fresh());
    sid[16] ^= 0x01;
    assert!(matches!(decode_client_auth(&sid, &key1()), ClientAuthVerdict::Probe));
}

#[test]
fn fresh_random_changes_the_encoding() {
    let a = encode_client_auth(&ticket(), &key1(), &fresh());
    let b = encode_client_auth(&ticket(), &key1(), &[0x99; 8]);
    assert_ne!(a, b);
}

#[test]
fn hello_retry_marker_detected() {
    assert!(is_hello_retry(&hello_retry_marker()));
}

#[test]
fn hello_retry_any_single_byte_differs_is_ordinary() {
    for i in 0..32 {
        let mut random = hello_retry_marker();
        random[i] ^= 0xff;
        assert!(!is_hello_retry(&random), "byte {} still classified as retry", i);
    }
}

#[test]
fn session_id_extraction() {
    let sid = [0xabu8; 32];
    let rec = client_hello(&sid);
    assert_eq!(extract_session_id(&rec), Some(sid.to_vec()));
    assert_eq!(extract_session_id(&rec[..rec.len() - 1]), None);
    assert_eq!(extract_session_id(&ccs_record()), None);
}

/// A ClientHello that also carries cipher suites, compression methods
/// and an extension list.
fn full_client_hello(session_id: &[u8], exts: &[u8]) -> Vec<u8> {
    let mut body = vec![0x03, 0x03];
    body.extend_from_slice(&[0x77; 32]);
    body.push(session_id.len() as u8);
    body.extend_from_slice(session_id);
    body.extend_from_slice(&[0x00, 0x02, 0x13, 0x01]);
    body.extend_from_slice(&[0x01, 0x00]);
    body.push((exts.len() >> 8) as u8);
    body.push(exts.len() as u8);
    body.extend_from_slice(exts);
    handshake_record(0x01, &body)
}

#[test]
fn client_hello_extension_walk() {
    let mut exts = vec![0x00, 0x23, 0x00, 0x00];
    exts.extend_from_slice(&[0x00, 0x2b, 0x00, 0x03, 0x02, 0x03, 0x04]);
    exts.extend_from_slice(&[0x00, 0x33, 0x00, 0x06, 0x00, 0x1d, 0x00, 0x02, 0xaa, 0xbb]);
    exts.extend_from_slice(&[0x00, 0x29, 0x00, 0x01, 0x00]);
    let rec = full_client_hello(&[0xab; 32], &exts);
    assert_eq!(extract_session_id(&rec), Some(vec![0xab; 32]));
    let found = client_hello_extensions(&rec).expect("extension list");
    assert_eq!(found, exts);
    assert_eq!(ext_lookup(&found, EXTENSION_SESSION_TICKET), Some(vec![]));
    assert_eq!(ext_lookup(&found, EXTENSION_SUPPORTED_VERSIONS), Some(vec![0x02, 0x03, 0x04]));
    assert_eq!(
        ext_lookup(&found, EXTENSION_KEY_SHARE),
        Some(vec![0x00, 0x1d, 0x00, 0x02, 0xaa, 0xbb])
    );
    assert_eq!(ext_lookup(&found, EXTENSION_PRE_SHARED_KEY), Some(vec![0x00]));
    assert!(client_hello_extensions(&client_hello(&[0xab; 32])).is_none());
}

#[test]
fn extension_walk() {
    let exts = tls13_exts_with_group(29);
    assert_eq!(ext_lookup(&exts, 0x002b), Some(vec![0x03, 0x04]));
    assert_eq!(ext_lookup(&exts, 0x0033), Some(vec![0x00, 0x1d, 0x00, 0x01, 0xaa]));
    assert_eq!(ext_lookup(&exts, 0x0029), None);
    assert!(tls13_selected(&exts));
    assert_eq!(key_share_group(&exts), Some(29));
    assert!(!tls13_selected(&[]));
}

#[test]
fn server_hello_summary() {
    let rec = server_hello(&[0x10; 32], 0x1301, &tls13_exts_with_group(29));
    let sh = parse_server_hello(&rec).expect("parse");
    assert_eq!(sh.random, vec![0x10; 32]);
    assert_eq!(sh.cipher, 0x1301);
    assert!(tls13_selected(&sh.exts));
    assert!(parse_server_hello(&ccs_record()).is_none());
}

#[test]
fn end_to_end_authenticated_tunnel() {
    let sid = encode_client_auth(&ticket(), &key1(), &fresh());
    let mut c = Classifier::new(key1());
    assert_eq!(c.state, HandshakeState::AwaitClientHello);

    let ev = c.classify(&client_hello(&sid)).expect("client hello");
    assert_eq!(ev, ClassifierEvent::AdvancedTo(HandshakeState::AwaitServerHello));
    assert_eq!(c.state, HandshakeState::AwaitServerHello);
    assert_eq!(c.ticket, Some(ticket()));

    let sh = server_hello(&[0x31; 32], 0x1301, &tls13_exts_with_group(29));
    let ev = c.classify(&sh).expect("server hello");
    assert_eq!(ev, ClassifierEvent::AdvancedTo(HandshakeState::AwaitKeyExchange));
    assert_eq!(c.mode, Some(KeyExchangeMode::Modern));

    let ev = c.classify(&ccs_record()).expect("ccs");
    assert_eq!(ev, ClassifierEvent::NeedMore);

    let ev = c.classify(&app_data_record()).expect("first flight");
    assert_eq!(ev, ClassifierEvent::Established);
    assert_eq!(c.state, HandshakeState::Established);
}

#[test]
fn end_to_end_wrong_key_is_passthrough() {
    let sid = encode_client_auth(&ticket(), &key1(), &fresh());
    let mut c = Classifier::new(key2());
    let ev = c.classify(&client_hello(&sid)).expect("client hello");
    assert_eq!(ev, ClassifierEvent::Passthrough);
    assert_eq!(c.state, HandshakeState::Passthrough);
    for bytes in [ccs_record(), app_data_record(), client_hello(&sid), vec![0x00, 0x01]] {
        let ev = c.classify(&bytes).expect("relayed bytes");
        assert_eq!(ev, ClassifierEvent::Passthrough);
        assert_eq!(c.state, HandshakeState::Passthrough);
    }
}

#[test]
fn legacy_gcm_path_reaches_established() {
    let sid = encode_client_auth(&ticket(), &key1(), &fresh());
    let mut c = Classifier::new(key1());
    c.classify(&client_hello(&sid)).expect("client hello");
    let sh = server_hello(&[0x31; 32], 0xc02f, &[]);
    let ev = c.classify(&sh).expect("server hello");
    assert_eq!(ev, ClassifierEvent::AdvancedTo(HandshakeState::AwaitKeyExchange));
    assert_eq!(c.mode, Some(KeyExchangeMode::Legacy));

    let cert = handshake_record(0x0b, &[]);
    assert_eq!(c.classify(&cert).expect("certificate"), ClassifierEvent::NeedMore);

    let ske = handshake_record(0x0c, &[]);
    assert_eq!(c.classify(&ske).expect("server key exchange"), ClassifierEvent::Established);
    assert_eq!(c.state, HandshakeState::Established);
}

#[test]
fn unrecognized_suite_is_passthrough() {
    let sid = encode_client_auth(&ticket(), &key1(), &fresh());
    let mut c = Classifier::new(key1());
    c.classify(&client_hello(&sid)).expect("client hello");
    let sh = server_hello(&[0x31; 32], 0x009c, &[]);
    let ev = c.classify(&sh).expect("server hello");
    assert_eq!(ev, ClassifierEvent::Passthrough);
    assert_eq!(c.state, HandshakeState::Passthrough);
}

#[test]
fn unsupported_group_is_passthrough() {
    let sid = encode_client_auth(&ticket(), &key1(), &fresh());
    let mut c = Classifier::new(key1());
    c.classify(&client_hello(&sid)).expect("client hello");
    let sh = server_hello(&[0x31; 32], 0x1301, &tls13_exts_with_group(25));
    let ev = c.classify(&sh).expect("server hello");
    assert_eq!(ev, ClassifierEvent::Passthrough);
    assert_eq!(c.state, HandshakeState::Passthrough);
}

#[test]
fn hello_retry_loops_back_to_await_server_hello() {
    let sid = encode_client_auth(&ticket(), &key1(), &fresh());
    let mut c = Classifier::new(key1());
    c.classify(&client_hello(&sid)).expect("client hello");

    let hrr = server_hello(&hello_retry_marker(), 0x1301, &tls13_exts_with_group(29));
    let ev = c.classify(&hrr).expect("hello retry");
    assert_eq!(ev, ClassifierEvent::AdvancedTo(HandshakeState::AwaitRetryClientHello));
    assert_eq!(c.state, HandshakeState::AwaitRetryClientHello);

    let ev = c.classify(&client_hello(&sid)).expect("retry client hello");
    assert_eq!(ev, ClassifierEvent::AdvancedTo(HandshakeState::AwaitServerHello));

    let sh = server_hello(&[0x31; 32], 0x1301, &tls13_exts_with_group(29));
    let ev = c.classify(&sh).expect("real server hello");
    assert_eq!(ev, ClassifierEvent::AdvancedTo(HandshakeState::AwaitKeyExchange));
}

#[test]
fn truncated_server_hello_is_hard_failure() {
    let sid = encode_client_auth(&ticket(), &key1(), &fresh());
    let mut c = Classifier::new(key1());
    c.classify(&client_hello(&sid)).expect("client hello");
    let mut sh = server_hello(&[0x31; 32], 0x1301, &tls13_exts_with_group(29));
    sh.truncate(sh.len() - 3);
    let r = c.classify(&sh);
    assert_eq!(r, Err(ProtocolError::MalformedRecord));
    assert_eq!(c.state, HandshakeState::AwaitServerHello);
}

#[test]
fn short_session_id_is_hard_failure() {
    let mut c = Classifier::new(key1());
    let r = c.classify(&client_hello(&[0xab; 16]));
    assert_eq!(r, Err(ProtocolError::MalformedRecord));
}

#[test]
fn garbage_first_record_is_passthrough() {
    let mut c = Classifier::new(key1());
    let ev = c.classify(b"GET / HTTP/1.1\r\n").expect("not tls");
    assert_eq!(ev, ClassifierEvent::Passthrough);
    assert_eq!(c.state, HandshakeState::Passthrough);
}
