//! Tests for credential construction and request signing.

use base64::Engine;
use ed25519_dalek::{Signature, Signer, SigningKey, Verifier};
use robinrust::auth::{build_signing_message, ConfigError, Robinhood};

fn b64(bytes: &[u8]) -> String {
    base64::engine::general_purpose::STANDARD.encode(bytes)
}

fn test_credential() -> (Robinhood, SigningKey) {
    let secret = [7u8; 32];
    let rh = Robinhood::new(
        "k1".to_string(),
        b64(&secret),
        "public-key-informational".to_string(),
    )
    .unwrap();
    (rh, SigningKey::from_bytes(&secret))
}

fn verify_signature(sk: &SigningKey, message: &str, signature_b64: &str) -> bool {
    let sig_bytes = base64::engine::general_purpose::STANDARD
        .decode(signature_b64)
        .unwrap();
    let sig = Signature::from_bytes(&sig_bytes.as_slice().try_into().unwrap());
    sk.verifying_key().verify(message.as_bytes(), &sig).is_ok()
}

#[test]
fn construction_accepts_a_32_byte_key() {
    let rh = Robinhood::new("k".to_string(), b64(&[3u8; 32]), "pk".to_string()).unwrap();
    assert_eq!(rh.api_key, "k");
    assert_eq!(rh.signing_public_key, "pk");
}

#[test]
fn construction_rejects_short_and_long_keys() {
    assert_eq!(
        Robinhood::new("k".to_string(), b64(&[3u8; 31]), "pk".to_string()).unwrap_err(),
        ConfigError::KeyWrongLength
    );
    assert_eq!(
        Robinhood::new("k".to_string(), b64(&[3u8; 33]), "pk".to_string()).unwrap_err(),
        ConfigError::KeyWrongLength
    );
    assert_eq!(
        Robinhood::new("k".to_string(), b64(&[]), "pk".to_string()).unwrap_err(),
        ConfigError::KeyWrongLength
    );
}

#[test]
fn construction_rejects_invalid_base64() {
    assert_eq!(
        Robinhood::new("k".to_string(), "%%not-base64%%".to_string(), "pk".to_string())
            .unwrap_err(),
        ConfigError::KeyNotBase64
    );
}

#[test]
fn message_is_exact_concatenation() {
    let m = build_signing_message("k1", 1700000000, "/x", "GET", "");
    assert_eq!(m, "k11700000000/xGET");
    assert_eq!(m.as_bytes(), b"k11700000000/xGET");
}

#[test]
fn message_includes_body_without_separators() {
    let m = build_signing_message("key", 12, "/orders/", "POST", "{\"a\":1}");
    assert_eq!(m, "key12/orders/POST{\"a\":1}");
}

#[test]
fn signature_verifies_under_public_key() {
    let (rh, sk) = test_credential();
    let sig = rh.signature_at(1700000000, "/x", "GET", "");
    let message = build_signing_message("k1", 1700000000, "/x", "GET", "");
    assert!(verify_signature(&sk, &message, &sig));
}

#[test]
fn tampered_field_fails_verification() {
    let (rh, sk) = test_credential();
    let sig = rh.signature_at(1700000000, "/x", "GET", "");
    let tampered_method = build_signing_message("k1", 1700000000, "/x", "POST", "");
    assert!(!verify_signature(&sk, &tampered_method, &sig));
    let tampered_path = build_signing_message("k1", 1700000000, "/y", "GET", "");
    assert!(!verify_signature(&sk, &tampered_path, &sig));
    let tampered_body = build_signing_message("k1", 1700000000, "/x", "GET", "x");
    assert!(!verify_signature(&sk, &tampered_body, &sig));
}

#[test]
fn resigning_a_second_apart_differs_and_both_verify() {
    let (rh, sk) = test_credential();
    let h1 = rh.auth_headers_at(1700000000, "/x", "GET", "");
    let h2 = rh.auth_headers_at(1700000001, "/x", "GET", "");
    assert_ne!(h1.timestamp, h2.timestamp);
    assert_ne!(h1.signature, h2.signature);
    let m1 = build_signing_message("k1", 1700000000, "/x", "GET", "");
    let m2 = build_signing_message("k1", 1700000001, "/x", "GET", "");
    assert!(verify_signature(&sk, &m1, &h1.signature));
    assert!(verify_signature(&sk, &m2, &h2.signature));
}

#[test]
fn auth_headers_carry_api_key_and_fresh_timestamp() {
    let (rh, sk) = test_credential();
    let h = rh.auth_headers("/x", "GET", "");
    assert_eq!(h.api_key, "k1");
    let ts: u64 = h.timestamp.parse().unwrap();
    let message = build_signing_message("k1", ts, "/x", "GET", "");
    assert!(verify_signature(&sk, &message, &h.signature));
}

#[test]
fn signature_is_base64_of_64_bytes() {
    let (rh, _sk) = test_credential();
    let sig = rh.signature_at(1, "/x", "GET", "");
    let raw = base64::engine::general_purpose::STANDARD
        .decode(&sig)
        .unwrap();
    assert_eq!(raw.len(), 64);
}

#[test]
fn signing_matches_direct_ed25519() {
    let (rh, sk) = test_credential();
    let sig = rh.signature_at(42, "/p", "GET", "");
    let message = build_signing_message("k1", 42, "/p", "GET", "");
    let direct = b64(&sk.sign(message.as_bytes()).to_bytes());
    assert_eq!(sig, direct);
}

#[test]
fn try_auth_headers_rejects_a_bad_stored_key() {
    let rh = Robinhood {
        api_key: "k1".to_string(),
        signing_priv_b64: b64(&[1u8; 16]),
        signing_public_key: "pk".to_string(),
    };
    assert!(rh.try_auth_headers("/x", "GET", "").is_none());
    let (good, _) = test_credential();
    assert!(good.try_auth_headers("/x", "GET", "").is_some());
}
