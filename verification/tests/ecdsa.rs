//! ECDSA unit tests: P-256 and P-384, valid and tampered, with key and
//! signature pairs made by the `p256` / `p384` crates.

use p256::ecdsa::signature::Signer;
use rand_core::OsRng;

use algovoi_rfc9421_verifier::ecdsa::{verify_p256, verify_p384, EcdsaRequestOptions, PublicKeyInput};

const SIGNING_BASE: &str = "\"@method\": POST\n\"@path\": /pay\n\"@authority\": api.algovoi.co.uk";

fn hex_encode(bytes: &[u8]) -> String {
    let mut s = String::with_capacity(bytes.len() * 2);
    for b in bytes {
        s.push_str(&format!("{b:02x}"));
    }
    s
}

#[test]
fn p256_valid_and_tampered() {

    let sk = p256::ecdsa::SigningKey::random(&mut OsRng);
    let vk = sk.verifying_key();
    let sig: p256::ecdsa::Signature = sk.sign(SIGNING_BASE.as_bytes());
    let raw = sig.to_bytes(); // 64-byte r||s
    assert_eq!(raw.len(), 64);

    let pk = PublicKeyInput::Bytes(vk.to_encoded_point(false).as_bytes().to_vec());

    // Valid.
    assert_eq!(verify_p256(SIGNING_BASE, &raw, &pk, false), Ok(true), "valid P-256 signature must verify");

    // Tampered signature byte.
    let mut bad = raw.to_vec();
    bad[0] ^= 0x01;
    assert_eq!(
        verify_p256(SIGNING_BASE, &bad, &pk, false),
        Ok(false),
        "tampered P-256 signature must not verify"
    );

    // Tampered message.
    assert_eq!(
        verify_p256("different signing base", &raw, &pk, false),
        Ok(false),
        "P-256 signature over a different base must not verify"
    );

    // Compressed SEC1 public keys are accepted too.
    let pk_compressed = PublicKeyInput::Bytes(vk.to_encoded_point(true).as_bytes().to_vec());
    assert_eq!(verify_p256(SIGNING_BASE, &raw, &pk_compressed, false), Ok(true));

    // And hex-encoded keys.
    let pk_hex = PublicKeyInput::Hex(hex_encode(vk.to_encoded_point(false).as_bytes()));
    assert_eq!(verify_p256(SIGNING_BASE, &raw, &pk_hex, false), Ok(true));
}

#[test]
fn p256_wrong_length_errors() {
    let pk = PublicKeyInput::Bytes(vec![0x04; 65]);
    assert!(
        verify_p256(SIGNING_BASE, &[0u8; 10], &pk, false).is_err(),
        "wrong signature length must be a setup error"
    );
}

#[test]
fn p256_zero_scalar_rejected() {
    // r||s all zero: both out of [1, n-1], so Ok(false), no panic.
    let sk = p256::ecdsa::SigningKey::random(&mut OsRng);
    let vk = sk.verifying_key();
    let _sig: p256::ecdsa::Signature = sk.sign(SIGNING_BASE.as_bytes());
    let pk = PublicKeyInput::Bytes(vk.to_encoded_point(false).as_bytes().to_vec());
    let zero = [0u8; 64];
    assert_eq!(verify_p256(SIGNING_BASE, &zero, &pk, false), Ok(false));
}

#[test]
fn p384_valid_and_tampered() {

    let sk = p384::ecdsa::SigningKey::random(&mut OsRng);
    let vk = sk.verifying_key();
    let sig: p384::ecdsa::Signature = sk.sign(SIGNING_BASE.as_bytes());
    let raw = sig.to_bytes(); // 96-byte r||s
    assert_eq!(raw.len(), 96);

    let pk = PublicKeyInput::Bytes(vk.to_encoded_point(false).as_bytes().to_vec());

    assert_eq!(verify_p384(SIGNING_BASE, &raw, &pk, false), Ok(true), "valid P-384 signature must verify");

    let mut bad = raw.to_vec();
    bad[0] ^= 0x01;
    assert_eq!(
        verify_p384(SIGNING_BASE, &bad, &pk, false),
        Ok(false),
        "tampered P-384 signature must not verify"
    );

    assert_eq!(
        verify_p384("different signing base", &raw, &pk, false),
        Ok(false),
        "P-384 signature over a different base must not verify"
    );
}

#[test]
fn p384_wrong_length_errors() {
    let pk = PublicKeyInput::Bytes(vec![0x04; 97]);
    assert!(verify_p384(SIGNING_BASE, &[0u8; 64], &pk, false).is_err());
}

#[test]
fn strict_low_s_toggle_is_available() {
    // Off by default; turning it on rejects a high-s signature that verifies
    // with it off.

    assert!(!EcdsaRequestOptions::default().strict_low_s);

    let sk = p256::ecdsa::SigningKey::random(&mut OsRng);
    let vk = sk.verifying_key();
    let sig: p256::ecdsa::Signature = sk.sign(SIGNING_BASE.as_bytes());
    let flipped = p256::ecdsa::Signature::from_scalars(sig.r(), -*sig.s()).unwrap();
    let high = if sig.normalize_s().is_some() { sig } else { flipped };
    let raw = high.to_bytes();
    let pk = PublicKeyInput::Bytes(vk.to_encoded_point(false).as_bytes().to_vec());

    assert_eq!(verify_p256(SIGNING_BASE, &raw, &pk, false), Ok(true));
    assert_eq!(verify_p256(SIGNING_BASE, &raw, &pk, true), Ok(false));
}

#[test]
fn default_options_allow_all_three_algs() {
    let opts = EcdsaRequestOptions::default();
    let allowed = &opts.inner.allowed_algorithms;
    assert!(allowed.iter().any(|a| a == "ed25519"));
    assert!(allowed.iter().any(|a| a == "ecdsa-p256-sha256"));
    assert!(allowed.iter().any(|a| a == "ecdsa-p384-sha384"));
}
