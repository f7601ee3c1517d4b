//! A negative battery over the core primitives and the ECDSA checks, one
//! section per primitive, each case with its expected verdict.

use ed25519_dalek::{Signer, SigningKey};
use rand_core::OsRng;

use algovoi_rfc9421_verifier::ecdsa::{verify_p256, verify_p384, PublicKeyInput};
use algovoi_rfc9421_verifier::{
    build_signing_base, check_ed25519_public_key, is_small_order, parse_signature_input, parse_signature_value,
    verify_signature, Mode, ParamValue, SigningBaseInput,
};

fn neg_hex_decode(s: &str) -> Vec<u8> {
    hex::decode(s).expect("hex in case")
}

fn neg_hex_encode(bytes: &[u8]) -> String {
    let mut s = String::with_capacity(bytes.len() * 2);
    for b in bytes {
        s.push_str(&format!("{b:02x}"));
    }
    s
}

#[test]
fn signing_base_cases() {
    // (mode, covered, method, authority, path, headers, parameters, raw, expected)
    let ok_v0 = SigningBaseInput {
        covered_components: vec!["@method".to_string(), "@path".to_string(), "@authority".to_string()],
        method: Some("POST"),
        authority: Some("API.AlgoVoi.co.uk"),
        path: Some("/Pay"),
        mode: Mode::parse("algovoi-v0").expect("valid mode"),
        ..Default::default()
    };
    assert_eq!(
        build_signing_base(&ok_v0).unwrap(),
        "\"@method\": post\n\"@path\": /Pay\n\"@authority\": api.algovoi.co.uk",
        "signing_base case 0 mismatch"
    );

    let ok_rfc = SigningBaseInput {
        covered_components: vec!["@method".to_string(), "Content-Digest".to_string(), "created".to_string()],
        method: Some("POST"),
        headers: vec![("content-DIGEST".to_string(), "sha-256=:abc=:".to_string())],
        parameters: vec![("created".to_string(), ParamValue::Int(1700000000))],
        mode: Mode::parse("rfc9421").expect("valid mode"),
        signature_params_raw: Some("(\"@method\" \"content-digest\" \"created\");created=1700000000".to_string()),
        ..Default::default()
    };
    assert_eq!(
        build_signing_base(&ok_rfc).unwrap(),
        "\"@method\": POST\n\"content-digest\": sha-256=:abc=:\n\"created\": 1700000000\n\"@signature-params\": (\"@method\" \"content-digest\" \"created\");created=1700000000",
        "signing_base case 1 mismatch"
    );

    // rfc9421 without the raw parameters block: error.
    let no_raw = SigningBaseInput {
        covered_components: vec!["@method".to_string()],
        method: Some("GET"),
        mode: Mode::Rfc9421,
        ..Default::default()
    };
    assert!(build_signing_base(&no_raw).is_err(), "signing_base case 2 expected error, built ok");

    // An unsupported derived component: error.
    let derived = SigningBaseInput {
        covered_components: vec!["@query".to_string()],
        ..Default::default()
    };
    assert!(build_signing_base(&derived).is_err(), "signing_base case 3 expected error, built ok");

    // A covered header that is absent: error.
    let absent = SigningBaseInput {
        covered_components: vec!["x-missing".to_string()],
        ..Default::default()
    };
    assert!(build_signing_base(&absent).is_err(), "signing_base case 4 expected error, built ok");
}

#[test]
fn signature_input_parse_cases() {
    let cases: [(&str, bool); 8] = [
        (r#"sig=("@method" "@path");alg="ed25519""#, true),
        (r#"("@method");alg="ed25519""#, true),
        (r#"  sig1 = ("@method")  "#, true),
        (r#"sig=()"#, true),
        ("", false),
        ("   ", false),
        ("garbage-no-list", false),
        (r#"sig=("@method";alg="ed25519""#, false),
    ];
    for (idx, (header, ok)) in cases.iter().enumerate() {
        assert_eq!(parse_signature_input(header).is_ok(), *ok, "sig_input_parse case {idx}");
    }
}

#[test]
fn signature_value_parse_cases() {
    let cases: [(&str, bool); 8] = [
        ("sig=:AAAA:", true),
        (":AAAA:", true),
        ("sig=::", true),
        ("", false),
        ("sig=AAAA", false),
        ("sig=:AAAA", false),
        ("sig=:AAB=:", false),
        ("sig=:!!notbase64!!:", false),
    ];
    for (idx, (header, ok)) in cases.iter().enumerate() {
        assert_eq!(parse_signature_value(header).is_ok(), *ok, "sig_value_parse case {idx}");
    }
}

#[test]
fn keygate_cases() {
    let good = SigningKey::from_bytes(&[7u8; 32]).verifying_key().to_bytes();
    let good_hex = neg_hex_encode(&good);
    // (pk_hex, rejected, small_order)
    let cases: [(&str, bool, bool); 8] = [
        ("0100000000000000000000000000000000000000000000000000000000000000", true, true),
        ("0000000000000000000000000000000000000000000000000000000000000000", true, true),
        ("ecffffffffffffffffffffffffffffffffffffffffffffffffffffffffffff7f", true, true),
        ("26e8958fc2b227b045c3f489f2ef98f0d5dfac05d3c63339b13802886d53fc05", true, true),
        ("c7176a703d4dd84fba3c0b760d10670f2a2053fa2c39ccc64ec7fd7792ac037a", true, true),
        ("edffffffffffffffffffffffffffffffffffffffffffffffffffffffffffff7f", true, false),
        ("5866666666666666666666666666666666666666666666666666666666666666", false, false),
        (good_hex.as_str(), false, false),
    ];
    for (idx, (pk_hex, rejected, small)) in cases.iter().enumerate() {
        let pk = neg_hex_decode(pk_hex);
        assert_eq!(check_ed25519_public_key(&pk).is_err(), *rejected, "keygate case {idx} rejection");
        assert_eq!(is_small_order(&pk), *small, "keygate case {idx} small_order");
    }
}

#[test]
fn ed25519_verify_cases() {
    let sk = SigningKey::from_bytes(&[3u8; 32]);
    let other = SigningKey::from_bytes(&[4u8; 32]);
    let base = "\"@method\": post\n\"@path\": /pay";
    let sig = sk.sign(base.as_bytes()).to_bytes();
    let mut tampered = sig;
    tampered[5] ^= 0x80;
    let pk = sk.verifying_key().to_bytes();
    let other_pk = other.verifying_key().to_bytes();
    // (signing base, signature, key, expect_valid)
    let cases: [(&str, [u8; 64], [u8; 32], bool); 4] = [
        (base, sig, pk, true),
        (base, tampered, pk, false),
        (base, sig, other_pk, false),
        ("\"@method\": get\n\"@path\": /pay", sig, pk, false),
    ];
    for (idx, (sb, s, k, expect)) in cases.iter().enumerate() {
        let valid = matches!(verify_signature(sb, s, k, "ed25519"), Ok(true));
        assert_eq!(valid, *expect, "ed25519_verify case {idx}");
    }
}

#[test]
fn ecdsa_verify_cases() {
    let msg = "\"@method\": POST\n\"@path\": /pay";

    let sk256 = p256::ecdsa::SigningKey::random(&mut OsRng);
    let sig256: p256::ecdsa::Signature = p256::ecdsa::signature::Signer::sign(&sk256, msg.as_bytes());
    let pk256 = PublicKeyInput::Hex(neg_hex_encode(sk256.verifying_key().to_encoded_point(false).as_bytes()));
    let low256 = sig256.normalize_s().unwrap_or(sig256).to_bytes().to_vec();
    let high256 = p256::ecdsa::Signature::from_scalars(
        p256::ecdsa::Signature::from_slice(&low256).unwrap().r(),
        -*p256::ecdsa::Signature::from_slice(&low256).unwrap().s(),
    )
    .unwrap()
    .to_bytes()
    .to_vec();

    let sk384 = p384::ecdsa::SigningKey::random(&mut OsRng);
    let sig384: p384::ecdsa::Signature = p384::ecdsa::signature::Signer::sign(&sk384, msg.as_bytes());
    let pk384 = PublicKeyInput::Hex(neg_hex_encode(sk384.verifying_key().to_encoded_point(false).as_bytes()));
    let raw384 = sig384.to_bytes().to_vec();
    let mut bad384 = raw384.clone();
    bad384[10] ^= 0x01;

    // (curve, sig, key, strict_low_s, expect_valid)
    let cases: Vec<(&str, Vec<u8>, &PublicKeyInput, bool, bool)> = vec![
        ("p256", low256.clone(), &pk256, false, true),
        ("p256", low256.clone(), &pk256, true, true),
        ("p256", high256.clone(), &pk256, false, true),
        ("p256", high256.clone(), &pk256, true, false),
        ("p256", vec![0u8; 64], &pk256, false, false),
        ("p384", raw384.clone(), &pk384, false, true),
        ("p384", bad384, &pk384, false, false),
        ("p384", raw384, &pk256, false, false),
    ];
    for (idx, (curve, sig, pk, strict, expect)) in cases.iter().enumerate() {
        let verdict = if *curve == "p256" {
            verify_p256(msg, sig, pk, *strict)
        } else {
            verify_p384(msg, sig, pk, *strict)
        };
        let valid = matches!(verdict, Ok(true));
        assert_eq!(valid, *expect, "ecdsa_verify case {idx}");
    }
}
