//! Concrete instances of the library's laws, its exact formulas, and one
//! input for each error it can report.

use base64::Engine;
use ed25519_dalek::{Signer, SigningKey};
use rand_core::OsRng;

use algovoi_rfc9421_verifier::ecdsa::{
    default_allowed, verify_p256, verify_request as ecdsa_verify_request, EcdsaRequestOptions, PublicKeyInput,
};
use algovoi_rfc9421_verifier::text::{i64_to_chars, parse_i64};
use algovoi_rfc9421_verifier::verify::{decode_hex, public_key_bytes, verify_request_at};
use algovoi_rfc9421_verifier::{
    build_signing_base, SigningBaseInput,
    check_ed25519_public_key, check_freshness, compute_content_digest, parse_signature_input, parse_signature_value,
    prepare_request, public_key_from_hex, verify_content_digest, verify_request, verify_signature, FreshnessOptions,
    Mode, ParamValue, VerifyError, VerifyRequestOptions, VerifyResult, WeakKeyError,
};

fn std_b64(bytes: &[u8]) -> String {
    base64::engine::general_purpose::STANDARD.encode(bytes)
}

fn fresh_opts(now: i64) -> FreshnessOptions {
    FreshnessOptions { now, ..Default::default() }
}

// ---------------------------------------------------------------------------
// Decimal integers
// ---------------------------------------------------------------------------

#[test]
fn decimal_rendering_parses_back() {
    for n in [0i64, 7, -7, 1778955520, i64::MAX, i64::MIN] {
        let cs = i64_to_chars(n);
        let text: String = cs.iter().collect();
        assert_eq!(text, n.to_string());
        assert_eq!(parse_i64(&cs), Some(n));
    }
    assert_eq!(parse_i64(&"+12".chars().collect()), Some(12));
    assert_eq!(parse_i64(&"9223372036854775808".chars().collect()), None);
    assert_eq!(parse_i64(&"".chars().collect()), None);
    assert_eq!(parse_i64(&"1 2".chars().collect()), None);
}

// ---------------------------------------------------------------------------
// Content-Digest
// ---------------------------------------------------------------------------

#[test]
fn content_digest_exact_values() {
    assert_eq!(
        compute_content_digest(b"hello world", "SHA-256").unwrap(),
        "sha-256=:uU0nuZNNPgilLlLX2n2r+sSE7+N6U4DukIj3rOLvzek=:"
    );
    assert_eq!(
        compute_content_digest(b"", "sha-512").unwrap(),
        "sha-512=:z4PhNX7vuL3xVChQ1m2AB9Yg5AULVxXcg/SpIdNs6c5H0NE8XYXysP+DGNKHfuwvY7kxvUdBeoGlODJ6+SfaPg==:"
    );
    assert_eq!(
        compute_content_digest(b"x", "md5").unwrap_err().0,
        "unsupported algorithm \"md5\"; supported: [\"sha-256\", \"sha-512\"]"
    );
}

#[test]
fn content_digest_roundtrip_law() {
    for body in [&b""[..], b"hello world", b"\x00\xff\x10"] {
        for alg in ["sha-256", "SHA-512"] {
            let header = compute_content_digest(body, alg).unwrap();
            assert!(verify_content_digest(body, &header, None).is_ok());
            assert!(verify_content_digest(body, &header, Some(alg)).is_ok());
        }
    }
}

#[test]
fn content_digest_error_variants() {
    let body = b"hello world";
    let good = "sha-256=:uU0nuZNNPgilLlLX2n2r+sSE7+N6U4DukIj3rOLvzek=:";
    assert_eq!(
        verify_content_digest(body, "nothing here", None).unwrap_err().0,
        "no valid digest entries in header: \"nothing here\""
    );
    assert_eq!(
        verify_content_digest(body, "md5=:aaaa:", None).unwrap_err().0,
        "no recognized digest algorithm in Content-Digest header; nothing verified"
    );
    assert_eq!(
        verify_content_digest(body, good, Some("sha-512")).unwrap_err().0,
        "required algorithm \"sha-512\" not present in header"
    );
    assert!(verify_content_digest(body, "sha-256=:abc:", None)
        .unwrap_err()
        .0
        .starts_with("digest entry \"sha-256\" is not valid base64: "));
    assert_eq!(
        verify_content_digest(body, "sha-256=:AAB=:", None).unwrap_err().0,
        "digest entry \"sha-256\" is not canonical base64 (non-zero pad bits)"
    );
    let other = compute_content_digest(b"other", "sha-256").unwrap();
    let err = verify_content_digest(body, &other, None).unwrap_err().0;
    assert!(err.starts_with("digest mismatch on sha-256: header claims "));
    assert!(err.ends_with("but body hashes to uU0nuZNNPgilLlLX2n2r+sSE7+N6U4DukIj3rOLvzek="));
    // Unknown entries are skipped; a known one still verifies.
    let mixed = format!("md5=:aaaa:, {good}");
    assert!(verify_content_digest(body, &mixed, Some("SHA-256")).is_ok());
}

// ---------------------------------------------------------------------------
// Parsing
// ---------------------------------------------------------------------------

#[test]
fn signature_input_fields_and_errors() {
    let p = parse_signature_input(r#" sig2=( "@method"  "x-a" );created="12";tag=abc;created=5 "#).unwrap();
    assert_eq!(p.label, "sig2");
    assert_eq!(p.covered_components, vec!["@method", "x-a"]);
    assert_eq!(p.raw, r#"sig2=( "@method"  "x-a" );created="12";tag=abc;created=5"#);
    assert_eq!(p.params_block, r#"( "@method"  "x-a" );created="12";tag=abc;created=5"#);
    assert_eq!(p.parameter("created"), Some(&ParamValue::Int(5)));
    assert_eq!(p.parameter("tag"), Some(&ParamValue::Str("abc".to_string())));
    assert_eq!(p.parameter("nope"), None);
    assert_eq!(parse_signature_input("  ").unwrap_err().0, "empty header value");
    assert_eq!(
        parse_signature_input("9x").unwrap_err().0,
        "no label or covered-components list found at start: \"9x\""
    );
    assert_eq!(parse_signature_input("sig=abc").unwrap_err().0, "no covered-components list found");
}

#[test]
fn signature_value_canonical_law() {
    for n in [0usize, 1, 2, 3, 31, 64] {
        let bytes: Vec<u8> = (0..n).map(|i| (i * 37 % 256) as u8).collect();
        let header = format!("sig=:{}:", std_b64(&bytes));
        let (label, got) = parse_signature_value(&header).unwrap();
        assert_eq!(label, "sig");
        assert_eq!(got, bytes);
    }
    assert_eq!(parse_signature_value("\t").unwrap_err().0, "empty Signature header value");
    assert_eq!(
        parse_signature_value("sig=AAAA").unwrap_err().0,
        "signature value must be wrapped in colons (RFC 8941 byte-sequence form)"
    );
    assert_eq!(
        parse_signature_value("?x").unwrap_err().0,
        "no label or signature-value prefix found at start: \"?x\""
    );
    assert!(parse_signature_value("sig=:A:").unwrap_err().0.starts_with("signature value is not valid base64: "));
    assert_eq!(
        parse_signature_value("sig=:!AAA:").unwrap_err().0,
        "signature value is not valid base64: Invalid symbol 33, offset 0."
    );
    assert_eq!(
        parse_signature_value("sig=:AAB=:").unwrap_err().0,
        "signature value is not canonical base64 (non-zero pad bits)"
    );
}

// ---------------------------------------------------------------------------
// Freshness
// ---------------------------------------------------------------------------

#[test]
fn freshness_rules() {
    let created = |v: i64| vec![("created".to_string(), ParamValue::Int(v))];
    let covered = vec!["@method".to_string(), "\"Created\"".to_string()];
    let none: Vec<String> = Vec::new();

    // Nothing to check.
    let o = FreshnessOptions { enforce_expires: false, ..fresh_opts(100) };
    assert!(check_freshness(&[], &none, &o).is_ok());

    let o = FreshnessOptions { max_age_seconds: Some(10), params_signed: false, ..fresh_opts(100) };
    assert!(check_freshness(&created(95), &covered, &o).is_ok());
    assert_eq!(
        check_freshness(&[], &covered, &o).unwrap_err().0,
        "freshness required but no 'created' parameter present"
    );
    assert_eq!(
        check_freshness(&created(95), &none, &o).unwrap_err().0,
        "freshness required but 'created' is not signed (not a covered component and params are unsigned)"
    );
    assert_eq!(
        check_freshness(&created(89), &covered, &o).unwrap_err().0,
        "signature is older than the maximum allowed age"
    );
    assert_eq!(
        check_freshness(&created(161), &covered, &o).unwrap_err().0,
        "signature 'created' is in the future beyond the allowed skew"
    );
    assert!(check_freshness(&created(160), &covered, &o).is_ok());
    let bad = vec![("created".to_string(), ParamValue::Str("soon".to_string()))];
    assert_eq!(check_freshness(&bad, &covered, &o).unwrap_err().0, "'created' is not an integer: \"soon\"");

    let expires = |v: i64| vec![("expires".to_string(), ParamValue::Int(v))];
    let o = FreshnessOptions { params_signed: true, ..fresh_opts(1000) };
    assert!(check_freshness(&expires(940), &none, &o).is_ok());
    assert_eq!(check_freshness(&expires(939), &none, &o).unwrap_err().0, "signature has expired");
    let o = FreshnessOptions { params_signed: false, ..fresh_opts(1000) };
    assert_eq!(
        check_freshness(&expires(5000), &none, &o).unwrap_err().0,
        "'expires' present but not signed (not a covered component and params are unsigned)"
    );
    // Extreme values do not overflow.
    let o = FreshnessOptions { max_age_seconds: Some(i64::MAX), params_signed: true, ..fresh_opts(i64::MIN) };
    assert!(check_freshness(&created(i64::MIN), &none, &o).is_ok());
}

// ---------------------------------------------------------------------------
// Keys and signatures
// ---------------------------------------------------------------------------

#[test]
fn key_helpers_and_messages() {
    assert_eq!(public_key_bytes(&[1u8; 31]).unwrap_err(), VerifyError::new("Ed25519 public key must be 32 bytes, got 31".to_string()));
    assert_eq!(public_key_bytes(&[2u8; 32]).unwrap(), [2u8; 32]);
    let hex = "0x5866666666666666666666666666666666666666666666666666666666666666";
    assert_eq!(public_key_from_hex(hex).unwrap()[0], 0x58);
    assert_eq!(public_key_from_hex("abc").unwrap_err().0, "public key hex is invalid: odd-length hex string");
    assert_eq!(public_key_from_hex("zz").unwrap_err().0, "public key hex is invalid: invalid hex digit 'z'");
    assert_eq!(
        public_key_from_hex("0xAbCd").unwrap_err().0,
        "Ed25519 public key hex must decode to 32 bytes, got 2"
    );
    assert_eq!(decode_hex(b"0aFf").unwrap(), vec![0x0a, 0xff]);
    assert_eq!(WeakKeyError::SmallOrder.to_string(), "public key is a small-order Ed25519 point");
    assert_eq!(
        WeakKeyError::NotOnCurve.to_string(),
        "public key is not a canonical on-curve Ed25519 point"
    );
}

#[test]
fn verify_signature_errors_and_gate() {
    let sk = SigningKey::from_bytes(&[5u8; 32]);
    let pk = sk.verifying_key().to_bytes();
    let sig = sk.sign(b"base").to_bytes();
    assert_eq!(verify_signature("base", &sig, &pk, "Ed25519"), Ok(true));
    assert_eq!(
        verify_signature("base", &sig, &pk, "rsa").unwrap_err().0,
        "core supports ed25519 only; got \"rsa\""
    );
    assert_eq!(
        verify_signature("base", &sig[..63], &pk, "ed25519").unwrap_err().0,
        "Ed25519 signature must be 64 bytes, got 63"
    );
    assert_eq!(
        verify_signature("base", &sig, &pk[..31], "ed25519").unwrap_err().0,
        "Ed25519 public key must be 32 bytes, got 31"
    );
    // A key that passes the weak-key check is answered with a verdict.
    for seed in [1u8, 2, 3, 200] {
        let k = SigningKey::from_bytes(&[seed; 32]).verifying_key().to_bytes();
        assert!(check_ed25519_public_key(&k).is_ok());
        assert_eq!(verify_signature("base", &sig, &k, "ed25519"), Ok(k == pk));
    }
    // The key gate runs before verification.
    let identity = hex::decode("0100000000000000000000000000000000000000000000000000000000000000").unwrap();
    assert_eq!(check_ed25519_public_key(&identity), Err(WeakKeyError::SmallOrder));
    assert_eq!(
        verify_signature("base", &sig, &identity, "ed25519").unwrap_err().0,
        "public key is a small-order Ed25519 point"
    );
}

// ---------------------------------------------------------------------------
// Request verification
// ---------------------------------------------------------------------------

fn signed_request(seed: u8, with_digest: bool) -> (Vec<(String, String)>, [u8; 32]) {
    let sk = SigningKey::from_bytes(&[seed; 32]);
    let body = b"{\"amount\":1}";
    let digest = compute_content_digest(body, "sha-256").unwrap();
    let params = if with_digest {
        r#"("@method" "@authority" "@path" "content-digest");created=1000;alg="ed25519""#
    } else {
        r#"("@method" "@authority" "@path");created=1000;alg="ed25519""#
    };
    let mut base = format!("\"@method\": POST\n\"@authority\": api.example\n\"@path\": /pay\n");
    if with_digest {
        base.push_str(&format!("\"content-digest\": {digest}\n"));
    }
    base.push_str(&format!("\"@signature-params\": {params}"));
    let sig = sk.sign(base.as_bytes()).to_bytes();
    let headers = vec![
        ("Content-Digest".to_string(), digest),
        ("Signature-Input".to_string(), format!("sig={params}")),
        ("Signature".to_string(), format!("sig=:{}:", std_b64(&sig))),
    ];
    (headers, sk.verifying_key().to_bytes())
}

#[test]
fn verify_request_verdict_shape() {
    let (headers, pk) = signed_request(21, true);
    let body = b"{\"amount\":1}";
    let opts = VerifyRequestOptions { now: Some(1000), ..Default::default() };
    let ok = verify_request("POST", "API.example", "/pay", &headers, body, &pk, &opts);
    assert!(ok.valid && ok.signature_valid && ok.content_digest_valid && ok.errors.is_empty(), "{:?}", ok.errors);
    assert_eq!(ok.label, "sig");
    let at = verify_request_at("POST", "API.example", "/pay", &headers, body, &pk, &opts, 1000);
    assert!(at.valid);

    // Tampered body: exactly one error, not valid.
    let bad = verify_request("POST", "api.example", "/pay", &headers, b"{}", &pk, &opts);
    assert!(!bad.valid && bad.errors.len() == 1);
    assert!(bad.errors[0].starts_with("Content-Digest verification failed: digest mismatch on sha-256"));

    // Stale with a max age.
    let stale = VerifyRequestOptions { now: Some(5000), max_age_seconds: Some(60), ..Default::default() };
    let r = verify_request("POST", "api.example", "/pay", &headers, body, &pk, &stale);
    assert_eq!(r.errors, vec!["Freshness check failed: signature is older than the maximum allowed age".to_string()]);

    // Content-Digest required but not covered.
    let (headers2, pk2) = signed_request(22, false);
    let r = verify_request("POST", "api.example", "/pay", &headers2, body, &pk2, &opts);
    assert_eq!(r.errors, vec!["Content-Digest required but not a covered signature component".to_string()]);

    // Missing headers.
    let r = verify_request("POST", "a", "/", &Vec::new(), b"", &pk, &opts);
    assert_eq!(r.errors, vec!["Signature-Input header missing".to_string()]);
    let only_input = vec![headers[1].clone()];
    let r = verify_request("POST", "a", "/", &only_input, b"", &pk, &opts);
    assert_eq!(r.errors, vec!["Signature header missing".to_string()]);
}

#[test]
fn verify_request_policy_errors() {
    let (headers, pk) = signed_request(23, true);
    let body = b"{\"amount\":1}";
    let tag = VerifyRequestOptions { now: Some(1000), require_tag: true, ..Default::default() };
    let r = verify_request("POST", "api.example", "/pay", &headers, body, &pk, &tag);
    assert_eq!(r.errors, vec!["Signature 'tag' parameter required but absent".to_string()]);
    let expected = VerifyRequestOptions { now: Some(1000), expected_tag: Some("t1"), ..Default::default() };
    let r = verify_request("POST", "api.example", "/pay", &headers, body, &pk, &expected);
    assert_eq!(r.errors, vec!["Signature 'tag' None does not match expected \"t1\"".to_string()]);
    let narrow = VerifyRequestOptions {
        now: Some(1000),
        allowed_algorithms: vec!["rsa-pss-sha512".to_string(), "ecdsa-p256-sha256".to_string()],
        ..Default::default()
    };
    let r = verify_request("POST", "api.example", "/pay", &headers, body, &pk, &narrow);
    assert_eq!(
        r.errors,
        vec!["Signature algorithm \"ed25519\" is not in the allowed set [\"ecdsa-p256-sha256\", \"rsa-pss-sha512\"]".to_string()]
    );
    // A wrong key verifies false.
    let other = SigningKey::from_bytes(&[99u8; 32]).verifying_key().to_bytes();
    let opts = VerifyRequestOptions { now: Some(1000), ..Default::default() };
    let r = verify_request("POST", "api.example", "/pay", &headers, body, &other, &opts);
    assert_eq!(r.errors, vec!["Ed25519 signature does not verify against signing base".to_string()]);
    assert!(!r.signature_valid && r.content_digest_valid);
    // Label mismatch.
    let mut relabelled = headers.clone();
    relabelled[2].1 = relabelled[2].1.replacen("sig=", "other=", 1);
    let r = verify_request("POST", "api.example", "/pay", &relabelled, body, &pk, &opts);
    assert_eq!(r.errors, vec!["Signature label \"other\" does not match Signature-Input label \"sig\"".to_string()]);
}

#[test]
fn prepare_request_ready() {
    let (headers, _) = signed_request(24, true);
    let opts = VerifyRequestOptions { now: Some(1000), ..Default::default() };
    let p = match prepare_request("POST", "api.example", "/pay", &headers, b"{\"amount\":1}", &opts) {
        Ok(p) => p,
        Err(r) => panic!("not ready: {:?}", r.errors),
    };
    assert_eq!(p.alg, "ed25519");
    assert_eq!(p.sig_bytes.len(), 64);
    assert!(p.signing_base.ends_with("\"@signature-params\": (\"@method\" \"@authority\" \"@path\" \"content-digest\");created=1000;alg=\"ed25519\""));
    assert!(p.result.content_digest_valid && !p.result.valid);
}

#[test]
fn verify_result_fail_law() {
    let r = VerifyResult::default();
    assert!(!r.valid && r.errors.is_empty());
    let r = r.fail("one".to_string()).fail("two".to_string());
    assert_eq!(r.errors, vec!["one".to_string(), "two".to_string()]);
    assert!(!r.valid);
    assert_eq!(Mode::parse("rfc9421").unwrap(), Mode::Rfc9421);
    assert_eq!(
        Mode::parse("v1").unwrap_err().0,
        "mode must be 'algovoi-v0' or 'rfc9421', got \"v1\""
    );
}

// ---------------------------------------------------------------------------
// ECDSA request verification
// ---------------------------------------------------------------------------

#[test]
fn ecdsa_request_paths() {
    assert_eq!(default_allowed(), vec!["ed25519", "ecdsa-p256-sha256", "ecdsa-p384-sha384"]);

    // Ed25519 is answered as the core answers it.
    let (headers, pk) = signed_request(25, true);
    let body = b"{\"amount\":1}";
    let mut opts = EcdsaRequestOptions::default();
    opts.inner.now = Some(1000);
    let core_opts = VerifyRequestOptions { now: Some(1000), allowed_algorithms: default_allowed(), ..Default::default() };
    let via_ecdsa = ecdsa_verify_request("POST", "api.example", "/pay", &headers, body, &PublicKeyInput::Bytes(pk.to_vec()), &opts);
    let via_core = verify_request("POST", "api.example", "/pay", &headers, body, &pk, &core_opts);
    assert!(via_ecdsa.valid && via_core.valid);
    let hex_pk: String = pk.iter().map(|b| format!("{b:02x}")).collect();
    let via_hex = ecdsa_verify_request("POST", "api.example", "/pay", &headers, body, &PublicKeyInput::Hex(hex_pk), &opts);
    assert!(via_hex.valid);
    let bad_hex = ecdsa_verify_request("POST", "api.example", "/pay", &headers, body, &PublicKeyInput::Hex("xy".to_string()), &opts);
    assert_eq!(
        bad_hex.errors,
        vec!["Signature verification setup error: public key hex is invalid: invalid hex digit 'x'".to_string()]
    );

    // P-256, with a Content-Digest that is not covered (accepted on this path).
    let sk = p256::ecdsa::SigningKey::random(&mut OsRng);
    let params = r#"("@method" "@path");created=1000;alg="ecdsa-p256-sha256""#;
    let base = format!("\"@method\": GET\n\"@path\": /item\n\"@signature-params\": {params}");
    let sig: p256::ecdsa::Signature = sk.sign(base.as_bytes());
    let digest = compute_content_digest(b"", "sha-256").unwrap();
    let headers = vec![
        ("content-digest".to_string(), digest),
        ("signature-input".to_string(), format!("s1={params}")),
        ("signature".to_string(), format!("s1=:{}:", std_b64(&sig.to_bytes()))),
    ];
    let key = PublicKeyInput::Bytes(sk.verifying_key().to_encoded_point(true).as_bytes().to_vec());
    let r = ecdsa_verify_request("GET", "h", "/item", &headers, b"", &key, &opts);
    assert!(r.valid && r.errors.is_empty(), "{:?}", r.errors);
    assert_eq!(r.signing_base, base);
    let r = ecdsa_verify_request("GET", "h", "/other", &headers, b"", &key, &opts);
    assert_eq!(r.errors, vec!["ECDSA signature does not verify against signing base".to_string()]);
    let bad_key = PublicKeyInput::Bytes(vec![0x04, 1, 2]);
    let r = ecdsa_verify_request("GET", "h", "/item", &headers, b"", &bad_key, &opts);
    assert_eq!(
        r.errors,
        vec!["Signature verification setup error: public_key is not a valid point on secp256r1: elliptic curve point encoding error".to_string()]
    );
    let mut off_curve = vec![0x04];
    off_curve.extend_from_slice(&[0u8; 64]);
    let r = ecdsa_verify_request("GET", "h", "/item", &headers, b"", &PublicKeyInput::Bytes(off_curve), &opts);
    assert_eq!(
        r.errors,
        vec!["Signature verification setup error: public_key is not a valid point on secp256r1: signature error".to_string()]
    );
    // Signature header missing keeps the parsed fields.
    let r = ecdsa_verify_request("GET", "h", "/item", &headers[..2].to_vec(), b"", &key, &opts);
    assert_eq!(r.errors, vec!["Signature header missing".to_string()]);
    assert_eq!(r.label, "s1");
    // An allowed algorithm with no ECDSA verifier.
    let params = r#"("@method");alg="rsa-pss-sha512""#;
    let headers = vec![
        ("signature-input".to_string(), format!("s1={params}")),
        ("signature".to_string(), "s1=:AAAA:".to_string()),
    ];
    let mut wide = EcdsaRequestOptions::default();
    wide.inner.now = Some(1000);
    wide.inner.require_content_digest = false;
    wide.inner.allowed_algorithms.push("RSA-PSS-SHA512".to_string());
    let r = ecdsa_verify_request("GET", "h", "/", &headers, b"", &key, &wide);
    assert_eq!(r.errors, vec!["no ECDSA verifier available for algorithm \"rsa-pss-sha512\"".to_string()]);
    // ECDSAError converts into VerifyError with its message.
    let e = verify_p256("x", &[0u8; 3], &key, false).unwrap_err();
    let v: VerifyError = e.clone().into();
    assert_eq!(v.0, "secp256r1 signature must be 64 bytes (r||s), got 3");
    assert_eq!(v.0, e.0);
}

// ---------------------------------------------------------------------------
// Signing base
// ---------------------------------------------------------------------------

#[test]
fn header_name_case_law() {
    let make = |name: &str| SigningBaseInput {
        covered_components: vec!["X-Pay-Id".to_string(), "@path".to_string()],
        path: Some("/p"),
        headers: vec![(name.to_string(), "42".to_string())],
        mode: Mode::Rfc9421,
        signature_params_raw: Some("(\"x-pay-id\" \"@path\")".to_string()),
        ..Default::default()
    };
    let a = build_signing_base(&make("x-pay-id")).unwrap();
    let b = build_signing_base(&make("X-PAY-ID")).unwrap();
    assert_eq!(a, b);
    assert_eq!(a, "\"x-pay-id\": 42\n\"@path\": /p\n\"@signature-params\": (\"x-pay-id\" \"@path\")");
    assert!(a.ends_with("\"@signature-params\": (\"x-pay-id\" \"@path\")"));
    let missing = build_signing_base(&make("x-other")).unwrap_err();
    assert_eq!(missing.0, "covered header \"X-Pay-Id\" not present in supplied headers");
}
