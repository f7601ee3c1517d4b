//! Fixed vectors: exact signing-base bytes, key-gate decisions and
//! Ed25519 verdicts.

use ed25519_dalek::{Signer, SigningKey};

use algovoi_rfc9421_verifier::{
    build_signing_base, check_ed25519_public_key, is_small_order, verify_signature, Mode, ParamValue,
    SigningBaseInput, WeakKeyError,
};

#[test]
fn signing_base_vectors() {
    let mut passed = 0usize;

    let all_derived = SigningBaseInput {
        covered_components: vec![
            "@method".to_string(),
            "@target-uri".to_string(),
            "@scheme".to_string(),
            "@status".to_string(),
            "@path".to_string(),
        ],
        method: Some("Get"),
        target_uri: Some("https://Example.com/A?b=C"),
        scheme: Some("HTTPS"),
        status: Some(-42),
        path: Some("/A"),
        mode: Mode::AlgovoiV0,
        ..Default::default()
    };
    let got = build_signing_base(&all_derived).expect("build signing base");
    assert_eq!(
        got,
        "\"@method\": get\n\"@target-uri\": https://Example.com/A?b=C\n\"@scheme\": https\n\"@status\": -42\n\"@path\": /A"
    );
    passed += 1;

    let params = SigningBaseInput {
        covered_components: vec!["EXPIRES".to_string(), "x-Tag".to_string()],
        headers: vec![
            ("X-TAG".to_string(), "first".to_string()),
            ("x-tag".to_string(), "second".to_string()),
        ],
        parameters: vec![
            ("expires".to_string(), ParamValue::Str("soon".to_string())),
            ("expires".to_string(), ParamValue::Int(1800000000)),
        ],
        mode: Mode::Rfc9421,
        signature_params_raw: Some("(\"expires\" \"x-tag\");expires=1800000000".to_string()),
        ..Default::default()
    };
    let got = build_signing_base(&params).expect("build signing base");
    assert_eq!(
        got,
        "\"expires\": 1800000000\n\"x-tag\": second\n\"@signature-params\": (\"expires\" \"x-tag\");expires=1800000000"
    );
    passed += 1;

    let empty = SigningBaseInput { mode: Mode::AlgovoiV0, ..Default::default() };
    assert_eq!(build_signing_base(&empty).expect("build signing base"), "");
    passed += 1;

    assert_eq!(passed, 3);
}

#[test]
fn keygate_vectors() {
    let mut passed = 0usize;
    let cases: [(&str, Option<WeakKeyError>, bool); 4] = [
        ("0100000000000000000000000000000000000000000000000000000000000000", Some(WeakKeyError::SmallOrder), true),
        ("0000000000000000000000000000000000000000000000000000000000000080", Some(WeakKeyError::SmallOrder), true),
        ("eeffffffffffffffffffffffffffffffffffffffffffffffffffffffffffff7f", Some(WeakKeyError::NotOnCurve), false),
        ("5866666666666666666666666666666666666666666666666666666666666666", None, false),
    ];
    for (idx, (pk_hex, rejected, small)) in cases.iter().enumerate() {
        let pk = hex::decode(pk_hex).expect("hex pk");
        assert_eq!(check_ed25519_public_key(&pk).err(), *rejected, "keygate case {idx} rejection mismatch");
        assert_eq!(is_small_order(&pk), *small, "keygate case {idx} small_order mismatch");
        passed += 1;
    }
    assert_eq!(passed, cases.len());
}

#[test]
fn ed25519_verify_vectors() {
    let mut passed = 0usize;
    let sk = SigningKey::from_bytes(&[11u8; 32]);
    let pk = sk.verifying_key().to_bytes();
    let bases = ["", "\"@method\": post", "\"@authority\": api.algovoi.co.uk\n\"@path\": /pay?x=1"];
    for (idx, base) in bases.iter().enumerate() {
        let sig = sk.sign(base.as_bytes()).to_bytes();
        let got = verify_signature(base, &sig, &pk, "ed25519").expect("verify_signature setup ok");
        assert!(got, "ed25519_verify case {idx} mismatch");
        let other = format!("{base}!");
        let got = verify_signature(&other, &sig, &pk, "ED25519").expect("verify_signature setup ok");
        assert!(!got, "ed25519_verify case {idx} mismatch");
        passed += 1;
    }
    assert_eq!(passed, bases.len());
}
