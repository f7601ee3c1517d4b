//! ECDSA parity: vectors made with the `p256` / `p384` signers (valid and
//! tampered), checked through `verify_p256` / `verify_p384` with the key as
//! uncompressed SEC1 bytes.

use p256::ecdsa::signature::Signer;
use rand_core::OsRng;

use algovoi_rfc9421_verifier::ecdsa::{verify_p256, verify_p384, ECDSAError, PublicKeyInput};

struct Vector {
    msg: String,
    pub_uncompressed: Vec<u8>,
    sig_raw: Vec<u8>,
    expect_valid: bool,
}

fn p256_vectors() -> Vec<Vector> {
    let mut out = Vec::new();
    for i in 0..4 {
        let sk = p256::ecdsa::SigningKey::random(&mut OsRng);
        let msg = format!("\"@method\": POST\n\"@path\": /pay/{i}");
        let sig: p256::ecdsa::Signature = sk.sign(msg.as_bytes());
        let pk = sk.verifying_key().to_encoded_point(false).as_bytes().to_vec();
        let raw = sig.to_bytes().to_vec();
        let mut bad = raw.clone();
        bad[63 - i] ^= 0x04;
        out.push(Vector { msg: msg.clone(), pub_uncompressed: pk.clone(), sig_raw: raw, expect_valid: true });
        out.push(Vector { msg, pub_uncompressed: pk, sig_raw: bad, expect_valid: false });
    }
    out
}

fn p384_vectors() -> Vec<Vector> {
    let mut out = Vec::new();
    for i in 0..4 {
        let sk = p384::ecdsa::SigningKey::random(&mut OsRng);
        let msg = format!("\"@method\": GET\n\"@path\": /item/{i}");
        let sig: p384::ecdsa::Signature = sk.sign(msg.as_bytes());
        let pk = sk.verifying_key().to_encoded_point(false).as_bytes().to_vec();
        let raw = sig.to_bytes().to_vec();
        let tampered_msg = format!("{msg}?");
        out.push(Vector { msg, pub_uncompressed: pk.clone(), sig_raw: raw.clone(), expect_valid: true });
        out.push(Vector { msg: tampered_msg, pub_uncompressed: pk, sig_raw: raw, expect_valid: false });
    }
    out
}

fn run_vectors(
    vectors: &[Vector],
    verify: impl Fn(&str, &[u8], &PublicKeyInput, bool) -> Result<bool, ECDSAError>,
    label: &str,
) -> (usize, usize) {
    let total = vectors.len();
    let mut passed = 0usize;
    for (i, v) in vectors.iter().enumerate() {
        let pk = PublicKeyInput::Bytes(v.pub_uncompressed.clone());
        let got = match verify(&v.msg, &v.sig_raw, &pk, false) {
            Ok(b) => b,
            Err(e) => panic!("{label}[{i}]: unexpected setup error: {e:?}"),
        };
        assert_eq!(got, v.expect_valid, "{label}[{i}]: verify returned {got}, expected {}", v.expect_valid);
        passed += 1;
    }
    (passed, total)
}

#[test]
fn shared_vectors_cross_language_parity() {
    let p256 = p256_vectors();
    let p384 = p384_vectors();
    let (p256_pass, p256_total) = run_vectors(&p256, verify_p256, "p256");
    let (p384_pass, p384_total) = run_vectors(&p384, verify_p384, "p384");
    println!("shared_vectors: p256 {p256_pass}/{p256_total}, p384 {p384_pass}/{p384_total}");
    assert_eq!(p256_pass, p256_total, "all p256 shared vectors must match");
    assert_eq!(p384_pass, p384_total, "all p384 shared vectors must match");
}
