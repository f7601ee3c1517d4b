//! ECDSA signature checks for the suites `ecdsa-p256-sha256` (RFC 9421
//! 3.3.5) and `ecdsa-p384-sha384` (3.3.6).
//!
//! The signature is the raw big-endian `r || s` (each half field-sized), not
//! DER. Public keys come out of band as SEC1 point bytes (compressed or
//! uncompressed) or as hex.
//!
//! Before a signature is accepted: the signature length must match the curve
//! exactly, `r` and `s` must each lie in `[1, n-1]`, the key must be a point
//! on the curve other than the identity, and, when asked for, `s` must be low
//! (canonical).

use vstd::prelude::*;
use vstd::string::StringSliceAdditionalSpecFns;
use vstd::utf8::encode_utf8;

use crate::ecdsa::curves::{
    be_value, p256_key_accepts, p256_key_check, p256_order, p256_point_check, p256_sig_check,
    p256_sig_is_high, p256_verifies, p256_verify, p384_key_accepts, p384_key_check, p384_order,
    p384_point_check, p384_sig_check, p384_sig_is_high, p384_verifies, p384_verify,
    scalars_in_range, sec1_shape_ok, point_error_text, key_rejected_text,
};
use crate::text::concat_str;
use crate::verify::{count_message, count_msg, decode_hex, spec_decode_hex, strip_0x, strip_0x_exec, VerifyError};

verus! {

/// Raised on an ECDSA setup error (bad key or signature shape).
#[derive(Debug, Clone, PartialEq, Eq)]
pub struct ECDSAError(pub String);

impl ECDSAError {
    pub fn new(msg: String) -> (r: Self)
        ensures
            r.0@ == msg@,
    {
        ECDSAError(msg)
    }
}

impl From<ECDSAError> for VerifyError {
    fn from(e: ECDSAError) -> (r: Self) {
        VerifyError(e.0)
    }
}

impl vstd::std_specs::convert::FromSpecImpl<ECDSAError> for VerifyError {
    open spec fn obeys_from_spec() -> bool {
        true
    }

    open spec fn from_spec(v: ECDSAError) -> VerifyError {
        VerifyError(v.0)
    }
}

/// How a public key is supplied: raw SEC1 point bytes or a hex string.
#[derive(Debug, Clone)]
pub enum PublicKeyInput {
    Bytes(Vec<u8>),
    Hex(String),
}

/// A supplied public key, as contracts speak of it.
pub enum KeyInputView {
    Bytes(Seq<u8>),
    Hex(Seq<char>),
}

impl View for PublicKeyInput {
    type V = KeyInputView;

    open spec fn view(&self) -> KeyInputView {
        match self {
            PublicKeyInput::Bytes(b) => KeyInputView::Bytes(b@),
            PublicKeyInput::Hex(s) => KeyInputView::Hex(s@),
        }
    }
}

impl From<Vec<u8>> for PublicKeyInput {
    fn from(b: Vec<u8>) -> (r: Self) {
        PublicKeyInput::Bytes(b)
    }
}

impl vstd::std_specs::convert::FromSpecImpl<Vec<u8>> for PublicKeyInput {
    open spec fn obeys_from_spec() -> bool {
        true
    }

    open spec fn from_spec(v: Vec<u8>) -> PublicKeyInput {
        PublicKeyInput::Bytes(v)
    }
}

/// The key bytes a supplied key stands for: the bytes themselves, or what
/// the hex text (optionally `0x`-prefixed) decodes to; else the message.
pub open spec fn spec_coerce_key(k: KeyInputView) -> Result<Seq<u8>, Seq<char>> {
    match k {
        KeyInputView::Bytes(b) => Ok(b),
        KeyInputView::Hex(h) => match spec_decode_hex(strip_0x(encode_utf8(h))) {
            Ok(b) => Ok(b),
            Err(e) => Err("public_key hex is invalid: "@ + e),
        },
    }
}

/// A fresh vector holding the bytes of `b`.
pub(crate) fn copy_bytes(b: &[u8]) -> (r: Vec<u8>)
    ensures
        r@ == b@,
{
    let mut out: Vec<u8> = Vec::new();
    let mut k: usize = 0;
    while k < b.len()
        invariant
            k <= b@.len(),
            out@ == b@.take(k as int),
        decreases b.len() - k,
    {
        out.push(b[k]);
        assert(b@.take(k + 1) =~= b@.take(k as int).push(b@[k as int]));
        k = k + 1;
    }
    assert(b@.take(k as int) =~= b@);
    out
}

fn coerce_pubkey_bytes(public_key: &PublicKeyInput) -> (r: Result<Vec<u8>, ECDSAError>)
    ensures
        r matches Ok(v) ==> spec_coerce_key(public_key@) == Ok::<Seq<u8>, Seq<char>>(v@),
        r matches Err(e) ==> spec_coerce_key(public_key@) == Err::<Seq<u8>, Seq<char>>(e.0@),
{
    match public_key {
        PublicKeyInput::Hex(s) => {
            let stripped = strip_0x_exec(s.as_str().as_bytes());
            match decode_hex(stripped.as_slice()) {
                Ok(b) => Ok(b),
                Err(e) => Err(ECDSAError::new(concat_str("public_key hex is invalid: ", e.as_str()))),
            }
        },
        PublicKeyInput::Bytes(b) => Ok(copy_bytes(b.as_slice())),
    }
}

/// The error for a key that is no point of the curve: the prefix and the
/// outside error's text.
fn point_error(prefix: &str, text: String) -> (r: ECDSAError)
    ensures
        r.0@ == prefix@ + text@,
{
    ECDSAError::new(concat_str(prefix, text.as_str()))
}

// ---------------------------------------------------------------------------
// P-256
// ---------------------------------------------------------------------------

pub open spec fn p256_point_prefix() -> Seq<char> {
    "public_key is not a valid point on secp256r1: "@
}

/// The verdict on an `ecdsa-p256-sha256` signature over a signing base (its
/// UTF-8 bytes), or the setup error message. `strict` asks for a
/// low `s`.
pub open spec fn spec_verify_p256(base: Seq<u8>, sig: Seq<u8>, key: KeyInputView, strict: bool) -> Result<bool, Seq<char>> {
    if sig.len() != 64 {
        Err(count_msg("secp256r1 signature must be 64 bytes (r||s), got "@, sig.len()))
    } else if !scalars_in_range(sig, 32, p256_order()) {
        Ok(false)
    } else if strict && be_value(sig.subrange(32, 64)) > p256_order() / 2 {
        Ok(false)
    } else {
        match spec_coerce_key(key) {
            Err(e) => Err(e),
            Ok(kb) => if !sec1_shape_ok(kb, 32) {
                Err(p256_point_prefix() + "elliptic curve point encoding error"@)
            } else if !p256_key_accepts(kb) {
                Err(p256_point_prefix() + "signature error"@)
            } else {
                Ok(p256_verifies(kb, base, sig))
            },
        }
    }
}

/// Verifies an `ecdsa-p256-sha256` signature (raw 64-byte `r || s`) over the
/// signing base. `Ok(false)` on a cryptographic mismatch, an out-of-range
/// `r`/`s`, or (with `strict_low_s`) a high `s`; `Err` on a shape error (bad
/// length, invalid key encoding, point off the curve).
pub fn verify_p256(signing_base: &str, signature_bytes: &[u8], public_key: &PublicKeyInput, strict_low_s: bool) -> (r: Result<bool, ECDSAError>)
    ensures
        r matches Ok(b) ==> spec_verify_p256(
            signing_base.spec_bytes(),
            signature_bytes@,
            public_key@,
            strict_low_s,
        ) == Ok::<bool, Seq<char>>(b),
        r matches Err(e) ==> (spec_verify_p256(
            signing_base.spec_bytes(),
            signature_bytes@,
            public_key@,
            strict_low_s,
        ) matches Err(m) && (e.0@ == m)),
{
    if signature_bytes.len() != 64 {
        return Err(ECDSAError::new(count_message(
            "secp256r1 signature must be 64 bytes (r||s), got ",
            signature_bytes.len(),
        )));
    }
    match p256_sig_check(signature_bytes) {
        Ok(()) => {},
        Err(_) => {
            return Ok(false);
        },
    }
    if strict_low_s && p256_sig_is_high(signature_bytes) {
        return Ok(false);
    }
    let key_bytes = match coerce_pubkey_bytes(public_key) {
        Ok(k) => k,
        Err(e) => {
            return Err(e);
        },
    };
    match p256_point_check(key_bytes.as_slice()) {
        Ok(()) => {},
        Err(e) => {
            return Err(point_error("public_key is not a valid point on secp256r1: ", point_error_text(&e)));
        },
    }
    match p256_key_check(key_bytes.as_slice()) {
        Ok(()) => {},
        Err(e) => {
            return Err(point_error("public_key is not a valid point on secp256r1: ", key_rejected_text(&e)));
        },
    }
    Ok(p256_verify(key_bytes.as_slice(), signing_base.as_bytes(), signature_bytes))
}

// ---------------------------------------------------------------------------
// P-384
// ---------------------------------------------------------------------------

pub open spec fn p384_point_prefix() -> Seq<char> {
    "public_key is not a valid point on secp384r1: "@
}

/// The verdict on an `ecdsa-p384-sha384` signature over a signing base (its
/// UTF-8 bytes), or the setup error message. `strict` asks for a
/// low `s`.
pub open spec fn spec_verify_p384(base: Seq<u8>, sig: Seq<u8>, key: KeyInputView, strict: bool) -> Result<bool, Seq<char>> {
    if sig.len() != 96 {
        Err(count_msg("secp384r1 signature must be 96 bytes (r||s), got "@, sig.len()))
    } else if !scalars_in_range(sig, 48, p384_order()) {
        Ok(false)
    } else if strict && be_value(sig.subrange(48, 96)) > p384_order() / 2 {
        Ok(false)
    } else {
        match spec_coerce_key(key) {
            Err(e) => Err(e),
            Ok(kb) => if !sec1_shape_ok(kb, 48) {
                Err(p384_point_prefix() + "elliptic curve point encoding error"@)
            } else if !p384_key_accepts(kb) {
                Err(p384_point_prefix() + "signature error"@)
            } else {
                Ok(p384_verifies(kb, base, sig))
            },
        }
    }
}

/// Verifies an `ecdsa-p384-sha384` signature (raw 96-byte `r || s`) over the
/// signing base. Same contract as [`verify_p256`].
pub fn verify_p384(signing_base: &str, signature_bytes: &[u8], public_key: &PublicKeyInput, strict_low_s: bool) -> (r: Result<bool, ECDSAError>)
    ensures
        r matches Ok(b) ==> spec_verify_p384(
            signing_base.spec_bytes(),
            signature_bytes@,
            public_key@,
            strict_low_s,
        ) == Ok::<bool, Seq<char>>(b),
        r matches Err(e) ==> (spec_verify_p384(
            signing_base.spec_bytes(),
            signature_bytes@,
            public_key@,
            strict_low_s,
        ) matches Err(m) && (e.0@ == m)),
{
    if signature_bytes.len() != 96 {
        return Err(ECDSAError::new(count_message(
            "secp384r1 signature must be 96 bytes (r||s), got ",
            signature_bytes.len(),
        )));
    }
    match p384_sig_check(signature_bytes) {
        Ok(()) => {},
        Err(_) => {
            return Ok(false);
        },
    }
    if strict_low_s && p384_sig_is_high(signature_bytes) {
        return Ok(false);
    }
    let key_bytes = match coerce_pubkey_bytes(public_key) {
        Ok(k) => k,
        Err(e) => {
            return Err(e);
        },
    };
    match p384_point_check(key_bytes.as_slice()) {
        Ok(()) => {},
        Err(e) => {
            return Err(point_error("public_key is not a valid point on secp384r1: ", point_error_text(&e)));
        },
    }
    match p384_key_check(key_bytes.as_slice()) {
        Ok(()) => {},
        Err(e) => {
            return Err(point_error("public_key is not a valid point on secp384r1: ", key_rejected_text(&e)));
        },
    }
    Ok(p384_verify(key_bytes.as_slice(), signing_base.as_bytes(), signature_bytes))
}

// ---------------------------------------------------------------------------
// Laws
// ---------------------------------------------------------------------------

/// Low-s enforcement only ever narrows what verifies: a signature accepted
/// with it is accepted without it, and every setup error is the same either
/// way.
pub proof fn lemma_strict_low_s_narrows(base: Seq<u8>, sig: Seq<u8>, key: KeyInputView)
    ensures
        spec_verify_p256(base, sig, key, true) == Ok::<bool, Seq<char>>(true) ==> spec_verify_p256(
            base,
            sig,
            key,
            false,
        ) == Ok::<bool, Seq<char>>(true),
        spec_verify_p384(base, sig, key, true) == Ok::<bool, Seq<char>>(true) ==> spec_verify_p384(
            base,
            sig,
            key,
            false,
        ) == Ok::<bool, Seq<char>>(true),
        spec_verify_p256(base, sig, key, true) is Err ==> spec_verify_p256(base, sig, key, true)
            == spec_verify_p256(base, sig, key, false),
        spec_verify_p384(base, sig, key, true) is Err ==> spec_verify_p384(base, sig, key, true)
            == spec_verify_p384(base, sig, key, false),
{
}

/// On a signature whose `s` is low, low-s enforcement changes nothing.
pub proof fn lemma_low_s_unaffected(base: Seq<u8>, sig: Seq<u8>, key: KeyInputView)
    ensures
        sig.len() == 64 && be_value(sig.subrange(32, 64)) <= p256_order() / 2 ==> spec_verify_p256(
            base,
            sig,
            key,
            true,
        ) == spec_verify_p256(base, sig, key, false),
        sig.len() == 96 && be_value(sig.subrange(48, 96)) <= p384_order() / 2 ==> spec_verify_p384(
            base,
            sig,
            key,
            true,
        ) == spec_verify_p384(base, sig, key, false),
{
}

} // verus!
