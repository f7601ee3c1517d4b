//! The NIST curves P-256 and P-384, by way of the `p256` and `p384` crates.
//!
//! The wrappers take and give bytes: each call rebuilds the crate's value
//! (signature, point, key) from bytes that an earlier call has accepted.

use vstd::prelude::*;

use p256::ecdsa::signature::Verifier;

verus! {

#[verifier::external_type_specification]
#[verifier::external_body]
pub struct ExSec1Error(sec1::Error);

/// The refusal of `EncodedPoint::from_bytes`.
pub struct PointEncodingError {
    err: sec1::Error,
}

/// The `Display` text of the error `EncodedPoint::from_bytes` gives: every
/// refusal there is `Error::PointEncoding`, shown as
/// `elliptic curve point encoding error`.
#[verifier::external_body]
pub(crate) fn point_error_text(e: &PointEncodingError) -> (r: String)
    ensures
        r@ == "elliptic curve point encoding error"@,
{
    e.err.to_string()
}

/// The refusal of `VerifyingKey::from_encoded_point`.
pub struct KeyRejectedError {
    err: p256::ecdsa::Error,
}

/// The `Display` text of the error `VerifyingKey::from_encoded_point` gives:
/// it is `Error::new()`, with no source, shown as `signature error`.
#[verifier::external_body]
pub(crate) fn key_rejected_text(e: &KeyRejectedError) -> (r: String)
    ensures
        r@ == "signature error"@,
{
    e.err.to_string()
}

/// The unsigned big-endian value of a byte sequence.
pub open spec fn be_value(b: Seq<u8>) -> nat
    decreases b.len(),
{
    if b.len() == 0 {
        0
    } else {
        be_value(b.drop_last()) * 256 + b.last() as nat
    }
}

/// A raw `r || s` signature of `2 * f` bytes whose halves both lie in
/// `[1, n-1]`.
pub open spec fn scalars_in_range(b: Seq<u8>, f: int, n: int) -> bool {
    &&& b.len() == 2 * f
    &&& 1 <= be_value(b.subrange(0, f)) < n
    &&& 1 <= be_value(b.subrange(f, 2 * f)) < n
}

/// The SEC1 shape of a point encoding for field elements of `f` bytes: tag
/// `00` alone (identity), `02`/`03` (compressed) or `05` (compact) with one
/// coordinate, `04` (uncompressed) with two.
pub open spec fn sec1_shape_ok(b: Seq<u8>, f: int) -> bool {
    b.len() > 0 && {
        ||| b[0] == 0 && b.len() == 1
        ||| (b[0] == 2 || b[0] == 3 || b[0] == 5) && b.len() == 1 + f
        ||| b[0] == 4 && b.len() == 1 + 2 * f
    }
}

// ---------------------------------------------------------------------------
// P-256
// ---------------------------------------------------------------------------

/// Whether `VerifyingKey::from_encoded_point` (p256) accepts the SEC1
/// point `point`: it is on the curve and not the identity.
pub uninterp spec fn p256_key_accepts(point: Seq<u8>) -> bool;

/// Whether `Verifier::verify` (p256, hashing with SHA-256) accepts the raw
/// `r || s` signature `sig` over `msg` for the key encoded as `key`.
pub uninterp spec fn p256_verifies(key: Seq<u8>, msg: Seq<u8>, sig: Seq<u8>) -> bool;

/// The order `n` of the P-256 group.
pub open spec fn p256_order() -> int {
    0xffffffff00000000ffffffffffffffffbce6faada7179e84f3b9cac2fc632551int
}

/// `Signature::from_slice` (p256): accepts exactly 64 bytes whose
/// big-endian halves `r` and `s` both lie in `[1, n-1]`.
#[verifier::external_body]
pub(crate) fn p256_sig_check(b: &[u8]) -> (r: Result<(), p256::ecdsa::Error>)
    ensures
        r is Ok <==> scalars_in_range(b@, 32, p256_order()),
{
    match p256::ecdsa::Signature::from_slice(b) {
        Ok(_) => Ok(()),
        Err(e) => Err(e),
    }
}

/// `Signature::normalize_s(..).is_some()` (p256) of the signature the
/// bytes hold: whether `s` is high, greater than `n / 2`.
#[verifier::external_body]
pub(crate) fn p256_sig_is_high(b: &[u8]) -> (r: bool)
    requires
        scalars_in_range(b@, 32, p256_order()),
    ensures
        r == (be_value(b@.subrange(32, 64)) > p256_order() / 2),
{
    let sig = p256::ecdsa::Signature::from_slice(b).expect("checked signature bytes");
    sig.normalize_s().is_some()
}

/// `EncodedPoint::from_bytes` (p256): accepts a SEC1 encoding of the right
/// shape for its tag.
#[verifier::external_body]
pub(crate) fn p256_point_check(b: &[u8]) -> (r: Result<(), PointEncodingError>)
    ensures
        r is Ok <==> sec1_shape_ok(b@, 32),
{
    match p256::EncodedPoint::from_bytes(b) {
        Ok(_) => Ok(()),
        Err(err) => Err(PointEncodingError { err }),
    }
}

/// `VerifyingKey::from_encoded_point` (p256) on the point the bytes encode:
/// whether it succeeds is named.
#[verifier::external_body]
pub(crate) fn p256_key_check(b: &[u8]) -> (r: Result<(), KeyRejectedError>)
    requires
        sec1_shape_ok(b@, 32),
    ensures
        r is Ok <==> p256_key_accepts(b@),
{
    let point = p256::EncodedPoint::from_bytes(b).expect("checked point encoding");
    match p256::ecdsa::VerifyingKey::from_encoded_point(&point) {
        Ok(_) => Ok(()),
        Err(err) => Err(KeyRejectedError { err }),
    }
}

/// `Verifier::verify` (p256) of the key and signature the bytes hold:
/// whether it succeeds is named.
#[verifier::external_body]
pub(crate) fn p256_verify(key: &[u8], msg: &[u8], sig: &[u8]) -> (r: bool)
    requires
        sec1_shape_ok(key@, 32),
        p256_key_accepts(key@),
        scalars_in_range(sig@, 32, p256_order()),
    ensures
        r == p256_verifies(key@, msg@, sig@),
{
    let point = p256::EncodedPoint::from_bytes(key).expect("checked point encoding");
    let vk = p256::ecdsa::VerifyingKey::from_encoded_point(&point).expect("checked key");
    let s = p256::ecdsa::Signature::from_slice(sig).expect("checked signature bytes");
    vk.verify(msg, &s).is_ok()
}

// ---------------------------------------------------------------------------
// P-384
// ---------------------------------------------------------------------------

/// Whether `VerifyingKey::from_encoded_point` (p384) accepts the SEC1
/// point `point`: it is on the curve and not the identity.
pub uninterp spec fn p384_key_accepts(point: Seq<u8>) -> bool;

/// Whether `Verifier::verify` (p384, hashing with SHA-384) accepts the raw
/// `r || s` signature `sig` over `msg` for the key encoded as `key`.
pub uninterp spec fn p384_verifies(key: Seq<u8>, msg: Seq<u8>, sig: Seq<u8>) -> bool;

/// The order `n` of the P-384 group.
pub open spec fn p384_order() -> int {
    0xffffffffffffffffffffffffffffffffffffffffffffffffc7634d81f4372ddf581a0db248b0a77aecec196accc52973int
}

/// `Signature::from_slice` (p384): accepts exactly 96 bytes whose
/// big-endian halves `r` and `s` both lie in `[1, n-1]`.
#[verifier::external_body]
pub(crate) fn p384_sig_check(b: &[u8]) -> (r: Result<(), p384::ecdsa::Error>)
    ensures
        r is Ok <==> scalars_in_range(b@, 48, p384_order()),
{
    match p384::ecdsa::Signature::from_slice(b) {
        Ok(_) => Ok(()),
        Err(e) => Err(e),
    }
}

/// `Signature::normalize_s(..).is_some()` (p384) of the signature the
/// bytes hold: whether `s` is high, greater than `n / 2`.
#[verifier::external_body]
pub(crate) fn p384_sig_is_high(b: &[u8]) -> (r: bool)
    requires
        scalars_in_range(b@, 48, p384_order()),
    ensures
        r == (be_value(b@.subrange(48, 96)) > p384_order() / 2),
{
    let sig = p384::ecdsa::Signature::from_slice(b).expect("checked signature bytes");
    sig.normalize_s().is_some()
}

/// `EncodedPoint::from_bytes` (p384): accepts a SEC1 encoding of the right
/// shape for its tag.
#[verifier::external_body]
pub(crate) fn p384_point_check(b: &[u8]) -> (r: Result<(), PointEncodingError>)
    ensures
        r is Ok <==> sec1_shape_ok(b@, 48),
{
    match p384::EncodedPoint::from_bytes(b) {
        Ok(_) => Ok(()),
        Err(err) => Err(PointEncodingError { err }),
    }
}

/// `VerifyingKey::from_encoded_point` (p384) on the point the bytes encode:
/// whether it succeeds is named.
#[verifier::external_body]
pub(crate) fn p384_key_check(b: &[u8]) -> (r: Result<(), KeyRejectedError>)
    requires
        sec1_shape_ok(b@, 48),
    ensures
        r is Ok <==> p384_key_accepts(b@),
{
    let point = p384::EncodedPoint::from_bytes(b).expect("checked point encoding");
    match p384::ecdsa::VerifyingKey::from_encoded_point(&point) {
        Ok(_) => Ok(()),
        Err(err) => Err(KeyRejectedError { err }),
    }
}

/// `Verifier::verify` (p384) of the key and signature the bytes hold:
/// whether it succeeds is named.
#[verifier::external_body]
pub(crate) fn p384_verify(key: &[u8], msg: &[u8], sig: &[u8]) -> (r: bool)
    requires
        sec1_shape_ok(key@, 48),
        p384_key_accepts(key@),
        scalars_in_range(sig@, 48, p384_order()),
    ensures
        r == p384_verifies(key@, msg@, sig@),
{
    let point = p384::EncodedPoint::from_bytes(key).expect("checked point encoding");
    let vk = p384::ecdsa::VerifyingKey::from_encoded_point(&point).expect("checked key");
    let s = p384::ecdsa::Signature::from_slice(sig).expect("checked signature bytes");
    vk.verify(msg, &s).is_ok()
}

} // verus!
