//! Ed25519 signature verification, by way of `ed25519_dalek`.

use vstd::prelude::*;

use ed25519_dalek::Verifier;

use crate::keycheck::decode_spec;

verus! {

#[verifier::external_type_specification]
#[verifier::external_body]
pub struct ExVerifyingKey(ed25519_dalek::VerifyingKey);

#[verifier::external_type_specification]
#[verifier::external_body]
pub struct ExSignature(ed25519_dalek::Signature);

#[verifier::external_type_specification]
#[verifier::external_body]
pub struct ExSignatureError(ed25519_dalek::SignatureError);

/// Whether `VerifyingKey::from_bytes` accepts a 32-byte encoding.
pub uninterp spec fn ed25519_key_accepts(pk: Seq<u8>) -> bool;

/// Whether `VerifyingKey::verify` accepts signature `sig` over `msg` for the
/// key encoded as `pk`.
pub uninterp spec fn ed25519_verifies(pk: Seq<u8>, msg: Seq<u8>, sig: Seq<u8>) -> bool;

/// A verifying key together with the bytes it was decoded from.
pub struct Ed25519Key {
    key: ed25519_dalek::VerifyingKey,
    bytes: Ghost<Seq<u8>>,
}

impl Ed25519Key {
    pub closed spec fn bytes(&self) -> Seq<u8> {
        self.bytes@
    }
}

/// A signature together with its 64 bytes.
pub struct Ed25519Sig {
    sig: ed25519_dalek::Signature,
    bytes: Ghost<Seq<u8>>,
}

impl Ed25519Sig {
    pub closed spec fn bytes(&self) -> Seq<u8> {
        self.bytes@
    }
}

/// The refusal of `VerifyingKey::from_bytes`.
pub struct KeyDecodeError {
    err: ed25519_dalek::SignatureError,
}

/// `VerifyingKey::from_bytes`: decompresses a 32-byte key. Whether it
/// succeeds is named; the key it gives keeps the bytes it came from. It
/// succeeds on every key that the RFC 8032 decoding of the key gate decodes:
/// `CompressedEdwardsY::decompress` fails only where `sqrt_ratio_i` finds
/// `(y^2 - 1) / (d y^2 + 1)` not to be a square, and a decoded key has a
/// root x of that ratio.
#[verifier::external_body]
pub(crate) fn ed25519_key_from_bytes(b: &[u8; 32]) -> (r: Result<Ed25519Key, KeyDecodeError>)
    ensures
        r is Ok <==> ed25519_key_accepts(b@),
        r matches Ok(k) ==> k.bytes() == b@,
        decode_spec(b@) is Some ==> r is Ok,
{
    match ed25519_dalek::VerifyingKey::from_bytes(b) {
        Ok(key) => Ok(Ed25519Key { key, bytes: Ghost(b@) }),
        Err(err) => Err(KeyDecodeError { err }),
    }
}

/// The `Display` text of the error `VerifyingKey::from_bytes` gives: its only
/// failure is `InternalError::PointDecompression`, which (with the crate's
/// default `std` feature) becomes a `SignatureError` with that source, shown
/// as `signature error: Cannot decompress Edwards point`.
#[verifier::external_body]
pub(crate) fn key_decode_error_text(e: &KeyDecodeError) -> (r: String)
    ensures
        r@ == "signature error: Cannot decompress Edwards point"@,
{
    e.err.to_string()
}

/// `Signature::from_bytes`: wraps 64 signature bytes (it never fails).
#[verifier::external_body]
pub(crate) fn ed25519_sig_from_bytes(b: &[u8; 64]) -> (r: Ed25519Sig)
    ensures
        r.bytes() == b@,
{
    Ed25519Sig { sig: ed25519_dalek::Signature::from_bytes(b), bytes: Ghost(b@) }
}

/// `Verifier::verify` of a verifying key: whether it succeeds is named, as a
/// function of the key's bytes, the message and the signature's bytes.
#[verifier::external_body]
pub(crate) fn ed25519_verify(k: &Ed25519Key, msg: &[u8], sig: &Ed25519Sig) -> (r: bool)
    ensures
        r == ed25519_verifies(k.bytes(), msg@, sig.bytes()),
{
    k.key.verify(msg, &sig.sig).is_ok()
}

} // verus!
