//! Standard base64 (RFC 4648 alphabet, with padding), by way of the `base64`
//! crate.

use vstd::prelude::*;

use base64::engine::general_purpose::{GeneralPurpose, GeneralPurposeConfig};
use base64::{alphabet, Engine};

use crate::text::{in_class, CharClass};

verus! {

#[verifier::external_type_specification]
#[verifier::external_body]
pub struct ExDecodeError(base64::DecodeError);

/// The bytes that lenient standard base64 decoding gives for a text, if any.
pub uninterp spec fn b64_decode_spec(s: Seq<char>) -> Option<Seq<u8>>;

/// The canonical standard base64 text of a byte sequence.
pub uninterp spec fn b64_encode_spec(b: Seq<u8>) -> Seq<char>;

/// The `Display` text of the error that lenient standard base64 decoding
/// gives for a text it refuses.
pub uninterp spec fn b64_error_text(s: Seq<char>) -> Seq<char>;

/// A refusal of the base64 decoder, together with the text it refused.
pub struct B64DecodeError {
    err: base64::DecodeError,
    input: Ghost<Seq<char>>,
}

impl B64DecodeError {
    /// The text whose decoding failed.
    pub closed spec fn input(&self) -> Seq<char> {
        self.input@
    }
}

/// `Engine::decode` on an engine with the standard alphabet, canonical
/// padding required and non-zero trailing (pad) bits permitted. Its result is
/// named, not stated: `Ok` exactly when the name gives bytes, and then those
/// bytes; an error keeps the text it refused.
#[verifier::external_body]
pub(crate) fn b64_decode(s: &str) -> (r: Result<Vec<u8>, B64DecodeError>)
    ensures
        r is Ok <==> b64_decode_spec(s@) is Some,
        r matches Ok(b) ==> b64_decode_spec(s@) == Some(b@),
        r matches Err(e) ==> e.input() == s@,
{
    let cfg = GeneralPurposeConfig::new().with_decode_allow_trailing_bits(true).with_decode_padding_mode(
        base64::engine::DecodePaddingMode::RequireCanonical,
    );
    match GeneralPurpose::new(&alphabet::STANDARD, cfg).decode(s) {
        Ok(b) => Ok(b),
        Err(err) => Err(B64DecodeError { err, input: Ghost(s@) }),
    }
}

/// `DecodeError`'s `Display` text, named over the text whose decoding gave
/// the error.
#[verifier::external_body]
pub(crate) fn decode_error_text(e: &B64DecodeError) -> (r: String)
    ensures
        r@ == b64_error_text(e.input()),
{
    e.err.to_string()
}

/// `STANDARD.encode`: the canonical padded base64 text of `b`. Besides naming
/// the result, the contract states what the crate documents of it: its
/// length, that it uses only the alphabet and `=`, and that decoding it gives
/// `b` back.
#[verifier::external_body]
pub(crate) fn b64_encode(b: &[u8]) -> (r: String)
    ensures
        r@ == b64_encode_spec(b@),
        r@.len() == 4 * ((b@.len() + 2) / 3),
        forall|i: int| 0 <= i < r@.len() ==> in_class(CharClass::Base64Text, #[trigger] r@[i]),
        b64_decode_spec(r@) == Some(b@),
{
    base64::engine::general_purpose::STANDARD.encode(b)
}

} // verus!
