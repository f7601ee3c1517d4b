//! RFC 9421 + RFC 9530 verification, top level.
//!
//! Two entry points:
//!   - [`verify_signature`]: the caller has already built the signing base.
//!   - [`verify_request`]: parses Signature-Input + Signature, builds the
//!     signing base, verifies the signature and the Content-Digest in one call.
//!
//! This core surface supports Ed25519 only; ECDSA lives in [`crate::ecdsa`],
//! which reuses these primitives.

use vstd::prelude::*;
use vstd::string::StringSliceAdditionalSpecFns;
use vstd::utf8::encode_utf8;

use crate::ed25519::{
    ed25519_key_accepts, ed25519_key_from_bytes, ed25519_sig_from_bytes, ed25519_verifies,
    ed25519_verify, key_decode_error_text,
};
use crate::clock::current_unix_time;
use crate::content_digest::{spec_verify_content_digest, verify_content_digest};
use crate::freshness::{check_freshness, spec_check_freshness, FreshnessOptions};
use crate::keycheck::{check_ed25519_public_key, lemma_key_gate, spec_key_check, WeakKeyError};
use crate::parse::{
    parse_signature_input, parse_signature_value, spec_parse_signature_input,
    spec_parse_signature_value, ParsedSignatureInput, SigInputView,
};
use crate::signing_base::{
    build_signing_base, header_get, header_lookup, pairs_view, param_get, param_lookup, params_view,
    spec_signing_base, strings_view, Mode, ParamValue, ParamView, SbInputView, SigningBaseInput,
};
use crate::text::{
    char_debug, chars_of, trim_chars, trim_class, trim_ws, CharClass, sorted_strings,
    sort_strings, debug_list, list_debug, concat_str, debug_char, debug_str, lower, nat_digits, push_all, push_str,
    str_debug, str_eq, str_lower, string_from_chars, usize_to_chars,
};

verus! {

/// Raised when verification setup is invalid (not when a signature merely
/// fails to verify, which is captured in [`VerifyResult::errors`]).
#[derive(Debug, Clone, PartialEq, Eq)]
pub struct VerifyError(pub String);

impl VerifyError {
    pub fn new(msg: String) -> (r: Self)
        ensures
            r.0@ == msg@,
    {
        VerifyError(msg)
    }

    /// The error that a weak key turns into: its message.
    pub fn from_weak_key(e: WeakKeyError) -> (r: Self)
        ensures
            r.0@ == e.message(),
    {
        VerifyError(e.to_string())
    }
}

// ---------------------------------------------------------------------------
// Keys
// ---------------------------------------------------------------------------

fn to_array32(b: &[u8]) -> (r: [u8; 32])
    requires
        b@.len() == 32,
    ensures
        r@ == b@,
{
    let mut out = [0u8; 32];
    let mut i: usize = 0;
    while i < 32
        invariant
            i <= 32,
            b@.len() == 32,
            out@.len() == 32,
            forall|j: int| 0 <= j < i ==> out@[j] == b@[j],
        decreases 32 - i,
    {
        out[i] = b[i];
        i = i + 1;
    }
    assert(out@ =~= b@);
    out
}

fn to_array64(b: &[u8]) -> (r: [u8; 64])
    requires
        b@.len() == 64,
    ensures
        r@ == b@,
{
    let mut out = [0u8; 64];
    let mut i: usize = 0;
    while i < 64
        invariant
            i <= 64,
            b@.len() == 64,
            out@.len() == 64,
            forall|j: int| 0 <= j < i ==> out@[j] == b@[j],
        decreases 64 - i,
    {
        out[i] = b[i];
        i = i + 1;
    }
    assert(out@ =~= b@);
    out
}

/// `<prefix><n>`: a message ending in a decimal count.
pub open spec fn count_msg(prefix: Seq<char>, n: nat) -> Seq<char> {
    prefix + nat_digits(n)
}

pub(crate) fn count_message(prefix: &str, n: usize) -> (r: String)
    ensures
        r@ == count_msg(prefix@, n as nat),
{
    let mut out = chars_of(prefix);
    let ds = usize_to_chars(n);
    push_all(&mut out, &ds);
    string_from_chars(out.as_slice())
}

/// Validates a raw Ed25519 public key, which must be 32 bytes.
pub fn public_key_bytes(public_key: &[u8]) -> (r: Result<[u8; 32], VerifyError>)
    ensures
        public_key@.len() == 32 <==> r is Ok,
        r matches Ok(k) ==> k@ == public_key@,
        r matches Err(e) ==> e.0@ == count_msg(
            "Ed25519 public key must be 32 bytes, got "@,
            public_key@.len(),
        ),
{
    if public_key.len() != 32 {
        return Err(VerifyError::new(count_message("Ed25519 public key must be 32 bytes, got ", public_key.len())));
    }
    Ok(to_array32(public_key))
}

// ---------------------------------------------------------------------------
// Hex
// ---------------------------------------------------------------------------

/// The value of a hexadecimal digit (either case).
pub open spec fn hex_val(b: u8) -> Option<int> {
    if 48 <= b <= 57 {
        Some(b - 48)
    } else if 97 <= b <= 102 {
        Some(b - 87)
    } else if 65 <= b <= 70 {
        Some(b - 55)
    } else {
        None
    }
}

pub open spec fn bad_digit_msg(b: u8) -> Seq<char> {
    "invalid hex digit "@ + char_debug(b as char)
}

/// The bytes of the digit pairs of `b` from position `i` on, or the message
/// naming the first digit that is not hexadecimal.
pub open spec fn hex_pairs(b: Seq<u8>, i: int) -> Result<Seq<u8>, Seq<char>>
    decreases b.len() - i,
{
    if i < 0 || i + 1 >= b.len() {
        Ok(Seq::empty())
    } else {
        match hex_val(b[i]) {
            None => Err(bad_digit_msg(b[i])),
            Some(h) => match hex_val(b[i + 1]) {
                None => Err(bad_digit_msg(b[i + 1])),
                Some(l) => match hex_pairs(b, i + 2) {
                    Err(e) => Err(e),
                    Ok(rest) => Ok(seq![(h * 16 + l) as u8] + rest),
                },
            },
        }
    }
}

/// The bytes that a hexadecimal text (as bytes) stands for, or the message.
pub open spec fn spec_decode_hex(b: Seq<u8>) -> Result<Seq<u8>, Seq<char>> {
    if b.len() % 2 != 0 {
        Err("odd-length hex string"@)
    } else {
        hex_pairs(b, 0)
    }
}

fn hex_digit(b: u8) -> (r: Option<u8>)
    ensures
        r matches Some(v) ==> hex_val(b) == Some(v as int),
        r is None ==> hex_val(b) is None,
{
    if 48 <= b && b <= 57 {
        Some(b - 48)
    } else if 97 <= b && b <= 102 {
        Some(b - 87)
    } else if 65 <= b && b <= 70 {
        Some(b - 55)
    } else {
        None
    }
}

fn bad_digit_error(b: u8) -> (r: String)
    ensures
        r@ == bad_digit_msg(b),
{
    let d = debug_char(b as char);
    concat_str("invalid hex digit ", d.as_str())
}

/// Decodes hexadecimal text given as bytes.
pub fn decode_hex(s: &[u8]) -> (r: Result<Vec<u8>, String>)
    ensures
        r matches Ok(v) ==> spec_decode_hex(s@) == Ok::<Seq<u8>, Seq<char>>(v@),
        r matches Err(e) ==> spec_decode_hex(s@) == Err::<Seq<u8>, Seq<char>>(e@),
{
    if s.len() % 2 != 0 {
        return Err(String::from_str("odd-length hex string"));
    }
    let mut out: Vec<u8> = Vec::new();
    let mut i: usize = 0;
    while i < s.len()
        invariant
            s@.len() % 2 == 0,
            i % 2 == 0,
            i <= s@.len(),
            hex_pairs(s@, 0) == match hex_pairs(s@, i as int) {
                Ok(rest) => Ok(out@ + rest),
                Err(e) => Err::<Seq<u8>, Seq<char>>(e),
            },
        decreases s.len() - i,
    {
        let hi = match hex_digit(s[i]) {
            Some(v) => v,
            None => {
                return Err(bad_digit_error(s[i]));
            },
        };
        let lo = match hex_digit(s[i + 1]) {
            Some(v) => v,
            None => {
                return Err(bad_digit_error(s[i + 1]));
            },
        };
        let ghost before = out@;
        out.push(hi * 16 + lo);
        proof {
            match hex_pairs(s@, i + 2) {
                Ok(rest) => {
                    assert(before + (seq![(hi * 16 + lo) as u8] + rest) =~= out@ + rest);
                },
                Err(_) => {},
            }
        }
        i = i + 2;
    }
    assert(out@ + Seq::<u8>::empty() =~= out@);
    Ok(out)
}

/// The text without a leading `0x`.
pub open spec fn strip_0x(b: Seq<u8>) -> Seq<u8> {
    if b.len() >= 2 && b[0] == 48 && b[1] == 120 {
        b.skip(2)
    } else {
        b
    }
}

pub(crate) fn strip_0x_exec(b: &[u8]) -> (r: Vec<u8>)
    ensures
        r@ == strip_0x(b@),
{
    let start: usize = if b.len() >= 2 && b[0] == 48 && b[1] == 120 {
        2
    } else {
        0
    };
    let mut out: Vec<u8> = Vec::new();
    let mut k = start;
    while k < b.len()
        invariant
            start <= k <= b@.len(),
            out@ == b@.subrange(start as int, k as int),
        decreases b.len() - k,
    {
        out.push(b[k]);
        k = k + 1;
    }
    assert(b@.skip(start as int) =~= b@.subrange(start as int, b@.len() as int));
    out
}

/// The key that a hex text (optionally `0x`-prefixed) stands for, or the
/// error message.
pub open spec fn spec_public_key_from_hex(b: Seq<u8>) -> Result<Seq<u8>, Seq<char>> {
    match spec_decode_hex(strip_0x(b)) {
        Err(e) => Err("public key hex is invalid: "@ + e),
        Ok(k) => if k.len() != 32 {
            Err(count_msg("Ed25519 public key hex must decode to 32 bytes, got "@, k.len()))
        } else {
            Ok(k)
        },
    }
}

/// Parses a hex (optionally `0x`-prefixed) Ed25519 public key into 32 bytes.
pub fn public_key_from_hex(hex_str: &str) -> (r: Result<[u8; 32], VerifyError>)
    ensures
        r matches Ok(k) ==> spec_public_key_from_hex(hex_str.spec_bytes()) == Ok::<Seq<u8>, Seq<char>>(k@),
        r matches Err(e) ==> spec_public_key_from_hex(hex_str.spec_bytes()) == Err::<Seq<u8>, Seq<char>>(e.0@),
{
    let stripped = strip_0x_exec(hex_str.as_bytes());
    let bytes = match decode_hex(stripped.as_slice()) {
        Ok(b) => b,
        Err(e) => {
            return Err(VerifyError::new(concat_str("public key hex is invalid: ", e.as_str())));
        },
    };
    if bytes.len() != 32 {
        return Err(VerifyError::new(count_message(
            "Ed25519 public key hex must decode to 32 bytes, got ",
            bytes.len(),
        )));
    }
    Ok(to_array32(bytes.as_slice()))
}

/// The byte that the hex digit pair at `j` stands for.
pub open spec fn hex_byte(t: Seq<u8>, j: int) -> u8 {
    (hex_val(t[j])->0 * 16 + hex_val(t[j + 1])->0) as u8
}

proof fn lemma_hex_pairs(b: Seq<u8>, i: int)
    requires
        0 <= i <= b.len(),
        (b.len() - i) % 2 == 0,
    ensures
        hex_pairs(b, i) is Ok <==> forall|k: int| i <= k < b.len() ==> #[trigger] hex_val(b[k]) is Some,
        hex_pairs(b, i) matches Ok(v) ==> v.len() == (b.len() - i) / 2 && forall|j: int|
            0 <= j < v.len() ==> v[j] == #[trigger] hex_byte(b, i + 2 * j),
    decreases b.len() - i,
{
    if i + 1 < b.len() {
        lemma_hex_pairs(b, i + 2);
        if hex_pairs(b, i) is Ok {
            let v = hex_pairs(b, i)->Ok_0;
            let rest = hex_pairs(b, i + 2)->Ok_0;
            assert forall|j: int| 0 <= j < v.len() implies v[j] == #[trigger] hex_byte(b, i + 2 * j) by {
                if j > 0 {
                    assert(v[j] == rest[j - 1]);
                    assert(hex_byte(b, (i + 2) + 2 * (j - 1)) == hex_byte(b, i + 2 * j));
                }
            }
        } else if hex_val(b[i]) is Some && hex_val(b[i + 1]) is Some {
            let k = choose|k: int| i + 2 <= k < b.len() && !(#[trigger] hex_val(b[k]) is Some);
            assert(!(hex_val(b[k]) is Some));
        }
    }
}

/// A hex public key is accepted exactly when, without its `0x`, it is 64
/// hexadecimal digits (either case), and byte `i` of the key is the value of
/// digits `2i` and `2i + 1`.
pub proof fn lemma_public_key_hex_digits(b: Seq<u8>)
    ensures
        spec_public_key_from_hex(b) is Ok <==> strip_0x(b).len() == 64 && forall|k: int|
            0 <= k < 64 ==> #[trigger] hex_val(strip_0x(b)[k]) is Some,
        spec_public_key_from_hex(b) matches Ok(key) ==> key.len() == 32 && forall|i: int|
            0 <= i < 32 ==> key[i] == #[trigger] hex_byte(strip_0x(b), 2 * i),
{
    let t = strip_0x(b);
    if t.len() % 2 == 0 {
        lemma_hex_pairs(t, 0);
        if hex_pairs(t, 0) is Ok {
            let v = hex_pairs(t, 0)->Ok_0;
            assert forall|i: int| 0 <= i < v.len() implies v[i] == #[trigger] hex_byte(t, 2 * i) by {
                assert(hex_byte(t, 0 + 2 * i) == hex_byte(t, 2 * i));
            }
        }
    }
}

// ---------------------------------------------------------------------------
// Signatures
// ---------------------------------------------------------------------------

pub open spec fn invalid_point_prefix() -> Seq<char> {
    "public key is not a valid Ed25519 point: "@
}

/// The verdict on an Ed25519 signature over a signing base (its UTF-8
/// bytes), or the setup error message.
pub open spec fn spec_verify_signature(base: Seq<u8>, sig: Seq<u8>, pk: Seq<u8>, algorithm: Seq<char>) -> Result<bool, Seq<char>> {
    if str_lower(algorithm) != "ed25519"@ {
        Err("core supports ed25519 only; got "@ + str_debug(algorithm))
    } else if sig.len() != 64 {
        Err(count_msg("Ed25519 signature must be 64 bytes, got "@, sig.len()))
    } else if pk.len() != 32 {
        Err(count_msg("Ed25519 public key must be 32 bytes, got "@, pk.len()))
    } else if spec_key_check(pk) is Err {
        Err(spec_key_check(pk)->Err_0.message())
    } else if !ed25519_key_accepts(pk) {
        Err(invalid_point_prefix() + "signature error: Cannot decompress Edwards point"@)
    } else {
        Ok(ed25519_verifies(pk, base, sig))
    }
}

/// Signature verification refuses (`Err`) exactly when the algorithm is not
/// Ed25519 (in any case), the signature is not 64 bytes, the key is not 32
/// bytes, the key gate refuses the key, or `ed25519-dalek` cannot decompress
/// it (which, by [`verify_signature`]'s contract, never happens to a key the
/// gate accepts); otherwise it gives the verdict of `ed25519-dalek`'s
/// verification.
pub proof fn lemma_verify_signature_refusals(base: Seq<u8>, sig: Seq<u8>, pk: Seq<u8>, algorithm: Seq<char>)
    ensures
        spec_verify_signature(base, sig, pk, algorithm) is Err <==> (str_lower(algorithm) != "ed25519"@ || sig.len()
            != 64 || pk.len() != 32 || spec_key_check(pk) is Err || !ed25519_key_accepts(pk)),
        spec_verify_signature(base, sig, pk, algorithm) is Ok ==> spec_verify_signature(base, sig, pk, algorithm)
            == Ok::<bool, Seq<char>>(ed25519_verifies(pk, base, sig)),
{
}

/// Verifies an Ed25519 signature over the signing base: `Ok(true)` on
/// success, `Ok(false)` on a mismatch, `Err` on invalid inputs (wrong
/// algorithm, bad key or signature shape, weak key), and on nothing else.
/// The key gate runs before verification.
pub fn verify_signature(signing_base: &str, signature_bytes: &[u8], public_key: &[u8], algorithm: &str) -> (r:
    Result<bool, VerifyError>)
    ensures
        r matches Ok(b) ==> spec_verify_signature(
            signing_base.spec_bytes(),
            signature_bytes@,
            public_key@,
            algorithm@,
        ) == Ok::<bool, Seq<char>>(b),
        r matches Err(e) ==> (spec_verify_signature(
            signing_base.spec_bytes(),
            signature_bytes@,
            public_key@,
            algorithm@,
        ) matches Err(m) && (e.0@ == m)),
        r matches Ok(_) ==> spec_key_check(public_key@) is Ok,
        r is Err <==> (str_lower(algorithm@) != "ed25519"@ || signature_bytes@.len() != 64 || public_key@.len()
            != 32 || spec_key_check(public_key@) is Err),
{
    let al = lower(algorithm);
    if !str_eq(al.as_str(), "ed25519") {
        let d = debug_str(algorithm);
        return Err(VerifyError::new(concat_str("core supports ed25519 only; got ", d.as_str())));
    }
    if signature_bytes.len() != 64 {
        return Err(VerifyError::new(count_message(
            "Ed25519 signature must be 64 bytes, got ",
            signature_bytes.len(),
        )));
    }
    let pk_bytes = match public_key_bytes(public_key) {
        Ok(k) => k,
        Err(e) => {
            return Err(e);
        },
    };
    match check_ed25519_public_key(&pk_bytes) {
        Ok(()) => {},
        Err(w) => {
            return Err(VerifyError::from_weak_key(w));
        },
    }
    proof {
        lemma_key_gate(pk_bytes@);
    }
    let verifying_key = match ed25519_key_from_bytes(&pk_bytes) {
        Ok(k) => k,
        Err(e) => {
            let text = key_decode_error_text(&e);
            let msg = concat_str("public key is not a valid Ed25519 point: ", text.as_str());
            return Err(VerifyError::new(msg));
        },
    };
    let sig_arr = to_array64(signature_bytes);
    let signature = ed25519_sig_from_bytes(&sig_arr);
    Ok(ed25519_verify(&verifying_key, signing_base.as_bytes(), &signature))
}


// ---------------------------------------------------------------------------
// Results
// ---------------------------------------------------------------------------

/// Result of an RFC 9421 verification. `valid` is true only if every check
/// ran and every check passed.
#[derive(Debug, Clone)]
pub struct VerifyResult {
    pub valid: bool,
    pub signature_valid: bool,
    pub content_digest_valid: bool,
    pub signing_base: String,
    pub covered_components: Vec<String>,
    pub parameters: Vec<(String, ParamValue)>,
    pub label: String,
    pub errors: Vec<String>,
}

impl Default for VerifyResult {
    fn default() -> (r: Self)
        ensures
            result_fits(
                r,
                ResultSpec {
                    parsed: None,
                    valid: false,
                    signature_valid: false,
                    cd_valid: false,
                    base: Seq::empty(),
                    error: None,
                },
            ),
    {
        VerifyResult {
            valid: false,
            signature_valid: false,
            content_digest_valid: false,
            signing_base: String::new(),
            covered_components: Vec::new(),
            parameters: Vec::new(),
            label: String::new(),
            errors: Vec::new(),
        }
    }
}

impl VerifyResult {
    /// Records a failure message, clears `valid`, and returns the result.
    pub fn fail(self, msg: String) -> (r: Self)
        ensures
            r.errors@ == self.errors@.push(msg),
            !r.valid,
            r.signature_valid == self.signature_valid,
            r.content_digest_valid == self.content_digest_valid,
            r.signing_base == self.signing_base,
            r.covered_components == self.covered_components,
            r.parameters == self.parameters,
            r.label == self.label,
    {
        let mut r = self;
        r.errors.push(msg);
        r.valid = false;
        r
    }
}

/// What a verification result holds, as contracts speak of it: the parsed
/// Signature-Input whose label, components and parameters it reports (none
/// before the header parsed), its flags, its signing base, and its error.
pub struct ResultSpec {
    pub parsed: Option<SigInputView>,
    pub valid: bool,
    pub signature_valid: bool,
    pub cd_valid: bool,
    pub base: Seq<char>,
    pub error: Option<Seq<char>>,
}

pub open spec fn result_fits(r: VerifyResult, s: ResultSpec) -> bool {
    &&& r.valid == s.valid
    &&& r.signature_valid == s.signature_valid
    &&& r.content_digest_valid == s.cd_valid
    &&& r.signing_base@ == s.base
    &&& match s.parsed {
        Some(p) => {
            &&& r.label@ == p.label
            &&& strings_view(r.covered_components@) == p.covered
            &&& params_view(r.parameters@) == p.params
        },
        None => {
            &&& r.label@.len() == 0
            &&& r.covered_components@.len() == 0
            &&& r.parameters@.len() == 0
        },
    }
    &&& match s.error {
        None => r.errors@.len() == 0,
        Some(m) => r.errors@.len() == 1 && (r.errors@[0]@ == m),
    }
}

pub(crate) fn prefixed(p: &str, e: &String) -> (r: String)
    ensures
        r@ == p@ + e@,
{
    concat_str(p, e.as_str())
}

// ---------------------------------------------------------------------------
// Request verification
// ---------------------------------------------------------------------------

/// Options for [`verify_request`].
pub struct VerifyRequestOptions<'a> {
    pub scheme: &'a str,
    pub require_content_digest: bool,
    pub require_algorithm: Option<&'a str>,
    pub mode: Mode,
    pub now: Option<i64>,
    pub max_age_seconds: Option<i64>,
    pub max_skew_seconds: i64,
    pub enforce_expires: bool,
    pub require_created: bool,
    pub expected_tag: Option<&'a str>,
    pub require_tag: bool,
    pub allowed_algorithms: Vec<String>,
}

/// The options, as contracts speak of them.
pub struct OptsView {
    pub scheme: Seq<char>,
    pub require_content_digest: bool,
    pub require_algorithm: Option<Seq<char>>,
    pub mode: Mode,
    pub now: Option<i64>,
    pub max_age_seconds: Option<i64>,
    pub max_skew_seconds: i64,
    pub enforce_expires: bool,
    pub require_created: bool,
    pub expected_tag: Option<Seq<char>>,
    pub require_tag: bool,
    pub allowed: Seq<Seq<char>>,
}

impl<'a> View for VerifyRequestOptions<'a> {
    type V = OptsView;

    open spec fn view(&self) -> OptsView {
        OptsView {
            scheme: self.scheme@,
            require_content_digest: self.require_content_digest,
            require_algorithm: match self.require_algorithm {
                Some(a) => Some(a@),
                None => None,
            },
            mode: self.mode,
            now: self.now,
            max_age_seconds: self.max_age_seconds,
            max_skew_seconds: self.max_skew_seconds,
            enforce_expires: self.enforce_expires,
            require_created: self.require_created,
            expected_tag: match self.expected_tag {
                Some(t) => Some(t@),
                None => None,
            },
            require_tag: self.require_tag,
            allowed: strings_view(self.allowed_algorithms@),
        }
    }
}

impl<'a> Default for VerifyRequestOptions<'a> {
    fn default() -> (r: Self)
        ensures
            r.scheme@ == "https"@,
            r.require_content_digest,
            r.require_algorithm is None,
            r.mode == Mode::Rfc9421,
            r.now is None,
            r.max_age_seconds is None,
            r.max_skew_seconds == 60,
            r.enforce_expires,
            !r.require_created,
            r.expected_tag is None,
            !r.require_tag,
            strings_view(r.allowed_algorithms@) == seq!["ed25519"@],
    {
        let mut allowed: Vec<String> = Vec::new();
        allowed.push(String::from_str("ed25519"));
        assert(strings_view(allowed@) =~= seq!["ed25519"@]);
        VerifyRequestOptions {
            scheme: "https",
            require_content_digest: true,
            require_algorithm: None,
            mode: Mode::Rfc9421,
            now: None,
            max_age_seconds: None,
            max_skew_seconds: 60,
            enforce_expires: true,
            require_created: false,
            expected_tag: None,
            require_tag: false,
            allowed_algorithms: allowed,
        }
    }
}

/// A parsed request whose algorithm-independent checks have passed, ready
/// for the algorithm-specific signature verification.
pub struct PreparedRequest {
    pub parsed: ParsedSignatureInput,
    pub sig_bytes: Vec<u8>,
    pub signing_base: String,
    pub result: VerifyResult,
    pub alg: String,
}

/// How the algorithm-independent steps end: ready for the signature check,
/// or failed with the result to return.
pub enum PrepOutcome {
    Ready { parsed: SigInputView, sig: Seq<u8>, base: Seq<char>, alg: Seq<char> },
    Failed(ResultSpec),
}

pub open spec fn failed(parsed: Option<SigInputView>, cd_valid: bool, base: Seq<char>, m: Seq<char>) -> PrepOutcome {
    PrepOutcome::Failed(
        ResultSpec { parsed, valid: false, signature_valid: false, cd_valid, base, error: Some(m) },
    )
}

/// The result a ready request carries before its signature is checked.
pub open spec fn ready_result(parsed: SigInputView, base: Seq<char>) -> ResultSpec {
    ResultSpec {
        parsed: Some(parsed),
        valid: false,
        signature_valid: false,
        cd_valid: true,
        base,
        error: None,
    }
}

pub open spec fn outcome_fits(o: PrepOutcome, r: Result<PreparedRequest, VerifyResult>) -> bool {
    match o {
        PrepOutcome::Ready { parsed, sig, base, alg } => r matches Ok(pr) && {
            &&& pr.parsed@ == parsed
            &&& pr.sig_bytes@ == sig
            &&& pr.signing_base@ == base
            &&& pr.alg@ == alg
            &&& result_fits(pr.result, ready_result(parsed, base))
        },
        PrepOutcome::Failed(s) => r matches Err(res) && result_fits(res, s),
    }
}

/// The header's value when present and not empty.
pub open spec fn header_nonempty(hs: Seq<(Seq<char>, Seq<char>)>, name: Seq<char>) -> Option<Seq<char>> {
    match header_lookup(hs, name) {
        Some(v) => if v.len() > 0 {
            Some(v)
        } else {
            None
        },
        None => None,
    }
}

/// The headers with their names lowercased.
pub open spec fn norm_headers(hs: Seq<(Seq<char>, Seq<char>)>) -> Seq<(Seq<char>, Seq<char>)> {
    hs.map_values(|p: (Seq<char>, Seq<char>)| (str_lower(p.0), p.1))
}

pub open spec fn freshness_opts(o: OptsView, now: i64) -> FreshnessOptions {
    FreshnessOptions {
        now,
        max_age_seconds: o.max_age_seconds,
        max_skew_seconds: o.max_skew_seconds,
        enforce_expires: o.enforce_expires,
        require_created: o.require_created,
        params_signed: o.mode == Mode::Rfc9421,
    }
}

pub open spec fn opt_debug(o: Option<Seq<char>>) -> Seq<char> {
    match o {
        None => "None"@,
        Some(s) => "Some("@ + str_debug(s) + ")"@,
    }
}

pub open spec fn tag_matches(tag: Option<ParamView>, expected: Seq<char>) -> bool {
    tag matches Some(ParamView::Str(s)) && s == expected
}

pub open spec fn tag_msg(tag: Option<ParamView>, expected: Seq<char>) -> Seq<char> {
    "Signature 'tag' "@ + opt_debug(
        match tag {
            Some(v) => Some(v.signing_str()),
            None => None,
        },
    ) + " does not match expected "@ + str_debug(expected)
}

/// Whether `content-digest` is among the covered components (lowercased,
/// trimmed, unquoted).
pub open spec fn covers_content_digest(covered: Seq<Seq<char>>) -> bool {
    exists|i: int|
        0 <= i < covered.len() && trim_class(trim_ws(str_lower(#[trigger] covered[i])), CharClass::Dquote)
            == "content-digest"@
}

pub open spec fn alg_allowed(allowed: Seq<Seq<char>>, alg: Seq<char>) -> bool {
    exists|i: int| 0 <= i < allowed.len() && str_lower(#[trigger] allowed[i]) == str_lower(alg)
}

pub open spec fn alg_not_allowed_msg(alg: Seq<char>, allowed: Seq<Seq<char>>) -> Seq<char> {
    "Signature algorithm "@ + str_debug(alg) + " is not in the allowed set "@ + list_debug(
        sort_strings(allowed),
    )
}

/// The signing-base inputs of a request.
pub open spec fn request_base_input(p: SigInputView, method: Seq<char>, authority: Seq<char>, path: Seq<char>, headers: Seq<(Seq<char>, Seq<char>)>, o: OptsView) -> SbInputView {
    SbInputView {
        covered: p.covered,
        method: Some(method),
        authority: Some(authority),
        path: Some(path),
        target_uri: None,
        scheme: Some(o.scheme),
        status: None,
        headers: norm_headers(headers),
        parameters: p.params,
        mode: o.mode,
        raw: if o.mode == Mode::Rfc9421 {
            Some(p.params_block)
        } else {
            None
        },
    }
}

/// The steps after the signing base: the algorithm pin.
pub open spec fn prepare_alg(p: SigInputView, sig: Seq<u8>, base: Seq<char>, o: OptsView) -> PrepOutcome {
    match param_lookup(p.params, "alg"@) {
        None => failed(Some(p), true, base, ("Signature-Input missing 'alg' parameter"@)),
        Some(ParamView::Int(_)) => failed(
            Some(p),
            true,
            base,
            ("Signature-Input 'alg' parameter must be string, got int"@),
        ),
        Some(ParamView::Str(a)) => if !alg_allowed(o.allowed, a) {
            failed(Some(p), true, base, (alg_not_allowed_msg(a, o.allowed)))
        } else {
            PrepOutcome::Ready { parsed: p, sig, base, alg: a }
        },
    }
}

/// The steps after freshness: the tag policy, the Content-Digest, the
/// signing base, the algorithm pin. `digest_covered` asks that a required
/// Content-Digest also be a covered component.
pub open spec fn prepare_checked(p: SigInputView, sig: Seq<u8>, method: Seq<char>, authority: Seq<char>, path: Seq<char>, headers: Seq<(Seq<char>, Seq<char>)>, body: Seq<u8>, o: OptsView, digest_covered: bool) -> PrepOutcome {
    let tag = param_lookup(p.params, "tag"@);
    if o.require_tag && tag is None {
        failed(Some(p), false, Seq::empty(), ("Signature 'tag' parameter required but absent"@))
    } else if o.expected_tag is Some && !tag_matches(tag, o.expected_tag->0) {
        failed(Some(p), false, Seq::empty(), (tag_msg(tag, o.expected_tag->0)))
    } else if o.require_content_digest && header_nonempty(headers, "content-digest"@) is None {
        failed(Some(p), false, Seq::empty(), ("Content-Digest header required but missing"@))
    } else if o.require_content_digest && digest_covered && !covers_content_digest(p.covered) {
        failed(
            Some(p),
            false,
            Seq::empty(),
            ("Content-Digest required but not a covered signature component"@),
        )
    } else if o.require_content_digest && spec_verify_content_digest(
        body,
        header_nonempty(headers, "content-digest"@)->0,
        o.require_algorithm,
    ) is Err {
        failed(
            Some(p),
            false,
            Seq::empty(),
            ("Content-Digest verification failed: "@ + spec_verify_content_digest(
                    body,
                    header_nonempty(headers, "content-digest"@)->0,
                    o.require_algorithm,
                )->Err_0),
        )
    } else {
        match spec_signing_base(request_base_input(p, method, authority, path, headers, o)) {
            Err(e) => failed(Some(p), true, Seq::empty(), ("Signing-base build error: "@ + e)),
            Ok(base) => prepare_alg(p, sig, base, o),
        }
    }
}

/// The steps after the Signature-Input parsed: the Signature header, the
/// label match, freshness, and on.
pub open spec fn prepare_parsed(p: SigInputView, sv: Seq<char>, method: Seq<char>, authority: Seq<char>, path: Seq<char>, headers: Seq<(Seq<char>, Seq<char>)>, body: Seq<u8>, o: OptsView, now: i64, digest_covered: bool) -> PrepOutcome {
    match spec_parse_signature_value(sv) {
        Err(m) => failed(Some(p), false, Seq::empty(), ("Signature parse error: "@ + m)),
        Ok((sl, sig)) => if sl.len() > 0 && p.label.len() > 0 && sl != p.label {
            failed(
                Some(p),
                false,
                Seq::empty(),
                ("Signature label "@ + str_debug(sl) + " does not match Signature-Input label "@
                        + str_debug(p.label)),
            )
        } else if spec_check_freshness(p.params, p.covered, freshness_opts(o, now)) is Err {
            failed(
                Some(p),
                false,
                Seq::empty(),
                ("Freshness check failed: "@ + spec_check_freshness(
                        p.params,
                        p.covered,
                        freshness_opts(o, now),
                    )->Err_0),
            )
        } else {
            prepare_checked(p, sig, method, authority, path, headers, body, o, digest_covered)
        },
    }
}

/// An expected tag is enforced: when `expected_tag` is `Some(t)`, a request
/// that passes the algorithm-independent steps has, as its last `tag`
/// parameter, the string `t`; a request whose last `tag` is any other string,
/// an integer, or absent does not pass them.
pub proof fn lemma_expected_tag_enforced(p: SigInputView, sv: Seq<char>, method: Seq<char>, authority: Seq<char>, path: Seq<char>, headers: Seq<(Seq<char>, Seq<char>)>, body: Seq<u8>, o: OptsView, now: i64, digest_covered: bool, t: Seq<char>)
    requires
        o.expected_tag == Some(t),
    ensures
        prepare_parsed(p, sv, method, authority, path, headers, body, o, now, digest_covered) is Ready ==> param_lookup(
            p.params,
            "tag"@,
        ) == Some(ParamView::Str(t)),
        param_lookup(p.params, "tag"@) != Some(ParamView::Str(t)) ==> !(prepare_parsed(
            p,
            sv,
            method,
            authority,
            path,
            headers,
            body,
            o,
            now,
            digest_covered,
        ) is Ready),
{
}

/// With an expected tag `t`, a valid verdict on a request means its
/// Signature-Input parsed and its last `tag` parameter is the string `t`.
pub proof fn lemma_valid_verdict_has_expected_tag(method: Seq<char>, authority: Seq<char>, path: Seq<char>, headers: Seq<(Seq<char>, Seq<char>)>, body: Seq<u8>, pk: Seq<u8>, o: OptsView, now: i64, t: Seq<char>)
    requires
        o.expected_tag == Some(t),
        spec_verify_request(method, authority, path, headers, body, pk, o, now).valid,
    ensures
        header_nonempty(headers, "signature-input"@) matches Some(si) && spec_parse_signature_input(si) matches Ok(
            p,
        ) && param_lookup(p.params, "tag"@) == Some(ParamView::Str(t)),
{
    let si = header_nonempty(headers, "signature-input"@)->0;
    let sv = header_nonempty(headers, "signature"@)->0;
    let p = spec_parse_signature_input(si)->Ok_0;
    lemma_expected_tag_enforced(p, sv, method, authority, path, headers, body, o, now, true, t);
}

/// How the algorithm-independent steps of request verification end, at
/// time `now`.
pub open spec fn spec_prepare(method: Seq<char>, authority: Seq<char>, path: Seq<char>, headers: Seq<(Seq<char>, Seq<char>)>, body: Seq<u8>, o: OptsView, now: i64) -> PrepOutcome {
    match header_nonempty(headers, "signature-input"@) {
        None => failed(None, false, Seq::empty(), ("Signature-Input header missing"@)),
        Some(si) => match header_nonempty(headers, "signature"@) {
            None => failed(None, false, Seq::empty(), ("Signature header missing"@)),
            Some(sv) => match spec_parse_signature_input(si) {
                Err(e) => failed(
                    None,
                    false,
                    Seq::empty(),
                    ("Signature-Input parse error: "@ + e),
                ),
                Ok(p) => prepare_parsed(p, sv, method, authority, path, headers, body, o, now, true),
            },
        },
    }
}

pub(crate) fn header_value(hs: &Vec<(String, String)>, name: &str) -> (r: Option<String>)
    ensures
        r matches Some(v) ==> header_nonempty(pairs_view(hs@), name@) == Some(v@),
        r is None ==> header_nonempty(pairs_view(hs@), name@) is None,
{
    let n = String::from_str(name);
    match header_get(hs.as_slice(), &n) {
        Some(v) => {
            if v.as_str().is_empty() {
                None
            } else {
                Some(v)
            }
        },
        None => None,
    }
}

pub(crate) fn normalize_headers(hs: &Vec<(String, String)>) -> (r: Vec<(String, String)>)
    ensures
        pairs_view(r@) == norm_headers(pairs_view(hs@)),
{
    let mut r: Vec<(String, String)> = Vec::new();
    let mut k: usize = 0;
    while k < hs.len()
        invariant
            k <= hs@.len(),
            pairs_view(r@) == norm_headers(pairs_view(hs@)).take(k as int),
        decreases hs.len() - k,
    {
        let ghost before = r@;
        r.push((lower(hs[k].0.as_str()), hs[k].1.clone()));
        assert(pairs_view(r@) =~= pairs_view(before).push((str_lower(hs@[k as int].0@), hs@[k as int].1@)));
        assert(norm_headers(pairs_view(hs@)).take(k + 1) =~= norm_headers(pairs_view(hs@)).take(
            k as int,
        ).push((str_lower(hs@[k as int].0@), hs@[k as int].1@)));
        k = k + 1;
    }
    assert(norm_headers(pairs_view(hs@)).take(k as int) =~= norm_headers(pairs_view(hs@)));
    r
}

pub(crate) fn covers_content_digest_exec(covered: &Vec<String>) -> (b: bool)
    ensures
        b == covers_content_digest(strings_view(covered@)),
{
    let mut k: usize = 0;
    while k < covered.len()
        invariant
            k <= covered@.len(),
            forall|j: int|
                0 <= j < k ==> trim_class(
                    trim_ws(str_lower(#[trigger] strings_view(covered@)[j])),
                    CharClass::Dquote,
                ) != "content-digest"@,
        decreases covered.len() - k,
    {
        let l = lower(covered[k].as_str());
        let lc = chars_of(l.as_str());
        let t = trim_chars(&lc, CharClass::Ws);
        let u = trim_chars(&t, CharClass::Dquote);
        let us = string_from_chars(u.as_slice());
        assert(strings_view(covered@)[k as int] == covered@[k as int]@);
        if str_eq(us.as_str(), "content-digest") {
            return true;
        }
        k = k + 1;
    }
    false
}

pub(crate) fn alg_allowed_exec(allowed: &Vec<String>, alg: &String) -> (b: bool)
    ensures
        b == alg_allowed(strings_view(allowed@), alg@),
{
    let la = lower(alg.as_str());
    let mut k: usize = 0;
    while k < allowed.len()
        invariant
            k <= allowed@.len(),
            la@ == str_lower(alg@),
            forall|j: int| 0 <= j < k ==> str_lower(#[trigger] strings_view(allowed@)[j]) != str_lower(alg@),
        decreases allowed.len() - k,
    {
        let l = lower(allowed[k].as_str());
        assert(strings_view(allowed@)[k as int] == allowed@[k as int]@);
        if l == la {
            return true;
        }
        k = k + 1;
    }
    false
}

pub(crate) fn tag_message(tag: Option<&ParamValue>, expected: &str) -> (r: String)
    ensures
        r@ == tag_msg(
            match tag {
                Some(v) => Some(v@),
                None => None,
            },
            expected@,
        ),
{
    let mut out = chars_of("Signature 'tag' ");
    match tag {
        None => push_str(&mut out, "None"),
        Some(v) => {
            let s = v.as_signing_str();
            let d = debug_str(s.as_str());
            push_str(&mut out, "Some(");
            push_str(&mut out, d.as_str());
            push_str(&mut out, ")");
        },
    }
    push_str(&mut out, " does not match expected ");
    let de = debug_str(expected);
    push_str(&mut out, de.as_str());
    string_from_chars(out.as_slice())
}

pub(crate) fn alg_message(alg: &String, allowed: &Vec<String>) -> (r: String)
    ensures
        r@ == alg_not_allowed_msg(alg@, strings_view(allowed@)),
{
    let mut out = chars_of("Signature algorithm ");
    let d = debug_str(alg.as_str());
    push_str(&mut out, d.as_str());
    push_str(&mut out, " is not in the allowed set ");
    let sorted = sorted_strings(allowed);
    let l = debug_list(&sorted);
    push_all(&mut out, &l);
    assert(allowed@.map_values(|s: String| s@) =~= strings_view(allowed@));
    string_from_chars(out.as_slice())
}

pub(crate) fn label_message(sl: &String, label: &String) -> (r: String)
    ensures
        r@ == "Signature label "@ + str_debug(sl@) + " does not match Signature-Input label "@ + str_debug(label@),
{
    let mut out = chars_of("Signature label ");
    let d1 = debug_str(sl.as_str());
    push_str(&mut out, d1.as_str());
    push_str(&mut out, " does not match Signature-Input label ");
    let d2 = debug_str(label.as_str());
    push_str(&mut out, d2.as_str());
    string_from_chars(out.as_slice())
}

pub(crate) fn clone_params(ps: &Vec<(String, ParamValue)>) -> (r: Vec<(String, ParamValue)>)
    ensures
        params_view(r@) == params_view(ps@),
{
    let mut r: Vec<(String, ParamValue)> = Vec::new();
    let mut k: usize = 0;
    while k < ps.len()
        invariant
            k <= ps@.len(),
            params_view(r@) == params_view(ps@).take(k as int),
        decreases ps.len() - k,
    {
        let ghost before = r@;
        r.push((ps[k].0.clone(), ps[k].1.clone()));
        assert(params_view(r@) =~= params_view(before).push((ps@[k as int].0@, ps@[k as int].1@)));
        assert(params_view(ps@).take(k + 1) =~= params_view(ps@).take(k as int).push(
            (ps@[k as int].0@, ps@[k as int].1@),
        ));
        k = k + 1;
    }
    assert(params_view(ps@).take(k as int) =~= params_view(ps@));
    r
}

pub(crate) fn clone_strings(v: &Vec<String>) -> (r: Vec<String>)
    ensures
        strings_view(r@) == strings_view(v@),
{
    let mut r: Vec<String> = Vec::new();
    let mut k: usize = 0;
    while k < v.len()
        invariant
            k <= v@.len(),
            strings_view(r@) == strings_view(v@).take(k as int),
        decreases v.len() - k,
    {
        let ghost before = r@;
        r.push(v[k].clone());
        assert(strings_view(r@) =~= strings_view(before).push(v@[k as int]@));
        assert(strings_view(v@).take(k + 1) =~= strings_view(v@).take(k as int).push(v@[k as int]@));
        k = k + 1;
    }
    assert(strings_view(v@).take(k as int) =~= strings_view(v@));
    r
}

/// A result reporting the parsed Signature-Input.
pub(crate) fn parsed_result(parsed: &ParsedSignatureInput) -> (r: VerifyResult)
    ensures
        result_fits(
            r,
            ResultSpec {
                parsed: Some(parsed@),
                valid: false,
                signature_valid: false,
                cd_valid: false,
                base: Seq::empty(),
                error: None,
            },
        ),
{
    let mut r = VerifyResult::default();
    r.label = parsed.label.clone();
    r.covered_components = clone_strings(&parsed.covered_components);
    r.parameters = clone_params(&parsed.parameters);
    r
}

/// Runs every algorithm-independent step of request verification at time
/// `now`: locates and parses the headers, checks freshness, the tag policy and
/// the Content-Digest, builds the signing base, and pins the algorithm to the
/// allow-list. Headers are looked up by lowercased name (later pairs win).
pub fn prepare_request_at(method: &str, authority: &str, path: &str, headers: &Vec<(String, String)>, body: &[u8], opts: &VerifyRequestOptions, now: i64) -> (r: Result<PreparedRequest, VerifyResult>)
    ensures
        outcome_fits(
            spec_prepare(method@, authority@, path@, pairs_view(headers@), body@, opts@, now),
            r,
        ),
{
    let result = VerifyResult::default();
    let si_value = match header_value(headers, "signature-input") {
        Some(v) => v,
        None => {
            return Err(result.fail(String::from_str("Signature-Input header missing")));
        },
    };
    let s_value = match header_value(headers, "signature") {
        Some(v) => v,
        None => {
            return Err(result.fail(String::from_str("Signature header missing")));
        },
    };
    let parsed = match parse_signature_input(si_value.as_str()) {
        Ok(p) => p,
        Err(e) => {
            return Err(result.fail(prefixed("Signature-Input parse error: ", &e.0)));
        },
    };
    prepare_parsed_at(parsed, &s_value, method, authority, path, headers, body, opts, now, true)
}

/// The steps of [`prepare_request_at`] after the Signature-Input parsed:
/// the Signature header's value `s_value`, the label match, freshness, the
/// tag policy, the Content-Digest (and, with `digest_covered`, that it is a
/// covered component), the signing base and the algorithm pin.
pub(crate) fn prepare_parsed_at(parsed: ParsedSignatureInput, s_value: &String, method: &str, authority: &str, path: &str, headers: &Vec<(String, String)>, body: &[u8], opts: &VerifyRequestOptions, now: i64, digest_covered: bool) -> (r: Result<PreparedRequest, VerifyResult>)
    ensures
        outcome_fits(
            prepare_parsed(parsed@, s_value@, method@, authority@, path@, pairs_view(headers@), body@, opts@, now, digest_covered),
            r,
        ),
{
    let result = parsed_result(&parsed);
    let (s_label, sig_bytes) = match parse_signature_value(s_value.as_str()) {
        Ok(v) => v,
        Err(e) => {
            return Err(result.fail(prefixed("Signature parse error: ", &e.0)));
        },
    };
    if !s_label.as_str().is_empty() && !parsed.label.as_str().is_empty() && s_label != parsed.label {
        return Err(result.fail(label_message(&s_label, &parsed.label)));
    }
    let fopts = FreshnessOptions {
        now,
        max_age_seconds: opts.max_age_seconds,
        max_skew_seconds: opts.max_skew_seconds,
        enforce_expires: opts.enforce_expires,
        require_created: opts.require_created,
        params_signed: opts.mode == Mode::Rfc9421,
    };
    match check_freshness(parsed.parameters.as_slice(), parsed.covered_components.as_slice(), &fopts) {
        Ok(()) => {},
        Err(e) => {
            return Err(result.fail(prefixed("Freshness check failed: ", &e.0)));
        },
    }
    let tag_value = parsed.parameter("tag");
    if opts.require_tag && tag_value.is_none() {
        return Err(result.fail(String::from_str("Signature 'tag' parameter required but absent")));
    }
    match opts.expected_tag {
        Some(expected) => {
            let matches = match tag_value {
                Some(ParamValue::Str(s)) => str_eq(s.as_str(), expected),
                _ => false,
            };
            if !matches {
                return Err(result.fail(tag_message(tag_value, expected)));
            }
        },
        None => {},
    }
    let mut result = result;
    if opts.require_content_digest {
        let cd_header = match header_value(headers, "content-digest") {
            Some(v) => v,
            None => {
                return Err(result.fail(String::from_str("Content-Digest header required but missing")));
            },
        };
        if digest_covered && !covers_content_digest_exec(&parsed.covered_components) {
            return Err(result.fail(String::from_str(
                "Content-Digest required but not a covered signature component",
            )));
        }
        match verify_content_digest(body, cd_header.as_str(), opts.require_algorithm) {
            Ok(()) => {
                result.content_digest_valid = true;
            },
            Err(e) => {
                return Err(result.fail(prefixed("Content-Digest verification failed: ", &e.0)));
            },
        }
    } else {
        result.content_digest_valid = true;
    }
    let norm = normalize_headers(headers);
    let sb_input = SigningBaseInput {
        covered_components: clone_strings(&parsed.covered_components),
        method: Some(method),
        authority: Some(authority),
        path: Some(path),
        target_uri: None,
        scheme: Some(opts.scheme),
        status: None,
        headers: norm,
        parameters: clone_params(&parsed.parameters),
        mode: opts.mode,
        signature_params_raw: if opts.mode == Mode::Rfc9421 {
            Some(parsed.params_block.clone())
        } else {
            None
        },
    };
    assert(sb_input@ == request_base_input(parsed@, method@, authority@, path@, pairs_view(headers@), opts@));
    let signing_base = match build_signing_base(&sb_input) {
        Ok(sb) => sb,
        Err(e) => {
            return Err(result.fail(prefixed("Signing-base build error: ", &e.0)));
        },
    };
    result.signing_base = signing_base.clone();
    let alg = match parsed.parameter("alg") {
        None => {
            return Err(result.fail(String::from_str("Signature-Input missing 'alg' parameter")));
        },
        Some(ParamValue::Int(_)) => {
            return Err(result.fail(String::from_str(
                "Signature-Input 'alg' parameter must be string, got int",
            )));
        },
        Some(ParamValue::Str(s)) => s.clone(),
    };
    if !alg_allowed_exec(&opts.allowed_algorithms, &alg) {
        return Err(result.fail(alg_message(&alg, &opts.allowed_algorithms)));
    }
    Ok(PreparedRequest { parsed, sig_bytes, signing_base, result, alg })
}

/// Runs every algorithm-independent step of request verification (see
/// [`prepare_request_at`]) at `opts.now`, or at the current time when that
/// is `None`.
pub fn prepare_request(method: &str, authority: &str, path: &str, headers: &Vec<(String, String)>, body: &[u8], opts: &VerifyRequestOptions) -> (r: Result<PreparedRequest, VerifyResult>)
    ensures
        opts.now matches Some(t) ==> outcome_fits(
            spec_prepare(method@, authority@, path@, pairs_view(headers@), body@, opts@, t),
            r,
        ),
        exists|t: i64|
            outcome_fits(
                spec_prepare(method@, authority@, path@, pairs_view(headers@), body@, opts@, t),
                r,
            ),
{
    let now = match opts.now {
        Some(t) => t,
        None => current_unix_time(),
    };
    prepare_request_at(method, authority, path, headers, body, opts, now)
}


/// The result of verifying a request at time `now` with Ed25519 key `pk`.
pub open spec fn spec_verify_request(method: Seq<char>, authority: Seq<char>, path: Seq<char>, headers: Seq<(Seq<char>, Seq<char>)>, body: Seq<u8>, pk: Seq<u8>, o: OptsView, now: i64) -> ResultSpec {
    match spec_prepare(method, authority, path, headers, body, o, now) {
        PrepOutcome::Failed(s) => s,
        PrepOutcome::Ready { parsed, sig, base, alg } => {
            let ok = ResultSpec {
                parsed: Some(parsed),
                valid: true,
                signature_valid: true,
                cd_valid: true,
                base,
                error: None,
            };
            match spec_verify_signature(encode_utf8(base), sig, pk, alg) {
                Ok(true) => ok,
                Ok(false) => ResultSpec {
                    valid: false,
                    signature_valid: false,
                    error: Some(
                        ("Ed25519 signature does not verify against signing base"@),
                    ),
                    ..ok
                },
                Err(m) => ResultSpec {
                    valid: false,
                    signature_valid: false,
                    error: Some("Signature verification setup error: "@ + m),
                    ..ok
                },
            }
        },
    }
}

/// Request verification is the algorithm-independent steps of
/// [`prepare_request_at`] followed by the Ed25519 check: a request that
/// fails those steps is answered with that failed result; one that passes
/// them is answered with the prepared result, its signature verdict recorded
/// (valid exactly when the signature verifies, else one error).
pub proof fn lemma_verify_follows_prepare(method: Seq<char>, authority: Seq<char>, path: Seq<char>, headers: Seq<(Seq<char>, Seq<char>)>, body: Seq<u8>, pk: Seq<u8>, o: OptsView, now: i64)
    ensures
        match spec_prepare(method, authority, path, headers, body, o, now) {
            PrepOutcome::Failed(s) => spec_verify_request(method, authority, path, headers, body, pk, o, now) == s,
            PrepOutcome::Ready { parsed, sig, base, alg } => {
                let v = spec_verify_request(method, authority, path, headers, body, pk, o, now);
                let verdict = spec_verify_signature(encode_utf8(base), sig, pk, alg);
                &&& v.parsed == Some(parsed)
                &&& v.base == base
                &&& v.cd_valid
                &&& v.signature_valid == (verdict == Ok::<bool, Seq<char>>(true))
                &&& v.valid == v.signature_valid
                &&& v.error == match verdict {
                    Ok(true) => None,
                    Ok(false) => Some("Ed25519 signature does not verify against signing base"@),
                    Err(m) => Some("Signature verification setup error: "@ + m),
                }
            },
        },
{
}

/// A verdict is valid only when every check ran and passed, and then it
/// carries no error; an invalid verdict carries exactly one error. When it is
/// valid, the key is not refused as weak, Ed25519 accepts the signature over
/// the signing base in the verdict, and, where a Content-Digest is required,
/// the header is present and matches the body.
pub proof fn lemma_verdict_shape(method: Seq<char>, authority: Seq<char>, path: Seq<char>, headers: Seq<(Seq<char>, Seq<char>)>, body: Seq<u8>, pk: Seq<u8>, o: OptsView, now: i64)
    ensures
        ({
            let s = spec_verify_request(method, authority, path, headers, body, pk, o, now);
            &&& s.valid ==> s.signature_valid && s.cd_valid && s.error is None
            &&& !s.valid ==> s.error is Some
            &&& s.valid ==> spec_key_check(pk) is Ok
            &&& s.valid ==> (spec_prepare(method, authority, path, headers, body, o, now) matches PrepOutcome::Ready {
                sig,
                base,
                ..
            } && s.base == base && ed25519_verifies(pk, encode_utf8(base), sig))
            &&& s.valid && o.require_content_digest ==> (header_nonempty(headers, "content-digest"@) matches Some(
                cd,
            ) && spec_verify_content_digest(body, cd, o.require_algorithm) is Ok)
        }),
{
}

/// Verifies an RFC 9421-signed HTTP request with an Ed25519 key, at time
/// `opts.now` (the current time when `None`).
pub fn verify_request(method: &str, authority: &str, path: &str, headers: &Vec<(String, String)>, body: &[u8], public_key: &[u8], opts: &VerifyRequestOptions) -> (r: VerifyResult)
    ensures
        opts.now matches Some(t) ==> result_fits(
            r,
            spec_verify_request(method@, authority@, path@, pairs_view(headers@), body@, public_key@, opts@, t),
        ),
        exists|t: i64|
            result_fits(
                r,
                spec_verify_request(method@, authority@, path@, pairs_view(headers@), body@, public_key@, opts@, t),
            ),
        r.valid ==> r.signature_valid && r.content_digest_valid && r.errors@.len() == 0,
        !r.valid ==> r.errors@.len() == 1,
        r.valid ==> spec_key_check(public_key@) is Ok,
{
    let now = match opts.now {
        Some(t) => t,
        None => current_unix_time(),
    };
    let r = verify_request_at(method, authority, path, headers, body, public_key, opts, now);
    proof {
        lemma_verdict_shape(method@, authority@, path@, pairs_view(headers@), body@, public_key@, opts@, now);
    }
    r
}

/// Verifies an RFC 9421-signed HTTP request with an Ed25519 key at time
/// `now`.
pub fn verify_request_at(method: &str, authority: &str, path: &str, headers: &Vec<(String, String)>, body: &[u8], public_key: &[u8], opts: &VerifyRequestOptions, now: i64) -> (r: VerifyResult)
    ensures
        result_fits(
            r,
            spec_verify_request(method@, authority@, path@, pairs_view(headers@), body@, public_key@, opts@, now),
        ),
{
    let prepared = match prepare_request_at(method, authority, path, headers, body, opts, now) {
        Ok(p) => p,
        Err(r) => {
            return r;
        },
    };
    let PreparedRequest { parsed, sig_bytes, signing_base, result, alg } = prepared;
    let mut result = result;
    match verify_signature(signing_base.as_str(), sig_bytes.as_slice(), public_key, alg.as_str()) {
        Ok(true) => {
            result.signature_valid = true;
        },
        Ok(false) => {
            return result.fail(String::from_str("Ed25519 signature does not verify against signing base"));
        },
        Err(e) => {
            return result.fail(prefixed("Signature verification setup error: ", &e.0));
        },
    }
    result.valid = result.signature_valid && result.content_digest_valid;
    result
}

} // verus!
