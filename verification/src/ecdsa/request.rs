//! RFC 9421 request verification with ECDSA support.
//!
//! Ed25519 requests go to the core [`crate::verify::verify_request_at`]
//! unchanged. ECDSA requests reuse the core steps (Signature-Input parsing,
//! freshness, Content-Digest, signing base, algorithm allow-list) and add
//! only the ECDSA signature check; unlike the core, they do not ask that a
//! required Content-Digest be a covered component.

use vstd::prelude::*;
use vstd::utf8::encode_utf8;

use crate::clock::current_unix_time;
use crate::ecdsa::curves::{
    p256_key_accepts, p256_order, p256_verifies, p384_key_accepts, p384_order, p384_verifies, scalars_in_range,
    sec1_shape_ok,
};
use crate::ecdsa::verify::{
    copy_bytes, spec_coerce_key, spec_verify_p256, spec_verify_p384, verify_p256, verify_p384, ECDSAError, KeyInputView,
    PublicKeyInput,
};
use crate::parse::{parse_signature_input, spec_parse_signature_input, SigInputView};
use crate::signing_base::{pairs_view, param_lookup, strings_view, ParamValue, ParamView};
use crate::text::{concat_str, debug_str, lower, str_debug, str_eq, str_lower};
use crate::content_digest::spec_verify_content_digest;
use crate::verify::{
    header_nonempty, header_value, lemma_verdict_shape, parsed_result, prefixed,
    prepare_parsed, prepare_parsed_at, public_key_from_hex, result_fits, spec_public_key_from_hex,
    spec_verify_request, verify_request_at as core_verify_request_at, PrepOutcome,
    PreparedRequest, ResultSpec, VerifyRequestOptions, VerifyResult,
};

verus! {

/// Default accepted algorithms: Ed25519 (via the core) plus the ECDSA suites.
pub fn default_allowed() -> (r: Vec<String>)
    ensures
        strings_view(r@) == seq!["ed25519"@, "ecdsa-p256-sha256"@, "ecdsa-p384-sha384"@],
{
    let mut v: Vec<String> = Vec::new();
    v.push(String::from_str("ed25519"));
    v.push(String::from_str("ecdsa-p256-sha256"));
    v.push(String::from_str("ecdsa-p384-sha384"));
    assert(strings_view(v@) =~= seq!["ed25519"@, "ecdsa-p256-sha256"@, "ecdsa-p384-sha384"@]);
    v
}

/// Options for [`verify_request`]: the core's, with the Ed25519 + ECDSA set
/// as the default `allowed_algorithms`, and whether a low `s` is enforced on
/// ECDSA signatures (off by default: standard signers may emit a high `s`
/// and stay RFC 9421 compliant).
pub struct EcdsaRequestOptions<'a> {
    pub inner: VerifyRequestOptions<'a>,
    pub strict_low_s: bool,
}

impl<'a> Default for EcdsaRequestOptions<'a> {
    fn default() -> (r: Self)
        ensures
            r.inner.scheme@ == "https"@,
            r.inner.require_content_digest,
            r.inner.require_algorithm is None,
            r.inner.mode == crate::signing_base::Mode::Rfc9421,
            r.inner.now is None,
            r.inner.max_age_seconds is None,
            r.inner.max_skew_seconds == 60,
            r.inner.enforce_expires,
            !r.inner.require_created,
            r.inner.expected_tag is None,
            !r.inner.require_tag,
            strings_view(r.inner.allowed_algorithms@) == seq![
                "ed25519"@,
                "ecdsa-p256-sha256"@,
                "ecdsa-p384-sha384"@,
            ],
            !r.strict_low_s,
    {
        let mut inner = VerifyRequestOptions::default();
        inner.allowed_algorithms = default_allowed();
        EcdsaRequestOptions { inner, strict_low_s: false }
    }
}

/// A result that failed with message `m`, before any check passed.
pub open spec fn fail_spec(parsed: Option<SigInputView>, m: Seq<char>) -> ResultSpec {
    ResultSpec {
        parsed,
        valid: false,
        signature_valid: false,
        cd_valid: false,
        base: Seq::empty(),
        error: Some(m),
    }
}

/// Whether a request's `alg` parameter names Ed25519 (in any case).
pub open spec fn names_ed25519(alg: Option<ParamView>) -> bool {
    alg matches Some(ParamView::Str(a)) && str_lower(a) == "ed25519"@
}

/// The Ed25519 key bytes a supplied key stands for: the bytes themselves,
/// or the 32 bytes of a hex key; else the message.
pub open spec fn ed25519_key_of(pk: KeyInputView) -> Result<Seq<u8>, Seq<char>> {
    match pk {
        KeyInputView::Bytes(b) => Ok(b),
        KeyInputView::Hex(h) => spec_public_key_from_hex(encode_utf8(h)),
    }
}

/// The verdict of the ECDSA check on a request ready for it.
pub open spec fn ecdsa_verdict(parsed: SigInputView, base: Seq<char>, alg: Seq<char>, sig: Seq<u8>, pk: KeyInputView, strict: bool) -> ResultSpec {
    let ok = ResultSpec {
        parsed: Some(parsed),
        valid: true,
        signature_valid: true,
        cd_valid: true,
        base,
        error: None,
    };
    let bad = |m: Seq<char>| ResultSpec { valid: false, signature_valid: false, error: Some(m), ..ok };
    let verdict = if str_lower(alg) == "ecdsa-p256-sha256"@ {
        Some(spec_verify_p256(encode_utf8(base), sig, pk, strict))
    } else if str_lower(alg) == "ecdsa-p384-sha384"@ {
        Some(spec_verify_p384(encode_utf8(base), sig, pk, strict))
    } else {
        None
    };
    match verdict {
        None => bad(("no ECDSA verifier available for algorithm "@ + str_debug(alg))),
        Some(Ok(true)) => ok,
        Some(Ok(false)) => bad(("ECDSA signature does not verify against signing base"@)),
        Some(Err(m)) => bad(("Signature verification setup error: "@ + m)),
    }
}

/// The result of verifying a request at time `now` with key `pk`; `strict`
/// asks for a low `s` on ECDSA signatures.
pub open spec fn spec_ecdsa_request(method: Seq<char>, authority: Seq<char>, path: Seq<char>, headers: Seq<(Seq<char>, Seq<char>)>, body: Seq<u8>, pk: KeyInputView, o: crate::verify::OptsView, strict: bool, now: i64) -> ResultSpec {
    match header_nonempty(headers, "signature-input"@) {
        None => fail_spec(None, ("Signature-Input header missing"@)),
        Some(si) => match spec_parse_signature_input(si) {
            Err(e) => fail_spec(None, ("Signature-Input parse error: "@ + e)),
            Ok(p) => if names_ed25519(param_lookup(p.params, "alg"@)) {
                match ed25519_key_of(pk) {
                    Err(e) => fail_spec(None, ("Signature verification setup error: "@ + e)),
                    Ok(k) => spec_verify_request(method, authority, path, headers, body, k, o, now),
                }
            } else {
                match header_nonempty(headers, "signature"@) {
                    None => fail_spec(Some(p), ("Signature header missing"@)),
                    Some(sv) => match prepare_parsed(p, sv, method, authority, path, headers, body, o, now, false) {
                        PrepOutcome::Failed(s) => s,
                        PrepOutcome::Ready { parsed, sig, base, alg } => ecdsa_verdict(parsed, base, alg, sig, pk, strict),
                    },
                }
            },
        },
    }
}

/// A verdict is valid only when the signature and the Content-Digest were
/// both found valid, and then it carries no error; an invalid verdict
/// carries exactly one error. Where a Content-Digest is required, a valid
/// verdict means that the header is present and matches the body.
pub proof fn lemma_ecdsa_verdict_shape(method: Seq<char>, authority: Seq<char>, path: Seq<char>, headers: Seq<(Seq<char>, Seq<char>)>, body: Seq<u8>, pk: KeyInputView, o: crate::verify::OptsView, strict: bool, now: i64)
    ensures
        ({
            let s = spec_ecdsa_request(method, authority, path, headers, body, pk, o, strict, now);
            &&& s.valid ==> s.signature_valid && s.cd_valid && s.error is None
            &&& !s.valid ==> s.error is Some
            &&& s.valid && o.require_content_digest ==> (header_nonempty(headers, "content-digest"@) matches Some(
                cd,
            ) && spec_verify_content_digest(body, cd, o.require_algorithm) is Ok)
        }),
{
    match ed25519_key_of(pk) {
        Ok(k) => lemma_verdict_shape(method, authority, path, headers, body, k, o, now),
        Err(_) => {},
    }
}

/// Whether the ECDSA suite named by `alg` accepts `sig` over the signing
/// base `base` for the key bytes that `pk` stands for.
pub open spec fn ecdsa_accepted(base: Seq<char>, alg: Seq<char>, sig: Seq<u8>, pk: KeyInputView) -> bool {
    spec_coerce_key(pk) matches Ok(kb) && {
        ||| str_lower(alg) == "ecdsa-p256-sha256"@ && p256_verifies(kb, encode_utf8(base), sig)
        ||| str_lower(alg) == "ecdsa-p384-sha384"@ && p384_verifies(kb, encode_utf8(base), sig)
    }
}

/// A valid verdict on a request that is not Ed25519 means that its ECDSA
/// suite accepted the signature over the signing base the verdict reports.
pub proof fn lemma_ecdsa_valid_means_verified(method: Seq<char>, authority: Seq<char>, path: Seq<char>, headers: Seq<(Seq<char>, Seq<char>)>, body: Seq<u8>, pk: KeyInputView, o: crate::verify::OptsView, strict: bool, now: i64, p: SigInputView, sv: Seq<char>)
    requires
        header_nonempty(headers, "signature-input"@) matches Some(si) && spec_parse_signature_input(si)
            == Ok::<SigInputView, Seq<char>>(p),
        !names_ed25519(param_lookup(p.params, "alg"@)),
        header_nonempty(headers, "signature"@) == Some(sv),
        spec_ecdsa_request(method, authority, path, headers, body, pk, o, strict, now).valid,
    ensures
        prepare_parsed(p, sv, method, authority, path, headers, body, o, now, false) matches PrepOutcome::Ready {
            sig,
            base,
            alg,
            ..
        } && spec_ecdsa_request(method, authority, path, headers, body, pk, o, strict, now).base == base
            && ecdsa_accepted(base, alg, sig, pk),
{
}

/// The key bytes with which an Ed25519 request is handed to the core: where
/// the Signature-Input header parses and its `alg` names Ed25519, the bytes
/// the supplied key stands for (when it stands for any).
pub open spec fn delegated_key(headers: Seq<(Seq<char>, Seq<char>)>, pk: KeyInputView) -> Option<Seq<u8>> {
    match header_nonempty(headers, "signature-input"@) {
        Some(si) => match spec_parse_signature_input(si) {
            Ok(p) => if names_ed25519(param_lookup(p.params, "alg"@)) {
                match ed25519_key_of(pk) {
                    Ok(k) => Some(k),
                    Err(_) => None,
                }
            } else {
                None
            },
            Err(_) => None,
        },
        None => None,
    }
}

/// An ECDSA request that passes the algorithm-independent steps is decided by
/// the suite its `alg` names (in any case): for `ecdsa-p256-sha256` the
/// verdict is valid exactly when `spec_verify_p256` accepts the signature over
/// the signing base, and for `ecdsa-p384-sha384` exactly when
/// `spec_verify_p384` does.
pub proof fn lemma_ecdsa_suite_decides(method: Seq<char>, authority: Seq<char>, path: Seq<char>, headers: Seq<(Seq<char>, Seq<char>)>, body: Seq<u8>, pk: KeyInputView, o: crate::verify::OptsView, strict: bool, now: i64, p: SigInputView, sv: Seq<char>, parsed: SigInputView, sig: Seq<u8>, base: Seq<char>, alg: Seq<char>)
    requires
        header_nonempty(headers, "signature-input"@) matches Some(si) && spec_parse_signature_input(si)
            == Ok::<SigInputView, Seq<char>>(p),
        !names_ed25519(param_lookup(p.params, "alg"@)),
        header_nonempty(headers, "signature"@) == Some(sv),
        prepare_parsed(p, sv, method, authority, path, headers, body, o, now, false) == (PrepOutcome::Ready {
            parsed,
            sig,
            base,
            alg,
        }),
    ensures
        str_lower(alg) == "ecdsa-p256-sha256"@ ==> spec_ecdsa_request(
            method,
            authority,
            path,
            headers,
            body,
            pk,
            o,
            strict,
            now,
        ).valid == (spec_verify_p256(encode_utf8(base), sig, pk, strict) == Ok::<bool, Seq<char>>(true)),
        str_lower(alg) == "ecdsa-p384-sha384"@ ==> spec_ecdsa_request(
            method,
            authority,
            path,
            headers,
            body,
            pk,
            o,
            strict,
            now,
        ).valid == (spec_verify_p384(encode_utf8(base), sig, pk, strict) == Ok::<bool, Seq<char>>(true)),
{
    reveal_strlit("ecdsa-p256-sha256");
    reveal_strlit("ecdsa-p384-sha384");
    assert("ecdsa-p256-sha256"@[7] != "ecdsa-p384-sha384"@[7]);
}

/// In particular, a P-384 request whose signature is in range and verifies
/// (by `p384_verifies`) under an accepted key, with low-s not enforced, is
/// valid; likewise for P-256.
pub proof fn lemma_ecdsa_accepted_is_valid(method: Seq<char>, authority: Seq<char>, path: Seq<char>, headers: Seq<(Seq<char>, Seq<char>)>, body: Seq<u8>, pk: KeyInputView, o: crate::verify::OptsView, now: i64, p: SigInputView, sv: Seq<char>, parsed: SigInputView, sig: Seq<u8>, base: Seq<char>, alg: Seq<char>, kb: Seq<u8>)
    requires
        header_nonempty(headers, "signature-input"@) matches Some(si) && spec_parse_signature_input(si)
            == Ok::<SigInputView, Seq<char>>(p),
        !names_ed25519(param_lookup(p.params, "alg"@)),
        header_nonempty(headers, "signature"@) == Some(sv),
        prepare_parsed(p, sv, method, authority, path, headers, body, o, now, false) == (PrepOutcome::Ready {
            parsed,
            sig,
            base,
            alg,
        }),
        spec_coerce_key(pk) == Ok::<Seq<u8>, Seq<char>>(kb),
    ensures
        str_lower(alg) == "ecdsa-p384-sha384"@ && scalars_in_range(sig, 48, p384_order()) && sec1_shape_ok(kb, 48)
            && p384_key_accepts(kb) && p384_verifies(kb, encode_utf8(base), sig) ==> spec_ecdsa_request(
            method,
            authority,
            path,
            headers,
            body,
            pk,
            o,
            false,
            now,
        ).valid,
        str_lower(alg) == "ecdsa-p256-sha256"@ && scalars_in_range(sig, 32, p256_order()) && sec1_shape_ok(kb, 32)
            && p256_key_accepts(kb) && p256_verifies(kb, encode_utf8(base), sig) ==> spec_ecdsa_request(
            method,
            authority,
            path,
            headers,
            body,
            pk,
            o,
            false,
            now,
        ).valid,
{
    lemma_ecdsa_suite_decides(method, authority, path, headers, body, pk, o, false, now, p, sv, parsed, sig, base, alg);
}

/// An Ed25519 request is answered exactly as the core verifier answers it,
/// with the key's bytes (or the bytes its hex stands for).
pub proof fn lemma_ed25519_delegates(method: Seq<char>, authority: Seq<char>, path: Seq<char>, headers: Seq<(Seq<char>, Seq<char>)>, body: Seq<u8>, pk: KeyInputView, o: crate::verify::OptsView, strict: bool, now: i64, p: SigInputView, k: Seq<u8>)
    requires
        header_nonempty(headers, "signature-input"@) matches Some(si) && spec_parse_signature_input(si)
            == Ok::<SigInputView, Seq<char>>(p),
        names_ed25519(param_lookup(p.params, "alg"@)),
        ed25519_key_of(pk) == Ok::<Seq<u8>, Seq<char>>(k),
    ensures
        spec_ecdsa_request(method, authority, path, headers, body, pk, o, strict, now) == spec_verify_request(
            method,
            authority,
            path,
            headers,
            body,
            k,
            o,
            now,
        ),
{
}

/// Verifies an RFC 9421 request signed with Ed25519 or ECDSA (P-256/P-384)
/// at time `now`.
pub fn verify_request_at(method: &str, authority: &str, path: &str, headers: &Vec<(String, String)>, body: &[u8], public_key: &PublicKeyInput, opts: &EcdsaRequestOptions, now: i64) -> (r: VerifyResult)
    ensures
        result_fits(
            r,
            spec_ecdsa_request(
                method@,
                authority@,
                path@,
                pairs_view(headers@),
                body@,
                public_key@,
                opts.inner@,
                opts.strict_low_s,
                now,
            ),
        ),
        delegated_key(pairs_view(headers@), public_key@) matches Some(k) ==> result_fits(
            r,
            spec_verify_request(method@, authority@, path@, pairs_view(headers@), body@, k, opts.inner@, now),
        ),
{
    proof {
        if let Some(k) = delegated_key(pairs_view(headers@), public_key@) {
            let si = header_nonempty(pairs_view(headers@), "signature-input"@)->0;
            let p = spec_parse_signature_input(si)->Ok_0;
            lemma_ed25519_delegates(
                method@,
                authority@,
                path@,
                pairs_view(headers@),
                body@,
                public_key@,
                opts.inner@,
                opts.strict_low_s,
                now,
                p,
                k,
            );
        }
    }
    let si_value = match header_value(headers, "signature-input") {
        Some(v) => v,
        None => {
            return VerifyResult::default().fail(String::from_str("Signature-Input header missing"));
        },
    };
    let parsed = match parse_signature_input(si_value.as_str()) {
        Ok(p) => p,
        Err(e) => {
            return VerifyResult::default().fail(prefixed("Signature-Input parse error: ", &e.0));
        },
    };
    let is_ed25519 = match parsed.parameter("alg") {
        Some(ParamValue::Str(a)) => {
            let l = lower(a.as_str());
            str_eq(l.as_str(), "ed25519")
        },
        _ => false,
    };
    if is_ed25519 {
        let pk_bytes: Vec<u8> = match public_key {
            PublicKeyInput::Bytes(b) => copy_bytes(b.as_slice()),
            PublicKeyInput::Hex(s) => match public_key_from_hex(s.as_str()) {
                Ok(k) => copy_bytes(&k),
                Err(e) => {
                    return VerifyResult::default().fail(prefixed("Signature verification setup error: ", &e.0));
                },
            },
        };
        return core_verify_request_at(method, authority, path, headers, body, pk_bytes.as_slice(), &opts.inner, now);
    }
    let s_value = match header_value(headers, "signature") {
        Some(v) => v,
        None => {
            return parsed_result(&parsed).fail(String::from_str("Signature header missing"));
        },
    };
    let prepared = match prepare_parsed_at(parsed, &s_value, method, authority, path, headers, body, &opts.inner, now, false) {
        Ok(p) => p,
        Err(r) => {
            return r;
        },
    };
    let PreparedRequest { parsed, sig_bytes, signing_base, result, alg } = prepared;
    let mut result = result;
    let la = lower(alg.as_str());
    let sig_ok: Result<bool, ECDSAError> = if str_eq(la.as_str(), "ecdsa-p256-sha256") {
        verify_p256(signing_base.as_str(), sig_bytes.as_slice(), public_key, opts.strict_low_s)
    } else if str_eq(la.as_str(), "ecdsa-p384-sha384") {
        verify_p384(signing_base.as_str(), sig_bytes.as_slice(), public_key, opts.strict_low_s)
    } else {
        let d = debug_str(alg.as_str());
        return result.fail(concat_str("no ECDSA verifier available for algorithm ", d.as_str()));
    };
    match sig_ok {
        Ok(true) => {
            result.signature_valid = true;
        },
        Ok(false) => {
            return result.fail(String::from_str("ECDSA signature does not verify against signing base"));
        },
        Err(e) => {
            return result.fail(prefixed("Signature verification setup error: ", &e.0));
        },
    }
    result.valid = result.signature_valid && result.content_digest_valid;
    result
}

/// Verifies an RFC 9421 request signed with Ed25519 or ECDSA (P-256/P-384),
/// at time `opts.inner.now` (the current time when `None`).
pub fn verify_request(method: &str, authority: &str, path: &str, headers: &Vec<(String, String)>, body: &[u8], public_key: &PublicKeyInput, opts: &EcdsaRequestOptions) -> (r: VerifyResult)
    ensures
        opts.inner.now matches Some(t) ==> result_fits(
            r,
            spec_ecdsa_request(
                method@,
                authority@,
                path@,
                pairs_view(headers@),
                body@,
                public_key@,
                opts.inner@,
                opts.strict_low_s,
                t,
            ),
        ),
        exists|t: i64|
            result_fits(
                r,
                spec_ecdsa_request(
                    method@,
                    authority@,
                    path@,
                    pairs_view(headers@),
                    body@,
                    public_key@,
                    opts.inner@,
                    opts.strict_low_s,
                    t,
                ),
            ),
        r.valid ==> r.signature_valid && r.content_digest_valid && r.errors@.len() == 0,
        !r.valid ==> r.errors@.len() == 1,
        opts.inner.now matches Some(t) ==> (delegated_key(pairs_view(headers@), public_key@) matches Some(k)
            ==> result_fits(
            r,
            spec_verify_request(method@, authority@, path@, pairs_view(headers@), body@, k, opts.inner@, t),
        )),
{
    let now = match opts.inner.now {
        Some(t) => t,
        None => current_unix_time(),
    };
    let r = verify_request_at(method, authority, path, headers, body, public_key, opts, now);
    proof {
        lemma_ecdsa_verdict_shape(
            method@,
            authority@,
            path@,
            pairs_view(headers@),
            body@,
            public_key@,
            opts.inner@,
            opts.strict_low_s,
            now,
        );
    }
    r
}

} // verus!
