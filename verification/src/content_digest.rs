//! RFC 9530 Content-Digest field. Supports SHA-256 (mandatory) and SHA-512
//! (recommended); the digest is computed over the message body bytes verbatim.
//!
//! A header holds entries `<algo>=:<base64>:`, found left to right with the
//! pattern `([a-z0-9-]+)=:([A-Za-z0-9+/=]+):`.

use vstd::prelude::*;

use sha2::{Digest, Sha256, Sha512};

use crate::b64::{b64_decode, b64_decode_spec, b64_encode, b64_encode_spec, b64_error_text, decode_error_text};
use crate::text::{
    all_ascii, ascii_lower, lemma_run_end_unique, chars_of, concat_str, debug_str, in_class, lemma_run_end, lower, push_all, push_str, run_end,
    scan, str_debug, str_eq, str_lower, string_from_chars, sub_chars, CharClass,
    class_has,
};

verus! {

/// Raised when content-digest verification fails.
#[derive(Debug, Clone, PartialEq, Eq)]
pub struct ContentDigestError(pub String);

impl ContentDigestError {
    pub fn new(msg: String) -> (r: Self)
        ensures
            r.0@ == msg@,
    {
        ContentDigestError(msg)
    }
}

/// The SHA-256 digest of a byte sequence.
pub uninterp spec fn sha256_spec(b: Seq<u8>) -> Seq<u8>;

/// The SHA-512 digest of a byte sequence.
pub uninterp spec fn sha512_spec(b: Seq<u8>) -> Seq<u8>;

/// `Sha256::digest`: the 32-byte SHA-256 digest of `body`.
#[verifier::external_body]
pub(crate) fn sha256_digest(body: &[u8]) -> (r: Vec<u8>)
    ensures
        r@ == sha256_spec(body@),
        r@.len() == 32,
{
    Sha256::digest(body).to_vec()
}

/// `Sha512::digest`: the 64-byte SHA-512 digest of `body`.
#[verifier::external_body]
pub(crate) fn sha512_digest(body: &[u8]) -> (r: Vec<u8>)
    ensures
        r@ == sha512_spec(body@),
        r@.len() == 64,
{
    Sha512::digest(body).to_vec()
}

pub open spec fn spec_is_supported(algo: Seq<char>) -> bool {
    algo == "sha-256"@ || algo == "sha-512"@
}

/// The digest that a supported algorithm gives for `body`.
pub open spec fn digest_spec(algo: Seq<char>, body: Seq<u8>) -> Seq<u8> {
    if algo == "sha-256"@ {
        sha256_spec(body)
    } else {
        sha512_spec(body)
    }
}

fn is_supported(algo: &str) -> (b: bool)
    ensures
        b == spec_is_supported(algo@),
{
    str_eq(algo, "sha-256") || str_eq(algo, "sha-512")
}

fn digest_of(algo: &str, body: &[u8]) -> (r: Vec<u8>)
    requires
        spec_is_supported(algo@),
    ensures
        r@ == digest_spec(algo@, body@),
        r@.len() > 0,
{
    if str_eq(algo, "sha-256") {
        sha256_digest(body)
    } else {
        sha512_digest(body)
    }
}

// ---------------------------------------------------------------------------
// Header grammar
// ---------------------------------------------------------------------------

/// An entry match starting exactly at `i`: the end of the algorithm name and
/// the end of the base64 text (the closing colon follows it).
pub open spec fn entry_at(h: Seq<char>, i: int) -> Option<(int, int)> {
    if 0 <= i < h.len() && in_class(CharClass::DigestAlgo, h[i]) {
        let ae = run_end(h, i, CharClass::DigestAlgo);
        if i < ae && ae < h.len() && h.len() - ae >= 2 && h[ae] == '=' && h[ae + 1] == ':' {
            let ve = run_end(h, ae + 2, CharClass::Base64Text);
            if ae + 2 < ve < h.len() && h[ve] == ':' {
                Some((ae, ve))
            } else {
                None
            }
        } else {
            None
        }
    } else {
        None
    }
}

pub proof fn lemma_entry_at(h: Seq<char>, i: int)
    requires
        0 <= i < h.len(),
    ensures
        entry_at(h, i) matches Some((ae, ve)) ==> i < ae && ae + 2 < ve < h.len(),
{
    if in_class(CharClass::DigestAlgo, h[i]) {
        lemma_run_end(h, i, CharClass::DigestAlgo);
        let ae = run_end(h, i, CharClass::DigestAlgo);
        if i < ae && ae < h.len() && h.len() - ae >= 2 && h[ae] == '=' && h[ae + 1] == ':' {
            lemma_run_end(h, ae + 2, CharClass::Base64Text);
        }
    }
}

/// Every entry in `h` from position `i` on, left to right: algorithm names
/// and base64 texts.
pub open spec fn entries_from(h: Seq<char>, i: int) -> Seq<(Seq<char>, Seq<char>)>
    decreases h.len() - i,
{
    if i < 0 || i >= h.len() {
        Seq::empty()
    } else {
        proof {
            lemma_entry_at(h, i);
        }
        match entry_at(h, i) {
            Some((ae, ve)) => seq![(h.subrange(i, ae), h.subrange(ae + 2, ve))] + entries_from(
                h,
                ve + 1,
            ),
            None => entries_from(h, i + 1),
        }
    }
}

fn entry_at_exec(h: &Vec<char>, i: usize) -> (r: Option<(usize, usize)>)
    requires
        i < h.len(),
    ensures
        r matches Some(x) ==> entry_at(h@, i as int) == Some((x.0 as int, x.1 as int)) && i < x.0
            && x.0 + 2 < x.1 < h@.len(),
        r is None ==> entry_at(h@, i as int) is None,
{
    if !class_has(CharClass::DigestAlgo, h[i]) {
        return None;
    }
    let ae = scan(h, i, CharClass::DigestAlgo);
    if i < ae && ae < h.len() && h.len() - ae >= 2 && h[ae] == '=' && h[ae + 1] == ':' {
        let ve = scan(h, ae + 2, CharClass::Base64Text);
        if ae + 2 < ve && ve < h.len() && h[ve] == ':' {
            Some((ae, ve))
        } else {
            None
        }
    } else {
        None
    }
}

fn entries_exec(h: &Vec<char>) -> (es: Vec<(String, String)>)
    ensures
        es@.map_values(|e: (String, String)| (e.0@, e.1@)) == entries_from(h@, 0),
{
    let ghost goal = entries_from(h@, 0);
    let ghost mut done: Seq<(Seq<char>, Seq<char>)> = Seq::empty();
    let mut es: Vec<(String, String)> = Vec::new();
    let mut i: usize = 0;
    assert(es@.map_values(|e: (String, String)| (e.0@, e.1@)) =~= done);
    while i < h.len()
        invariant
            i <= h.len(),
            goal == entries_from(h@, 0),
            goal == done + entries_from(h@, i as int),
            es@.map_values(|e: (String, String)| (e.0@, e.1@)) == done,
        decreases h.len() - i,
    {
        match entry_at_exec(h, i) {
            Some((ae, ve)) => {
                let algo = sub_chars(h, i, ae);
                let val = sub_chars(h, ae + 2, ve);
                let ghost old_es = es@;
                es.push((string_from_chars(algo.as_slice()), string_from_chars(val.as_slice())));
                proof {
                    let pair = (h@.subrange(i as int, ae as int), h@.subrange(ae + 2, ve as int));
                    assert(entries_from(h@, i as int) == seq![pair] + entries_from(h@, ve + 1));
                    assert(done + entries_from(h@, i as int) =~= done.push(pair) + entries_from(
                        h@,
                        ve + 1,
                    ));
                    assert(es@.map_values(|e: (String, String)| (e.0@, e.1@)) =~= old_es.map_values(
                        |e: (String, String)| (e.0@, e.1@),
                    ).push(pair));
                    done = done.push(pair);
                }
                i = ve + 1;
            },
            None => {
                i = i + 1;
            },
        }
    }
    assert(entries_from(h@, i as int) =~= Seq::<(Seq<char>, Seq<char>)>::empty());
    assert(done + Seq::<(Seq<char>, Seq<char>)>::empty() =~= done);
    es
}

// ---------------------------------------------------------------------------
// Computing and verifying
// ---------------------------------------------------------------------------

pub open spec fn unsupported_msg(algorithm: Seq<char>) -> Seq<char> {
    "unsupported algorithm "@ + str_debug(algorithm) + "; supported: [\"sha-256\", \"sha-512\"]"@
}

/// The Content-Digest header value for `body` under `algorithm`, or the
/// error message.
pub open spec fn spec_compute_content_digest(body: Seq<u8>, algorithm: Seq<char>) -> Result<Seq<char>, Seq<char>> {
    let al = str_lower(algorithm);
    if !spec_is_supported(al) {
        Err(unsupported_msg(algorithm))
    } else {
        Ok(al + "=:"@ + b64_encode_spec(digest_spec(al, body)) + ":"@)
    }
}

/// Computes the Content-Digest header value for a body: `<algo>=:<base64>:`.
///
/// The header it gives verifies against the same body, with no required
/// algorithm and with `algorithm` required.
pub fn compute_content_digest(body: &[u8], algorithm: &str) -> (r: Result<String, ContentDigestError>)
    ensures
        r matches Ok(h) ==> spec_verify_content_digest(body@, h@, None) == Ok::<(), Seq<char>>(()),
        r matches Ok(h) ==> spec_verify_content_digest(body@, h@, Some(algorithm@)) == Ok::<
            (),
            Seq<char>,
        >(()),
        r matches Ok(h) ==> spec_compute_content_digest(body@, algorithm@) == Ok::<
            Seq<char>,
            Seq<char>,
        >(h@),
        r matches Err(e) ==> spec_compute_content_digest(body@, algorithm@) == Err::<
            Seq<char>,
            Seq<char>,
        >(e.0@),
{
    let algo_lower = lower(algorithm);
    if !is_supported(algo_lower.as_str()) {
        let d = debug_str(algorithm);
        let mut out = chars_of("unsupported algorithm ");
        push_str(&mut out, d.as_str());
        push_str(&mut out, "; supported: [\"sha-256\", \"sha-512\"]");
        return Err(ContentDigestError::new(string_from_chars(out.as_slice())));
    }
    let digest = digest_of(algo_lower.as_str(), body);
    let digest_b64 = b64_encode(digest.as_slice());
    let mut out = chars_of(algo_lower.as_str());
    push_str(&mut out, "=:");
    push_str(&mut out, digest_b64.as_str());
    push_str(&mut out, ":");
    proof {
        lemma_digest_header_verifies(body@, algorithm@, algo_lower@, digest_b64@);
    }
    Ok(string_from_chars(out.as_slice()))
}

proof fn lemma_supported_lower(al: Seq<char>)
    requires
        spec_is_supported(al),
    ensures
        ascii_lower(al) == al,
        all_ascii(al),
        forall|i: int| 0 <= i < al.len() ==> in_class(CharClass::DigestAlgo, #[trigger] al[i]),
        al.len() == 7,
        al[0] == 's',
{
    reveal_strlit("sha-256");
    reveal_strlit("sha-512");
    assert(ascii_lower(al) =~= al);
}

/// The header `<al>=:<enc>:` built for a body verifies against it.
proof fn lemma_digest_header_verifies(body: Seq<u8>, algorithm: Seq<char>, al: Seq<char>, enc: Seq<char>)
    requires
        al == str_lower(algorithm),
        spec_is_supported(al),
        enc == b64_encode_spec(digest_spec(al, body)),
        enc.len() > 0,
        forall|i: int| 0 <= i < enc.len() ==> in_class(CharClass::Base64Text, #[trigger] enc[i]),
        b64_decode_spec(enc) == Some(digest_spec(al, body)),
    ensures
        spec_verify_content_digest(body, al + "=:"@ + enc + ":"@, None) == Ok::<(), Seq<char>>(()),
        spec_verify_content_digest(body, al + "=:"@ + enc + ":"@, Some(algorithm)) == Ok::<(), Seq<char>>(()),
{
    reveal_strlit("=:");
    reveal_strlit(":");
    lemma_supported_lower(al);
    let h = al + "=:"@ + enc + ":"@;
    let n = al.len() as int;
    let ve = n + 2 + enc.len();
    assert(h.len() == ve + 1);
    assert(h[n] == '=');
    assert(h[n + 1] == ':');
    assert(h[ve] == ':');
    assert forall|k: int| 0 <= k < n implies in_class(CharClass::DigestAlgo, #[trigger] h[k]) by {
        assert(h[k] == al[k]);
    }
    lemma_run_end_unique(h, 0, n, CharClass::DigestAlgo);
    assert forall|k: int| n + 2 <= k < ve implies in_class(CharClass::Base64Text, #[trigger] h[k]) by {
        assert(h[k] == enc[k - n - 2]);
    }
    lemma_run_end_unique(h, n + 2, ve, CharClass::Base64Text);
    assert(h[0] == 's');
    assert(entry_at(h, 0) == Some((n, ve)));
    assert(h.subrange(0, n) =~= al);
    assert(h.subrange(n + 2, ve) =~= enc);
    assert(entries_from(h, ve + 1) =~= Seq::<(Seq<char>, Seq<char>)>::empty());
    let es = entries_from(h, 0);
    assert(es =~= seq![(al, enc)]);
    assert(es.drop_last() =~= Seq::<(Seq<char>, Seq<char>)>::empty());
    assert(str_lower(es.last().0) == al);
    assert(es.last().1 == enc);
    assert(check_entries(body, es.drop_last(), None) == Ok::<(bool, bool), Seq<char>>((false, false)));
    assert(check_entries(body, es, None) == Ok::<(bool, bool), Seq<char>>((false, true)));
    let req = Some(str_lower(algorithm));
    assert(check_entries(body, es.drop_last(), req) == Ok::<(bool, bool), Seq<char>>((false, false)));
    assert(check_entries(body, es, req) == Ok::<(bool, bool), Seq<char>>((true, true)));
}

pub open spec fn invalid_b64_prefix(al: Seq<char>) -> Seq<char> {
    "digest entry "@ + str_debug(al) + " is not valid base64: "@
}

pub open spec fn noncanonical_msg(al: Seq<char>) -> Seq<char> {
    "digest entry "@ + str_debug(al) + " is not canonical base64 (non-zero pad bits)"@
}

pub open spec fn mismatch_msg(al: Seq<char>, claimed: Seq<char>, actual: Seq<char>) -> Seq<char> {
    "digest mismatch on "@ + al + ": header claims "@ + claimed + " but body hashes to "@ + actual
}

/// The entries checked in order: whether the required algorithm was seen and
/// whether any entry was verified, or the first entry's error.
pub open spec fn check_entries(body: Seq<u8>, es: Seq<(Seq<char>, Seq<char>)>, req: Option<Seq<char>>) -> Result<
    (bool, bool),
    Seq<char>,
>
    decreases es.len(),
{
    if es.len() == 0 {
        Ok((false, false))
    } else {
        match check_entries(body, es.drop_last(), req) {
            Err(m) => Err(m),
            Ok((seen, any)) => {
                let al = str_lower(es.last().0);
                let d = es.last().1;
                if !spec_is_supported(al) {
                    Ok((seen, any))
                } else {
                    let seen2 = seen || (req matches Some(q) && al == q);
                    match b64_decode_spec(d) {
                        None => Err(invalid_b64_prefix(al) + b64_error_text(d)),
                        Some(expected) => if b64_encode_spec(expected) != d {
                            Err(noncanonical_msg(al))
                        } else if expected != digest_spec(al, body) {
                            Err(
                                (mismatch_msg(al, d, b64_encode_spec(digest_spec(al, body)))),
                            )
                        } else {
                            Ok((seen2, true))
                        },
                    }
                }
            },
        }
    }
}

/// Whether `header` verifies against `body`: `Ok(())`, or the error.
pub open spec fn spec_verify_content_digest(body: Seq<u8>, header: Seq<char>, require: Option<Seq<char>>) -> Result<
    (),
    Seq<char>,
> {
    let es = entries_from(header, 0);
    let req = match require {
        Some(a) => Some(str_lower(a)),
        None => None,
    };
    if es.len() == 0 {
        Err("no valid digest entries in header: "@ + str_debug(header))
    } else {
        match check_entries(body, es, req) {
            Err(m) => Err(m),
            Ok((seen, any)) => if req is Some && !seen {
                Err(
                    ("required algorithm "@ + str_debug(req->0) + " not present in header"@),
                )
            } else if !any {
                Err(
                    ("no recognized digest algorithm in Content-Digest header; nothing verified"@),
                )
            } else {
                Ok(())
            },
        }
    }
}

/// Whether an entry names a supported algorithm (in any case).
pub open spec fn entry_supported(e: (Seq<char>, Seq<char>)) -> bool {
    spec_is_supported(str_lower(e.0))
}

/// Whether an entry's text is the canonical base64 of its algorithm's digest
/// of `body`.
pub open spec fn entry_matches(body: Seq<u8>, e: (Seq<char>, Seq<char>)) -> bool {
    e.1 == b64_encode_spec(digest_spec(str_lower(e.0), body))
}

/// Whether some supported entry names the algorithm `q`.
pub open spec fn names_algorithm(es: Seq<(Seq<char>, Seq<char>)>, q: Seq<char>) -> bool {
    exists|i: int| 0 <= i < es.len() && entry_supported(#[trigger] es[i]) && str_lower(es[i].0) == q
}

proof fn lemma_check_entries_law(body: Seq<u8>, es: Seq<(Seq<char>, Seq<char>)>, req: Option<Seq<char>>)
    ensures
        check_entries(body, es, req) matches Ok((seen, any)) ==> {
            &&& forall|i: int| 0 <= i < es.len() && entry_supported(#[trigger] es[i]) ==> entry_matches(body, es[i])
            &&& any <==> exists|i: int| 0 <= i < es.len() && entry_supported(#[trigger] es[i])
            &&& seen <==> (req matches Some(q) && names_algorithm(es, q))
        },
        (forall|i: int|
            0 <= i < es.len() && entry_supported(#[trigger] es[i]) ==> entry_matches(body, es[i])
                && b64_decode_spec(es[i].1) == Some(digest_spec(str_lower(es[i].0), body))) ==> check_entries(
            body,
            es,
            req,
        ) is Ok,
    decreases es.len(),
{
    if es.len() > 0 {
        let init = es.drop_last();
        let n = es.len() - 1;
        lemma_check_entries_law(body, init, req);
        assert forall|i: int| 0 <= i < init.len() implies init[i] == es[i] by {}
        if let Ok((seen, any)) = check_entries(body, es, req) {
            let (s0, a0) = check_entries(body, init, req)->Ok_0;
            if any {
                if !a0 {
                    assert(entry_supported(es[n]));
                }
            } else {
                assert(!a0);
                assert forall|i: int| 0 <= i < es.len() implies !entry_supported(#[trigger] es[i]) by {
                    if i < n {
                        assert(init[i] == es[i]);
                    }
                }
            }
            if let Some(q) = req {
                if names_algorithm(es, q) {
                    let i = choose|i: int| 0 <= i < es.len() && entry_supported(#[trigger] es[i]) && str_lower(es[i].0) == q;
                    if i < n {
                        assert(init[i] == es[i]);
                        assert(names_algorithm(init, q));
                    }
                }
                if s0 {
                    let i = choose|i: int| 0 <= i < init.len() && entry_supported(#[trigger] init[i]) && str_lower(init[i].0) == q;
                    assert(es[i] == init[i]);
                }
            }
        }
    }
}

/// Content-Digest law. Let `es` be the entries of the header and the
/// supported ones those naming SHA-256 or SHA-512 (in any case). A header
/// verifies only when it has entries, at least one supported, each supported
/// entry's text is the canonical base64 of its digest of the body, and a
/// required algorithm is among the supported entries. Conversely, these
/// conditions make it verify, given that each supported entry's text decodes
/// to the digest (as the canonical base64 of the digest does).
pub proof fn lemma_content_digest_law(body: Seq<u8>, header: Seq<char>, require: Option<Seq<char>>)
    ensures
        ({
            let es = entries_from(header, 0);
            let conditions = {
                &&& es.len() > 0
                &&& exists|i: int| 0 <= i < es.len() && entry_supported(#[trigger] es[i])
                &&& forall|i: int| 0 <= i < es.len() && entry_supported(#[trigger] es[i]) ==> entry_matches(body, es[i])
                &&& require matches Some(a) ==> names_algorithm(es, str_lower(a))
            };
            &&& spec_verify_content_digest(body, header, require) is Ok ==> conditions
            &&& conditions && (forall|i: int|
                0 <= i < es.len() && entry_supported(#[trigger] es[i]) ==> b64_decode_spec(es[i].1) == Some(
                    digest_spec(str_lower(es[i].0), body),
                )) ==> spec_verify_content_digest(body, header, require) is Ok
        }),
{
    let es = entries_from(header, 0);
    let req = match require {
        Some(a) => Some(str_lower(a)),
        None => None,
    };
    lemma_check_entries_law(body, es, req);
}

/// Whether `c` may stand in an algorithm name: `[a-z0-9-]`.
pub open spec fn algo_char(c: char) -> bool {
    'a' <= c <= 'z' || '0' <= c <= '9' || c == '-'
}

/// Whether `c` may stand in base64 text: `[A-Za-z0-9+/=]`.
pub open spec fn base64_char(c: char) -> bool {
    'a' <= c <= 'z' || 'A' <= c <= 'Z' || '0' <= c <= '9' || c == '+' || c == '/' || c == '='
}

/// Whether each entry is a non-empty algorithm name over `[a-z0-9-]` with a
/// non-empty base64 text over `[A-Za-z0-9+/=]`.
pub open spec fn well_formed_entries(es: Seq<(Seq<char>, Seq<char>)>) -> bool {
    forall|i: int|
        0 <= i < es.len() ==> {
            &&& (#[trigger] es[i]).0.len() > 0
            &&& es[i].1.len() > 0
            &&& forall|k: int| 0 <= k < es[i].0.len() ==> algo_char(es[i].0[k])
            &&& forall|k: int| 0 <= k < es[i].1.len() ==> base64_char(es[i].1[k])
        }
}

/// The text of one entry: `<algorithm>=:<base64>:`.
pub open spec fn entry_text(e: (Seq<char>, Seq<char>)) -> Seq<char> {
    e.0 + seq!['=', ':'] + e.1 + seq![':']
}

/// A Content-Digest header listing the entries, separated by `, `.
pub open spec fn digest_header(es: Seq<(Seq<char>, Seq<char>)>) -> Seq<char>
    decreases es.len(),
{
    if es.len() == 0 {
        Seq::empty()
    } else if es.len() == 1 {
        entry_text(es[0])
    } else {
        entry_text(es[0]) + seq![',', ' '] + digest_header(es.drop_first())
    }
}

proof fn lemma_entries_of_header(h: Seq<char>, i: int, es: Seq<(Seq<char>, Seq<char>)>)
    requires
        0 <= i <= h.len(),
        well_formed_entries(es),
        h.subrange(i, h.len() as int) == digest_header(es),
    ensures
        entries_from(h, i) == es,
    decreases es.len(),
{
    if es.len() == 0 {
        assert(h.subrange(i, h.len() as int).len() == 0);
    } else {
        let e = es[0];
        let na = e.0.len() as int;
        let nb = e.1.len() as int;
        let et = entry_text(e);
        let d = digest_header(es);
        let rest = es.drop_first();
        if es.len() == 1 {
            assert(d == et);
        } else {
            assert(d == et + seq![',', ' '] + digest_header(rest));
        }
        assert(d.subrange(0, et.len() as int) =~= et);
        assert forall|m: int| 0 <= m < et.len() implies #[trigger] h[i + m] == et[m] by {
            assert(h.subrange(i, h.len() as int)[m] == h[i + m]);
            assert(d.subrange(0, et.len() as int)[m] == d[m]);
        }
        let ae = i + na;
        let ve = ae + 2 + nb;
        assert forall|k: int| i <= k < ae implies in_class(CharClass::DigestAlgo, #[trigger] h[k]) by {
            assert(h[i + (k - i)] == et[k - i]);
            assert(et[k - i] == e.0[k - i]);
            assert(algo_char(e.0[k - i]));
        }
        assert(h[i + na] == et[na]);
        assert(h[ae] == '=');
        assert(h[i + (na + 1)] == et[na + 1]);
        assert(h[ae + 1] == ':');
        lemma_run_end_unique(h, i, ae, CharClass::DigestAlgo);
        assert forall|k: int| ae + 2 <= k < ve implies in_class(CharClass::Base64Text, #[trigger] h[k]) by {
            assert(h[i + (k - i)] == et[k - i]);
            assert(et[k - i] == e.1[k - ae - 2]);
            assert(base64_char(e.1[k - ae - 2]));
        }
        assert(h[i + (na + 2 + nb)] == et[na + 2 + nb]);
        assert(h[ve] == ':');
        lemma_run_end_unique(h, ae + 2, ve, CharClass::Base64Text);
        assert(h[i + 0] == et[0]);
        assert(et[0] == e.0[0]);
        assert(h[i] == e.0[0]);
        assert(entry_at(h, i) == Some((ae, ve)));
        assert(h.subrange(i, ae) =~= e.0) by {
            assert forall|k: int| 0 <= k < na implies h.subrange(i, ae)[k] == e.0[k] by {
                assert(h[i + k] == et[k]);
            }
        }
        assert(h.subrange(ae + 2, ve) =~= e.1) by {
            assert forall|k: int| 0 <= k < nb implies h.subrange(ae + 2, ve)[k] == e.1[k] by {
                assert(h[i + (na + 2 + k)] == et[na + 2 + k]);
            }
        }
        assert(entries_from(h, i) == seq![(e.0, e.1)] + entries_from(h, ve + 1));
        if es.len() == 1 {
            assert(ve + 1 == h.len());
            assert(es =~= seq![(e.0, e.1)] + Seq::<(Seq<char>, Seq<char>)>::empty());
        } else {
            let dsub = h.subrange(i, h.len() as int);
            assert(dsub[na + 2 + nb + 1] == ',');
            assert(h[ve + 1] == ',');
            assert(dsub[na + 2 + nb + 2] == ' ');
            assert(h[ve + 2] == ' ');
            assert(entry_at(h, ve + 1) is None);
            assert(entries_from(h, ve + 1) == entries_from(h, ve + 2));
            assert(entry_at(h, ve + 2) is None);
            assert(entries_from(h, ve + 2) == entries_from(h, ve + 3));
            assert(h.subrange(ve + 3, h.len() as int) =~= digest_header(rest)) by {
                assert(dsub.subrange(et.len() as int + 2, dsub.len() as int) =~= digest_header(rest));
            }
            assert(well_formed_entries(rest)) by {
                assert forall|q: int| 0 <= q < rest.len() implies rest[q] == es[q + 1] by {}
            }
            lemma_entries_of_header(h, ve + 3, rest);
            assert(es =~= seq![(e.0, e.1)] + rest);
        }
    }
}

proof fn lemma_lower_algo(a: Seq<char>)
    requires
        forall|k: int| 0 <= k < a.len() ==> algo_char(#[trigger] a[k]),
    ensures
        str_lower(a) == a,
{
    assert(all_ascii(a)) by {
        assert forall|i: int| 0 <= i < a.len() implies (#[trigger] a[i] as int) < 128 by {
            assert(algo_char(a[i]));
        }
    }
    assert(ascii_lower(a) =~= a) by {
        assert forall|i: int| 0 <= i < a.len() implies ascii_lower(a)[i] == a[i] by {
            assert(algo_char(a[i]));
        }
    }
}

/// A header listing well-formed entries `a_i=:b_i:` separated by `, ` is
/// scanned into exactly those entries, in order.
pub proof fn lemma_digest_header_entries(es: Seq<(Seq<char>, Seq<char>)>)
    requires
        well_formed_entries(es),
    ensures
        entries_from(digest_header(es), 0) == es,
{
    let h = digest_header(es);
    assert(h.subrange(0, h.len() as int) =~= h);
    lemma_entries_of_header(h, 0, es);
}

/// Every SHA entry is checked: for a header listing well-formed entries
/// `a_i=:b_i:` separated by `, `, if some entry names `sha-256` (or
/// `sha-512`) and its text is not the canonical base64 of that digest of
/// the body, verification fails, whatever algorithm is required.
pub proof fn lemma_bad_digest_entry_fails(body: Seq<u8>, es: Seq<(Seq<char>, Seq<char>)>, require: Option<Seq<char>>, j: int)
    requires
        well_formed_entries(es),
        0 <= j < es.len(),
        (es[j].0 == "sha-256"@ && es[j].1 != b64_encode_spec(sha256_spec(body))) || (es[j].0 == "sha-512"@
            && es[j].1 != b64_encode_spec(sha512_spec(body))),
    ensures
        spec_verify_content_digest(body, digest_header(es), require) is Err,
{
    lemma_digest_header_entries(es);
    lemma_content_digest_law(body, digest_header(es), require);
    lemma_lower_algo(es[j].0);
    reveal_strlit("sha-256");
    reveal_strlit("sha-512");
    assert("sha-256"@[4] != "sha-512"@[4]);
    assert(entry_supported(es[j]));
    assert(!entry_matches(body, es[j]));
}

/// Verifies that a Content-Digest header matches the body.
#[verifier::loop_isolation(false)]
pub fn verify_content_digest(body: &[u8], header_value: &str, require_algorithm: Option<&str>) -> (r:
    Result<(), ContentDigestError>)
    ensures
        r is Ok <==> spec_verify_content_digest(
            body@,
            header_value@,
            match require_algorithm {
                Some(a) => Some(a@),
                None => None,
            },
        ) is Ok,
        r matches Err(e) ==> (spec_verify_content_digest(
            body@,
            header_value@,
            match require_algorithm {
                Some(a) => Some(a@),
                None => None,
            },
        ) matches Err(m) && (e.0@ == m)),
{
    let ghost reqv: Option<Seq<char>> = match require_algorithm {
        Some(a) => Some(a@),
        None => None,
    };
    let h = chars_of(header_value);
    let entries = entries_exec(&h);
    let ghost es = entries_from(header_value@, 0);
    if entries.len() == 0 {
        let d = debug_str(header_value);
        let msg = concat_str("no valid digest entries in header: ", d.as_str());
        return Err(ContentDigestError::new(msg));
    }
    let required_alg: Option<String> = match require_algorithm {
        Some(a) => Some(lower(a)),
        None => None,
    };
    let ghost req: Option<Seq<char>> = match reqv {
        Some(a) => Some(str_lower(a)),
        None => None,
    };
    let mut required_seen = false;
    let mut verified_any = false;
    let mut k: usize = 0;
    while k < entries.len()
        invariant
            k <= entries.len(),
            es == entries_from(header_value@, 0),
            entries@.map_values(|e: (String, String)| (e.0@, e.1@)) == es,
            req == (match reqv {
                Some(a) => Some(str_lower(a)),
                None => None::<Seq<char>>,
            }),
            required_alg matches Some(q) ==> req == Some(q@),
            required_alg is None ==> req is None,
            check_entries(body@, es.take(k as int), req) == Ok::<(bool, bool), Seq<char>>(
                (required_seen, verified_any),
            ),
        decreases entries.len() - k,
    {
        let ghost pre = es.take(k + 1);
        let ghost seen0 = required_seen;
        let ghost any0 = verified_any;
        assert(pre.drop_last() =~= es.take(k as int));
        assert(pre.last() == (entries@[k as int].0@, entries@[k as int].1@));
        let algo = &entries[k].0;
        let digest_b64 = &entries[k].1;
        let algo_lower = lower(algo.as_str());
        assert(check_entries(body@, pre.drop_last(), req) == Ok::<(bool, bool), Seq<char>>((seen0, any0)));
        assert(str_lower(pre.last().0) == algo_lower@);
        if !is_supported(algo_lower.as_str()) {
            assert(check_entries(body@, pre, req) == Ok::<(bool, bool), Seq<char>>((seen0, any0)));
            k = k + 1;
            continue;
        }
        match &required_alg {
            Some(q) => {
                if algo_lower == *q {
                    required_seen = true;
                }
            },
            None => {},
        }
        let expected = match b64_decode(digest_b64.as_str()) {
            Ok(b) => b,
            Err(e) => {
                let dl = debug_str(algo_lower.as_str());
                let mut out = chars_of("digest entry ");
                push_str(&mut out, dl.as_str());
                push_str(&mut out, " is not valid base64: ");
                let ghost pfx = out@;
                let text = decode_error_text(&e);
                push_str(&mut out, text.as_str());
                let msg = string_from_chars(out.as_slice());
                proof {
                    assert(msg@.subrange(0, pfx.len() as int) =~= pfx);
                    assert(pfx =~= invalid_b64_prefix(algo_lower@));
                    assert(check_entries(body@, pre.drop_last(), req) == Ok::<(bool, bool), Seq<char>>((seen0, any0)));
                    assert(str_lower(pre.last().0) == algo_lower@);
                    assert(spec_is_supported(algo_lower@));
                    assert(b64_decode_spec(pre.last().1) is None);
                    assert(check_entries(body@, pre, req) is Err);
                    lemma_check_entries_err(body@, es, req, k + 1);
                    assert(es.take(entries@.len() as int) =~= es);
                }
                return Err(ContentDigestError::new(msg));
            },
        };
        let reencoded = b64_encode(expected.as_slice());
        if reencoded != *digest_b64 {
            let dl = debug_str(algo_lower.as_str());
            let mut out = chars_of("digest entry ");
            push_str(&mut out, dl.as_str());
            push_str(&mut out, " is not canonical base64 (non-zero pad bits)");
            proof {
                lemma_check_entries_err(body@, es, req, k + 1);
                assert(es.take(entries@.len() as int) =~= es);
            }
            return Err(ContentDigestError::new(string_from_chars(out.as_slice())));
        }
        let actual = digest_of(algo_lower.as_str(), body);
        if !(expected == actual) {
            let actual_b64 = b64_encode(actual.as_slice());
            let mut out = chars_of("digest mismatch on ");
            push_str(&mut out, algo_lower.as_str());
            push_str(&mut out, ": header claims ");
            push_str(&mut out, digest_b64.as_str());
            push_str(&mut out, " but body hashes to ");
            push_str(&mut out, actual_b64.as_str());
            proof {
                lemma_check_entries_err(body@, es, req, k + 1);
                assert(es.take(entries@.len() as int) =~= es);
            }
            return Err(ContentDigestError::new(string_from_chars(out.as_slice())));
        }
        verified_any = true;
        assert(pre.last().1 == digest_b64@);
        assert(b64_decode_spec(pre.last().1) == Some(expected@));
        assert(expected@ == actual@);
        assert(required_seen == (seen0 || (req matches Some(q) && algo_lower@ == q)));
        assert(check_entries(body@, pre, req) == Ok::<(bool, bool), Seq<char>>((required_seen, true)));
        k = k + 1;
    }
    assert(es.take(entries@.len() as int) =~= es);
    match &required_alg {
        Some(q) => {
            if !required_seen {
                let d = debug_str(q.as_str());
                let mut out = chars_of("required algorithm ");
                push_str(&mut out, d.as_str());
                push_str(&mut out, " not present in header");
                return Err(ContentDigestError::new(string_from_chars(out.as_slice())));
            }
        },
        None => {},
    }
    if !verified_any {
        return Err(
            ContentDigestError::new(
                String::from_str(
                    "no recognized digest algorithm in Content-Digest header; nothing verified",
                ),
            ),
        );
    }
    Ok(())
}

/// Once a prefix of the entries fails, the whole list fails the same way.
proof fn lemma_check_entries_err(body: Seq<u8>, es: Seq<(Seq<char>, Seq<char>)>, req: Option<Seq<char>>, k: int)
    requires
        0 <= k <= es.len(),
        check_entries(body, es.take(k), req) is Err,
    ensures
        check_entries(body, es, req) == check_entries(body, es.take(k), req),
    decreases es.len() - k,
{
    if k == es.len() {
        assert(es.take(k) =~= es);
    } else {
        let t = es.take(k + 1);
        assert(t.drop_last() =~= es.take(k));
        lemma_check_entries_err(body, es, req, k + 1);
    }
}

} // verus!
