//! RFC 9421 Signature-Input and Signature header parsers.
//!
//! The Signature-Input header carries the covered components and signing
//! parameters in RFC 8941 structured-fields form; the Signature header
//! carries the base64 signature bytes wrapped in colons. Both labelled and
//! unlabelled forms are accepted.
//!
//! The grammars, as patterns over characters (`\s` is Unicode white space):
//!
//! ```text
//! label      ^\s*([A-Za-z][A-Za-z0-9_-]*)\s*=\s*
//! covered    \(\s*(?:"[^"]*"\s*)*\)          (at the start of the rest)
//! quoted     "([^"]*)"
//! parameter  ([A-Za-z][A-Za-z0-9_-]*)=([^;,\s]+|"[^"]*")   (every match, left to right)
//! ```

use vstd::prelude::*;

use crate::b64::{b64_decode, b64_decode_spec, b64_encode, b64_encode_spec, b64_error_text, decode_error_text};
use crate::signing_base::{param_get, param_lookup, params_view, strings_view, ParamValue, ParamView};
use crate::text::{
    chars_of, concat_str, debug_str, in_class, is_ascii_letter, is_ws, lemma_run_end, parse_i64,
    push_str, run_end, scan, spec_parse_i64, str_debug, string_from_chars, sub_chars, trim_chars,
    trim_ws, CharClass, ascii_letter, ws, chars_eq, lemma_run_end_unique, lemma_run_start_back_unique,
};

verus! {

/// Raised when a Signature-Input or Signature header cannot be parsed.
#[derive(Debug, Clone, PartialEq, Eq)]
pub struct SignatureInputParseError(pub String);

impl SignatureInputParseError {
    pub fn new(msg: String) -> (r: Self)
        ensures
            r.0@ == msg@,
    {
        SignatureInputParseError(msg)
    }
}

/// Parsed Signature-Input header for a single label.
#[derive(Debug, Clone, PartialEq, Eq)]
pub struct ParsedSignatureInput {
    pub label: String,
    pub covered_components: Vec<String>,
    pub parameters: Vec<(String, ParamValue)>,
    pub raw: String,
    /// The post-label portion of the header value, verbatim. This is what the
    /// `@signature-params` line of the RFC 9421 signing base must contain.
    pub params_block: String,
}

/// A parsed Signature-Input header, as contracts speak of it.
pub struct SigInputView {
    pub label: Seq<char>,
    pub covered: Seq<Seq<char>>,
    pub params: Seq<(Seq<char>, ParamView)>,
    pub raw: Seq<char>,
    pub params_block: Seq<char>,
}

impl View for ParsedSignatureInput {
    type V = SigInputView;

    open spec fn view(&self) -> SigInputView {
        SigInputView {
            label: self.label@,
            covered: strings_view(self.covered_components@),
            params: params_view(self.parameters@),
            raw: self.raw@,
            params_block: self.params_block@,
        }
    }
}

impl ParsedSignatureInput {
    /// The value of the last parameter named `key` (later pairs win).
    pub fn parameter(&self, key: &str) -> (r: Option<&ParamValue>)
        ensures
            r matches Some(v) ==> param_lookup(self@.params, key@) == Some(v@),
            r is None ==> param_lookup(self@.params, key@) is None,
    {
        param_get(self.parameters.as_slice(), key)
    }
}

// ---------------------------------------------------------------------------
// Grammar
// ---------------------------------------------------------------------------

/// The label pattern at the start of `t`: the bounds of the label and the end
/// of the whole match.
pub open spec fn label_match(t: Seq<char>) -> Option<(int, int, int)> {
    let a = run_end(t, 0, CharClass::Ws);
    if a < t.len() && is_ascii_letter(t[a]) {
        let b = run_end(t, a + 1, CharClass::NameTail);
        let c = run_end(t, b, CharClass::Ws);
        if c < t.len() && t[c] == '=' {
            Some((a, b, run_end(t, c + 1, CharClass::Ws)))
        } else {
            None
        }
    } else {
        None
    }
}

/// The covered-components list, scanned from position `i` of `r`: the quoted
/// items found so far are `acc`; `in_quote` says whether an item opened at
/// `start` is still open. Gives the items and the end of the list.
pub open spec fn list_scan(r: Seq<char>, i: int, in_quote: bool, start: int, acc: Seq<Seq<char>>) -> Option<
    (Seq<Seq<char>>, int),
>
    decreases r.len() - i,
{
    if i < 0 || i >= r.len() {
        None
    } else if in_quote {
        if r[i] == '"' {
            list_scan(r, i + 1, false, 0, acc.push(r.subrange(start, i)))
        } else {
            list_scan(r, i + 1, true, start, acc)
        }
    } else if is_ws(r[i]) {
        list_scan(r, i + 1, false, 0, acc)
    } else if r[i] == '"' {
        list_scan(r, i + 1, true, i + 1, acc)
    } else if r[i] == ')' {
        Some((acc, i + 1))
    } else {
        None
    }
}

/// The covered-components list at the start of `r`.
pub open spec fn covered_match(r: Seq<char>) -> Option<(Seq<Seq<char>>, int)> {
    if r.len() > 0 && r[0] == '(' {
        list_scan(r, 1, false, 0, Seq::empty())
    } else {
        None
    }
}

/// A parameter match starting exactly at `i`: the end of the name and the end
/// of the value.
pub open spec fn param_at(a: Seq<char>, i: int) -> Option<(int, int)> {
    if 0 <= i < a.len() && is_ascii_letter(a[i]) {
        let ke = run_end(a, i + 1, CharClass::NameTail);
        if i < ke < a.len() && a[ke] == '=' {
            let ve = run_end(a, ke + 1, CharClass::BareValue);
            if ve > ke + 1 {
                Some((ke, ve))
            } else {
                None
            }
        } else {
            None
        }
    } else {
        None
    }
}

pub proof fn lemma_param_at(a: Seq<char>, i: int)
    requires
        0 <= i < a.len(),
    ensures
        param_at(a, i) matches Some((ke, ve)) ==> i < ke < ve <= a.len(),
{
    if is_ascii_letter(a[i]) {
        lemma_run_end(a, i + 1, CharClass::NameTail);
        let ke = run_end(a, i + 1, CharClass::NameTail);
        if i < ke < a.len() && a[ke] == '=' {
            lemma_run_end(a, ke + 1, CharClass::BareValue);
        }
    }
}

/// Every parameter match in `a` from position `i` on, left to right: the raw
/// names and values.
pub open spec fn params_from(a: Seq<char>, i: int) -> Seq<(Seq<char>, Seq<char>)>
    decreases a.len() - i,
{
    if i < 0 || i >= a.len() {
        Seq::empty()
    } else {
        proof {
            lemma_param_at(a, i);
        }
        match param_at(a, i) {
            Some((ke, ve)) => seq![(a.subrange(i, ke), a.subrange(ke + 1, ve))] + params_from(
                a,
                ve,
            ),
            None => params_from(a, i + 1),
        }
    }
}

/// What a raw parameter value stands for: a quoted string without its quotes,
/// else an integer, else the raw text.
pub open spec fn raw_value(raw: Seq<char>) -> ParamView {
    if raw.len() >= 2 && raw[0] == '"' && raw[raw.len() - 1] == '"' {
        ParamView::Str(raw.subrange(1, raw.len() - 1))
    } else {
        match spec_parse_i64(raw) {
            Some(i) => ParamView::Int(i),
            None => ParamView::Str(raw),
        }
    }
}

pub open spec fn parsed_params(a: Seq<char>) -> Seq<(Seq<char>, ParamView)> {
    params_from(a, 0).map_values(|p: (Seq<char>, Seq<char>)| (p.0, raw_value(p.1)))
}

/// The first 40 characters of `t` (all of it when shorter).
pub open spec fn snippet40(t: Seq<char>) -> Seq<char> {
    t.take(
        if t.len() < 40 {
            t.len() as int
        } else {
            40
        },
    )
}

pub open spec fn no_label_msg(t: Seq<char>) -> Seq<char> {
    "no label or covered-components list found at start: "@ + str_debug(snippet40(t))
}

/// The label and the rest of a trimmed Signature-Input value.
pub open spec fn input_label_rest(t: Seq<char>) -> Option<(Seq<char>, Seq<char>)> {
    match label_match(t) {
        Some((a, b, e)) => Some((t.subrange(a, b), t.subrange(e, t.len() as int))),
        None => if t.len() > 0 && t[0] == '(' {
            Some((Seq::empty(), t))
        } else {
            None
        },
    }
}

/// The parse of a Signature-Input header value, or the error message.
pub open spec fn spec_parse_signature_input(h: Seq<char>) -> Result<SigInputView, Seq<char>> {
    let t = trim_ws(h);
    if t.len() == 0 {
        Err("empty header value"@)
    } else {
        match input_label_rest(t) {
            None => Err(no_label_msg(t)),
            Some((label, rest)) => match covered_match(rest) {
                None => Err("no covered-components list found"@),
                Some((covered, end)) => Ok(
                    SigInputView {
                        label,
                        covered,
                        params: parsed_params(rest.subrange(end, rest.len() as int)),
                        raw: t,
                        params_block: rest,
                    },
                ),
            },
        }
    }
}

/// A labelled Signature-Input parses with its label: for every label `l`
/// (an ASCII letter, then ASCII letters, digits, `_` or `-`) and every text
/// `r` that opens with a covered-components list and does not end in white
/// space, `l=r` parses to label `l` with parameters block `r`; the parse
/// fails exactly when `r` holds no covered-components list at its start.
pub proof fn lemma_labelled_input_parses(l: Seq<char>, r: Seq<char>)
    requires
        is_label(l),
        r.len() > 0,
        r[0] == '(',
        !is_ws(r[r.len() - 1]),
    ensures
        spec_parse_signature_input(l + seq!['='] + r) is Ok <==> covered_match(r) is Some,
        spec_parse_signature_input(l + seq!['='] + r) matches Ok(p) ==> p.label == l && p.params_block == r
            && p.raw == l + seq!['='] + r,
{
    let h = l + seq!['='] + r;
    let n = l.len() as int;
    assert(h[0] == l[0]);
    assert(h[h.len() - 1] == r[r.len() - 1]);
    lemma_trim_unchanged(h);
    lemma_run_end_unique(h, 0, 0, CharClass::Ws);
    assert forall|k: int| 1 <= k < n implies in_class(CharClass::NameTail, #[trigger] h[k]) by {
        assert(h[k] == l[k]);
        assert(label_char(l[k]));
    }
    assert(h[n] == '=');
    lemma_run_end_unique(h, 1, n, CharClass::NameTail);
    lemma_run_end_unique(h, n, n, CharClass::Ws);
    assert(h[n + 1] == '(');
    lemma_run_end_unique(h, n + 1, n + 1, CharClass::Ws);
    assert(label_match(h) == Some((0int, n, n + 1)));
    assert(h.subrange(0, n) =~= l);
    assert(h.subrange(n + 1, h.len() as int) =~= r);
}

/// Whether a text holds no double quote.
pub open spec fn no_dquote(s: Seq<char>) -> bool {
    forall|k: int| 0 <= k < s.len() ==> #[trigger] s[k] != '"'
}

proof fn lemma_list_scan_items(r: Seq<char>, i: int, in_quote: bool, start: int, acc: Seq<Seq<char>>)
    requires
        0 <= start,
        in_quote ==> start <= i && forall|k: int| start <= k < i ==> #[trigger] r[k] != '"',
        forall|j: int| 0 <= j < acc.len() ==> no_dquote(#[trigger] acc[j]),
    ensures
        list_scan(r, i, in_quote, start, acc) matches Some((items, _)) ==> forall|j: int|
            0 <= j < items.len() ==> no_dquote(#[trigger] items[j]),
    decreases r.len() - i,
{
    if 0 <= i < r.len() {
        if in_quote {
            if r[i] == '"' {
                let item = r.subrange(start, i);
                assert(no_dquote(item)) by {
                    assert forall|k: int| 0 <= k < item.len() implies #[trigger] item[k] != '"' by {
                        assert(item[k] == r[start + k]);
                    }
                }
                let acc2 = acc.push(item);
                assert forall|j: int| 0 <= j < acc2.len() implies no_dquote(#[trigger] acc2[j]) by {
                    if j < acc.len() {
                        assert(acc2[j] == acc[j]);
                    }
                }
                lemma_list_scan_items(r, i + 1, false, 0, acc2);
            } else {
                lemma_list_scan_items(r, i + 1, true, start, acc);
            }
        } else if is_ws(r[i]) {
            lemma_list_scan_items(r, i + 1, false, 0, acc);
        } else if r[i] == '"' {
            lemma_list_scan_items(r, i + 1, true, i + 1, acc);
        }
    }
}

proof fn lemma_params_from_keys(a: Seq<char>, i: int)
    ensures
        forall|j: int| 0 <= j < params_from(a, i).len() ==> is_label(#[trigger] params_from(a, i)[j].0),
    decreases a.len() - i,
{
    if 0 <= i < a.len() {
        lemma_param_at(a, i);
        match param_at(a, i) {
            Some((ke, ve)) => {
                lemma_params_from_keys(a, ve);
                lemma_run_end(a, i + 1, CharClass::NameTail);
                let key = a.subrange(i, ke);
                assert(is_label(key)) by {
                    assert(key[0] == a[i]);
                    assert forall|k: int| 1 <= k < key.len() implies in_class(CharClass::NameTail, #[trigger] key[k]) by {
                        assert(key[k] == a[i + k]);
                    }
                }
                let ps = params_from(a, i);
                let rest = params_from(a, ve);
                assert(ps == seq![(key, a.subrange(ke + 1, ve))] + rest);
                assert forall|j: int| 0 <= j < ps.len() implies is_label(#[trigger] ps[j].0) by {
                    if j > 0 {
                        assert(ps[j] == rest[j - 1]);
                    } else {
                        assert(ps[0].0 == key);
                    }
                }
            },
            None => {
                lemma_params_from_keys(a, i + 1);
                assert(params_from(a, i) == params_from(a, i + 1));
            },
        }
    }
}

/// The shape of a parsed Signature-Input: `raw` is the trimmed header; the
/// parameters block is a suffix of it that opens with `(`, and is all of it
/// exactly when there is no label; a label and every parameter name match
/// `[A-Za-z][A-Za-z0-9_-]*`; no covered component holds a double quote.
pub proof fn lemma_signature_input_structure(h: Seq<char>)
    ensures
        spec_parse_signature_input(h) matches Ok(p) ==> {
            &&& p.raw == trim_ws(h)
            &&& p.params_block.len() > 0 && p.params_block[0] == '('
            &&& p.params_block.len() <= p.raw.len()
            &&& p.raw.subrange(p.raw.len() - p.params_block.len(), p.raw.len() as int) == p.params_block
            &&& (p.label.len() == 0 <==> p.params_block == p.raw)
            &&& (p.label.len() > 0 ==> is_label(p.label))
            &&& forall|j: int| 0 <= j < p.covered.len() ==> no_dquote(#[trigger] p.covered[j])
            &&& forall|j: int| 0 <= j < p.params.len() ==> is_label(#[trigger] p.params[j].0)
        },
{
    if let Ok(p) = spec_parse_signature_input(h) {
        let t = trim_ws(h);
        let rest = p.params_block;
        lemma_list_scan_items(rest, 1, false, 0, Seq::empty());
        let cm = covered_match(rest)->Some_0;
        let after = rest.subrange(cm.1, rest.len() as int);
        lemma_params_from_keys(after, 0);
        assert forall|j: int| 0 <= j < p.params.len() implies is_label(#[trigger] p.params[j].0) by {
            assert(p.params[j].0 == params_from(after, 0)[j].0);
        }
        match label_match(t) {
            Some((a, b, e)) => {
                lemma_run_end(t, 0, CharClass::Ws);
                let a0 = run_end(t, 0, CharClass::Ws);
                lemma_run_end(t, a0 + 1, CharClass::NameTail);
                let b0 = run_end(t, a0 + 1, CharClass::NameTail);
                lemma_run_end(t, b0, CharClass::Ws);
                let c0 = run_end(t, b0, CharClass::Ws);
                lemma_run_end(t, c0 + 1, CharClass::Ws);
                assert(a == a0 && b == b0);
                assert(1 <= e <= t.len());
                let l = t.subrange(a, b);
                assert(is_label(l)) by {
                    assert(l[0] == t[a]);
                    assert forall|k: int| 1 <= k < l.len() implies in_class(CharClass::NameTail, #[trigger] l[k]) by {
                        assert(l[k] == t[a + k]);
                    }
                }
                assert(rest.len() < t.len());
                assert(t.subrange(t.len() - rest.len(), t.len() as int) =~= rest);
            },
            None => {
                assert(t.subrange(0, t.len() as int) =~= t);
            },
        }
    }
}

// ---------------------------------------------------------------------------
// Scanners
// ---------------------------------------------------------------------------

fn label_exec(t: &Vec<char>) -> (r: Option<(usize, usize, usize)>)
    ensures
        r matches Some(x) ==> label_match(t@) == Some((x.0 as int, x.1 as int, x.2 as int)),
        r matches Some(x) ==> x.0 <= x.1 <= x.2 <= t@.len(),
        r is None ==> label_match(t@) is None,
{
    let a = scan(t, 0, CharClass::Ws);
    if a < t.len() && ascii_letter(t[a]) {
        let b = scan(t, a + 1, CharClass::NameTail);
        let c = scan(t, b, CharClass::Ws);
        if c < t.len() && t[c] == '=' {
            let e = scan(t, c + 1, CharClass::Ws);
            Some((a, b, e))
        } else {
            None
        }
    } else {
        None
    }
}

fn covered_exec(r: &Vec<char>) -> (res: Option<(Vec<String>, usize)>)
    ensures
        res matches Some(x) ==> covered_match(r@) == Some((strings_view(x.0@), x.1 as int)) && x.1
            <= r@.len(),
        res is None ==> covered_match(r@) is None,
{
    if r.len() == 0 || r[0] != '(' {
        return None;
    }
    let ghost goal = covered_match(r@);
    let mut items: Vec<String> = Vec::new();
    assert(strings_view(items@) =~= Seq::<Seq<char>>::empty());
    let mut i: usize = 1;
    let mut in_quote = false;
    let mut start: usize = 0;
    while i < r.len()
        invariant
            1 <= i <= r.len(),
            start <= i,
            goal == covered_match(r@),
            goal == list_scan(r@, i as int, in_quote, start as int, strings_view(items@)),
        decreases r.len() - i,
    {
        let c = r[i];
        if in_quote {
            if c == '"' {
                let item = string_from_chars(sub_chars(r, start, i).as_slice());
                let ghost before = strings_view(items@);
                items.push(item);
                assert(strings_view(items@) =~= before.push(r@.subrange(start as int, i as int)));
                in_quote = false;
                start = 0;
            }
        } else if ws(c) {
            start = 0;
        } else if c == '"' {
            in_quote = true;
            start = i + 1;
        } else if c == ')' {
            return Some((items, i + 1));
        } else {
            return None;
        }
        i = i + 1;
    }
    None
}

fn param_at_exec(a: &Vec<char>, i: usize) -> (r: Option<(usize, usize)>)
    requires
        i < a.len(),
    ensures
        r matches Some(x) ==> param_at(a@, i as int) == Some((x.0 as int, x.1 as int)) && i < x.0 < x.1
            <= a@.len(),
        r is None ==> param_at(a@, i as int) is None,
{
    if !ascii_letter(a[i]) {
        return None;
    }
    let ke = scan(a, i + 1, CharClass::NameTail);
    if i < ke && ke < a.len() && a[ke] == '=' {
        let ve = scan(a, ke + 1, CharClass::BareValue);
        if ve > ke + 1 {
            Some((ke, ve))
        } else {
            None
        }
    } else {
        None
    }
}

/// Converts a raw parameter value.
fn raw_value_exec(raw: &Vec<char>) -> (v: ParamValue)
    ensures
        v@ == raw_value(raw@),
{
    let n = raw.len();
    if n >= 2 && raw[0] == '"' && raw[n - 1] == '"' {
        ParamValue::Str(string_from_chars(sub_chars(raw, 1, n - 1).as_slice()))
    } else {
        match parse_i64(raw) {
            Some(i) => ParamValue::Int(i),
            None => ParamValue::Str(string_from_chars(raw.as_slice())),
        }
    }
}

fn params_exec(a: &Vec<char>) -> (ps: Vec<(String, ParamValue)>)
    ensures
        params_view(ps@) == parsed_params(a@),
{
    let ghost goal = params_from(a@, 0);
    let ghost mut done: Seq<(Seq<char>, Seq<char>)> = Seq::empty();
    let mut ps: Vec<(String, ParamValue)> = Vec::new();
    let mut i: usize = 0;
    while i < a.len()
        invariant
            i <= a.len(),
            goal == params_from(a@, 0),
            goal == done + params_from(a@, i as int),
            params_view(ps@) == done.map_values(|p: (Seq<char>, Seq<char>)| (p.0, raw_value(p.1))),
        decreases a.len() - i,
    {
        match param_at_exec(a, i) {
            Some((ke, ve)) => {
                let name = sub_chars(a, i, ke);
                let raw = sub_chars(a, ke + 1, ve);
                let v = raw_value_exec(&raw);
                let ghost old_ps = ps@;
                ps.push((string_from_chars(name.as_slice()), v));
                proof {
                    let pair = (a@.subrange(i as int, ke as int), a@.subrange(ke + 1, ve as int));
                    assert(params_from(a@, i as int) == seq![pair] + params_from(a@, ve as int));
                    assert(done + params_from(a@, i as int) =~= done.push(pair) + params_from(
                        a@,
                        ve as int,
                    ));
                    assert(params_view(ps@) =~= params_view(old_ps).push((pair.0, raw_value(pair.1))));
                    assert(done.push(pair).map_values(
                        |p: (Seq<char>, Seq<char>)| (p.0, raw_value(p.1)),
                    ) =~= done.map_values(|p: (Seq<char>, Seq<char>)| (p.0, raw_value(p.1))).push(
                        (pair.0, raw_value(pair.1)),
                    ));
                    done = done.push(pair);
                }
                i = ve;
            },
            None => {
                i = i + 1;
            },
        }
    }
    assert(params_from(a@, i as int) =~= Seq::<(Seq<char>, Seq<char>)>::empty());
    assert(done + Seq::<(Seq<char>, Seq<char>)>::empty() =~= done);
    ps
}

/// Parses a Signature-Input header value.
pub fn parse_signature_input(header_value: &str) -> (r: Result<ParsedSignatureInput, SignatureInputParseError>)
    ensures
        r matches Ok(p) ==> spec_parse_signature_input(header_value@) == Ok::<SigInputView, Seq<char>>(p@),
        r matches Err(e) ==> spec_parse_signature_input(header_value@) == Err::<SigInputView, Seq<char>>(
            e.0@,
        ),
{
    let hv = chars_of(header_value);
    let t = trim_chars(&hv, CharClass::Ws);
    if t.len() == 0 {
        return Err(SignatureInputParseError::new(String::from_str("empty header value")));
    }
    let (label, rest): (Vec<char>, Vec<char>) = match label_exec(&t) {
        Some((a, b, e)) => (sub_chars(&t, a, b), sub_chars(&t, e, t.len())),
        None => {
            if t[0] == '(' {
                (Vec::new(), t.clone())
            } else {
                let snippet = sub_chars(&t, 0, if t.len() < 40 { t.len() } else { 40 });
                assert(snippet@ =~= snippet40(t@));
                let s = string_from_chars(snippet.as_slice());
                let d = debug_str(s.as_str());
                return Err(
                    SignatureInputParseError::new(
                        concat_str("no label or covered-components list found at start: ", d.as_str()),
                    ),
                );
            }
        },
    };
    assert(input_label_rest(t@) == Some((label@, rest@)));
    let (covered, end) = match covered_exec(&rest) {
        Some(x) => x,
        None => {
            return Err(
                SignatureInputParseError::new(String::from_str("no covered-components list found")),
            );
        },
    };
    let after = sub_chars(&rest, end, rest.len());
    let parameters = params_exec(&after);
    let p = ParsedSignatureInput {
        label: string_from_chars(label.as_slice()),
        covered_components: covered,
        parameters,
        raw: string_from_chars(t.as_slice()),
        params_block: string_from_chars(rest.as_slice()),
    };
    Ok(p)
}


// ---------------------------------------------------------------------------
// Signature header
// ---------------------------------------------------------------------------

/// The label and the rest of a trimmed Signature value; the rest is trimmed
/// again after a label.
pub open spec fn value_label_rest(t: Seq<char>) -> Option<(Seq<char>, Seq<char>)> {
    match label_match(t) {
        Some((a, b, e)) => Some((t.subrange(a, b), trim_ws(t.subrange(e, t.len() as int)))),
        None => if t.len() > 0 && t[0] == ':' {
            Some((Seq::empty(), t))
        } else {
            None
        },
    }
}

pub open spec fn b64_invalid_prefix() -> Seq<char> {
    "signature value is not valid base64: "@
}

pub open spec fn no_value_label_msg(t: Seq<char>) -> Seq<char> {
    "no label or signature-value prefix found at start: "@ + str_debug(snippet40(t))
}

/// The text between the colons of `rest`.
pub open spec fn colon_inner(rest: Seq<char>) -> Seq<char> {
    rest.subrange(1, rest.len() - 1)
}

/// The parse of a Signature header value: the label and the signature bytes,
/// or the error message.
pub open spec fn spec_parse_signature_value(h: Seq<char>) -> Result<(Seq<char>, Seq<u8>), Seq<char>> {
    let t = trim_ws(h);
    if t.len() == 0 {
        Err("empty Signature header value"@)
    } else {
        match value_label_rest(t) {
            None => Err(no_value_label_msg(t)),
            Some((label, rest)) => if !(rest.len() >= 2 && rest[0] == ':' && rest[rest.len() - 1]
                == ':') {
                Err("signature value must be wrapped in colons (RFC 8941 byte-sequence form)"@)
            } else {
                match b64_decode_spec(colon_inner(rest)) {
                    None => Err(b64_invalid_prefix() + b64_error_text(colon_inner(rest))),
                    Some(b) => if b64_encode_spec(b) != colon_inner(rest) {
                        Err("signature value is not canonical base64 (non-zero pad bits)"@)
                    } else {
                        Ok((label, b))
                    },
                }
            },
        }
    }
}

/// Whether `c` is an ASCII letter, digit, `_` or `-`.
pub open spec fn label_char(c: char) -> bool {
    ||| 'a' <= c <= 'z'
    ||| 'A' <= c <= 'Z'
    ||| '0' <= c <= '9'
    ||| c == '_'
    ||| c == '-'
}

/// Whether `l` is a label: `[A-Za-z][A-Za-z0-9_-]*`.
pub open spec fn is_label(l: Seq<char>) -> bool {
    &&& l.len() > 0
    &&& ('a' <= l[0] <= 'z' || 'A' <= l[0] <= 'Z')
    &&& forall|i: int| 1 <= i < l.len() ==> label_char(#[trigger] l[i])
}

/// A text that begins and ends with a character other than white space is
/// its own trim.
proof fn lemma_trim_unchanged(t: Seq<char>)
    requires
        t.len() > 0,
        !is_ws(t[0]),
        !is_ws(t[t.len() - 1]),
    ensures
        trim_ws(t) == t,
{
    lemma_run_end_unique(t, 0, 0, CharClass::Ws);
    lemma_run_start_back_unique(t, t.len() as int, t.len() as int, CharClass::Ws);
    assert(t.subrange(0, t.len() as int) =~= t);
}

/// A Signature value written as `<label>=:<s>:` or `:<s>:`, where `s` is the
/// canonical base64 text of `b` (`STANDARD.encode(b)`, which decodes back to
/// `b`), parses to that label (empty without one) and `b`.
pub proof fn lemma_signature_value_roundtrip(label: Seq<char>, s: Seq<char>, b: Seq<u8>)
    requires
        b64_encode_spec(b) == s,
        b64_decode_spec(s) == Some(b),
        label.len() == 0 || is_label(label),
    ensures
        spec_parse_signature_value(
            if label.len() == 0 {
                seq![':'] + s + seq![':']
            } else {
                label + seq!['=', ':'] + s + seq![':']
            },
        ) == Ok::<(Seq<char>, Seq<u8>), Seq<char>>((label, b)),
{
    let v = seq![':'] + s + seq![':'];
    assert(v[0] == ':');
    assert(v[v.len() - 1] == ':');
    lemma_trim_unchanged(v);
    assert(colon_inner(v) =~= s);
    if label.len() == 0 {
        assert(label_match(v) is None) by {
            lemma_run_end_unique(v, 0, 0, CharClass::Ws);
        }
        assert(value_label_rest(v) == Some((Seq::<char>::empty(), v)));
        assert(label =~= Seq::<char>::empty());
    } else {
        let h = label + seq!['=', ':'] + s + seq![':'];
        let n = label.len() as int;
        assert(h[0] == label[0]);
        assert(h[h.len() - 1] == ':');
        lemma_trim_unchanged(h);
        lemma_run_end_unique(h, 0, 0, CharClass::Ws);
        assert forall|k: int| 1 <= k < n implies in_class(CharClass::NameTail, #[trigger] h[k]) by {
            assert(h[k] == label[k]);
            assert(label_char(label[k]));
        }
        assert(h[n] == '=');
        lemma_run_end_unique(h, 1, n, CharClass::NameTail);
        lemma_run_end_unique(h, n, n, CharClass::Ws);
        assert(h[n + 1] == ':');
        lemma_run_end_unique(h, n + 1, n + 1, CharClass::Ws);
        assert(label_match(h) == Some((0int, n, n + 1)));
        assert(h.subrange(0, n) =~= label);
        assert(h.subrange(n + 1, h.len() as int) =~= v);
    }
}

/// A parsed Signature value is canonical: the text between the colons of
/// the (trimmed) value decodes to the signature bytes, and re-encoding those
/// bytes gives exactly that text back.
pub proof fn lemma_signature_value_canonical(h: Seq<char>)
    ensures
        spec_parse_signature_value(h) matches Ok((l, b)) ==> (value_label_rest(trim_ws(h)) matches Some((
            l2,
            rest,
        )) && l2 == l && b64_decode_spec(colon_inner(rest)) == Some(b) && b64_encode_spec(b) == colon_inner(
            rest,
        )),
{
}

/// Parses a Signature header value into its label and signature bytes.
/// Non-canonical base64 (whose re-encoding differs) is refused.
pub fn parse_signature_value(header_value: &str) -> (r: Result<(String, Vec<u8>), SignatureInputParseError>)
    ensures
        r matches Ok(x) ==> spec_parse_signature_value(header_value@) == Ok::<
            (Seq<char>, Seq<u8>),
            Seq<char>,
        >((x.0@, x.1@)),
        r matches Err(e) ==> (spec_parse_signature_value(header_value@) matches Err(m) && (e.0@ == m)),
        r matches Ok(x) ==> exists|inner: Seq<char>|
            b64_decode_spec(inner) == Some(x.1@) && b64_encode_spec(x.1@) == inner,
{
    let hv = chars_of(header_value);
    let t = trim_chars(&hv, CharClass::Ws);
    if t.len() == 0 {
        return Err(SignatureInputParseError::new(String::from_str("empty Signature header value")));
    }
    let (label, rest): (Vec<char>, Vec<char>) = match label_exec(&t) {
        Some((a, b, e)) => {
            let tail = sub_chars(&t, e, t.len());
            (sub_chars(&t, a, b), trim_chars(&tail, CharClass::Ws))
        },
        None => {
            if t[0] == ':' {
                (Vec::new(), t.clone())
            } else {
                let snippet = sub_chars(&t, 0, if t.len() < 40 { t.len() } else { 40 });
                assert(snippet@ =~= snippet40(t@));
                let s = string_from_chars(snippet.as_slice());
                let d = debug_str(s.as_str());
                return Err(
                    SignatureInputParseError::new(
                        concat_str("no label or signature-value prefix found at start: ", d.as_str()),
                    ),
                );
            }
        },
    };
    assert(value_label_rest(t@) == Some((label@, rest@)));
    let n = rest.len();
    if !(n >= 2 && rest[0] == ':' && rest[n - 1] == ':') {
        return Err(
            SignatureInputParseError::new(
                String::from_str(
                    "signature value must be wrapped in colons (RFC 8941 byte-sequence form)",
                ),
            ),
        );
    }
    let inner = string_from_chars(sub_chars(&rest, 1, n - 1).as_slice());
    let sig_bytes = match b64_decode(inner.as_str()) {
        Ok(b) => b,
        Err(e) => {
            let text = decode_error_text(&e);
            let msg = concat_str("signature value is not valid base64: ", text.as_str());
            return Err(SignatureInputParseError::new(msg));
        },
    };
    let reencoded = b64_encode(sig_bytes.as_slice());
    assert(b64_decode_spec(inner@) == Some(sig_bytes@));
    if reencoded != inner {
        return Err(
            SignatureInputParseError::new(
                String::from_str("signature value is not canonical base64 (non-zero pad bits)"),
            ),
        );
    }
    Ok((string_from_chars(label.as_slice()), sig_bytes))
}

} // verus!
