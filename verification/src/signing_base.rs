//! RFC 9421 Section 2.5 signing-base construction.
//!
//! The signing base is a deterministic character sequence assembled from the
//! HTTP message's covered components, in the order of the Signature-Input
//! header's covered-components list. Each line is
//!
//! ```text
//! "<component-name>": <component-value>
//! ```
//!
//! and the lines are joined with `\n`.

use vstd::prelude::*;

use crate::text::{
    chars_of, concat_str, debug_str, i64_to_chars, int_repr, lower, push_all, push_str, str_debug,
    str_eq, str_lower, string_from_chars,
};

verus! {

/// Raised when the signing base cannot be constructed.
#[derive(Debug, Clone, PartialEq, Eq)]
pub struct SigningBaseError(pub String);

impl SigningBaseError {
    pub fn new(msg: String) -> (r: Self)
        ensures
            r.0@ == msg@,
    {
        SigningBaseError(msg)
    }
}

/// A parameter value carried in Signature-Input (`created`, `expires`,
/// `alg`, ...): either an integer or a string.
#[derive(Debug, PartialEq, Eq)]
pub enum ParamValue {
    Int(i64),
    Str(String),
}

impl Clone for ParamValue {
    fn clone(&self) -> (r: Self)
        ensures
            r == *self,
    {
        match self {
            ParamValue::Int(i) => ParamValue::Int(*i),
            ParamValue::Str(s) => ParamValue::Str(s.clone()),
        }
    }
}

/// The value of a parameter, as contracts speak of it.
pub enum ParamView {
    Int(i64),
    Str(Seq<char>),
}

impl ParamView {
    /// How the value renders into the signing base.
    pub open spec fn signing_str(&self) -> Seq<char> {
        match self {
            ParamView::Int(i) => int_repr(*i as int),
            ParamView::Str(s) => *s,
        }
    }
}

impl View for ParamValue {
    type V = ParamView;

    open spec fn view(&self) -> ParamView {
        match self {
            ParamValue::Int(i) => ParamView::Int(*i),
            ParamValue::Str(s) => ParamView::Str(s@),
        }
    }
}

/// A parameter list as contracts speak of it.
pub open spec fn params_view(ps: Seq<(String, ParamValue)>) -> Seq<(Seq<char>, ParamView)> {
    ps.map_values(|p: (String, ParamValue)| (p.0@, p.1@))
}

impl ParamValue {
    /// The value as it renders into the signing base: the decimal form of an
    /// integer, or the string itself.
    pub fn as_signing_str(&self) -> (r: String)
        ensures
            r@ == self@.signing_str(),
    {
        match self {
            ParamValue::Int(i) => {
                let cs = i64_to_chars(*i);
                string_from_chars(cs.as_slice())
            },
            ParamValue::Str(s) => s.clone(),
        }
    }
}

/// The signing-base construction mode.
#[derive(Debug, Clone, Copy, PartialEq, Eq, Structural)]
pub enum Mode {
    /// Legacy internal format: `@method` lowercased, no `@signature-params` line.
    AlgovoiV0,
    /// RFC 9421 Section 2.5: `@method` as supplied, `@signature-params` appended.
    Rfc9421,
}

impl Default for Mode {
    fn default() -> (r: Mode)
        ensures
            r == Mode::AlgovoiV0,
    {
        Mode::AlgovoiV0
    }
}

pub open spec fn mode_parse_error(s: Seq<char>) -> Seq<char> {
    "mode must be 'algovoi-v0' or 'rfc9421', got "@ + str_debug(s)
}

impl Mode {
    /// Parses the wire mode string: `algovoi-v0` or `rfc9421`.
    pub fn parse(s: &str) -> (r: Result<Mode, SigningBaseError>)
        ensures
            s@ == "algovoi-v0"@ ==> r == Ok::<Mode, SigningBaseError>(Mode::AlgovoiV0),
            s@ == "rfc9421"@ ==> r == Ok::<Mode, SigningBaseError>(Mode::Rfc9421),
            s@ != "algovoi-v0"@ && s@ != "rfc9421"@ ==> (r matches Err(e) && e.0@ == mode_parse_error(s@)),
    {
        proof {
            reveal_strlit("algovoi-v0");
            reveal_strlit("rfc9421");
            assert("rfc9421"@.len() == 7);
            assert("algovoi-v0"@.len() == 10);
        }
        if str_eq(s, "algovoi-v0") {
            Ok(Mode::AlgovoiV0)
        } else if str_eq(s, "rfc9421") {
            Ok(Mode::Rfc9421)
        } else {
            let d = debug_str(s);
            Err(SigningBaseError::new(concat_str("mode must be 'algovoi-v0' or 'rfc9421', got ", d.as_str())))
        }
    }
}

/// Inputs for [`build_signing_base`]. `None` fields are "not supplied".
///
/// `headers` are looked up case-insensitively; where two names differ only
/// in case, the later pair wins. `parameters` are looked up by exact name;
/// the later pair wins.
pub struct SigningBaseInput<'a> {
    pub covered_components: Vec<String>,
    pub method: Option<&'a str>,
    pub authority: Option<&'a str>,
    pub path: Option<&'a str>,
    pub target_uri: Option<&'a str>,
    pub scheme: Option<&'a str>,
    pub status: Option<i64>,
    pub headers: Vec<(String, String)>,
    pub parameters: Vec<(String, ParamValue)>,
    pub mode: Mode,
    pub signature_params_raw: Option<String>,
}

/// The inputs of the signing base, as contracts speak of them.
pub struct SbInputView {
    pub covered: Seq<Seq<char>>,
    pub method: Option<Seq<char>>,
    pub authority: Option<Seq<char>>,
    pub path: Option<Seq<char>>,
    pub target_uri: Option<Seq<char>>,
    pub scheme: Option<Seq<char>>,
    pub status: Option<i64>,
    pub headers: Seq<(Seq<char>, Seq<char>)>,
    pub parameters: Seq<(Seq<char>, ParamView)>,
    pub mode: Mode,
    pub raw: Option<Seq<char>>,
}

pub open spec fn opt_str_view(o: Option<&str>) -> Option<Seq<char>> {
    match o {
        Some(s) => Some(s@),
        None => None,
    }
}

pub open spec fn opt_string_view(o: Option<String>) -> Option<Seq<char>> {
    match o {
        Some(s) => Some(s@),
        None => None,
    }
}

/// A list of string pairs, as contracts speak of it.
pub open spec fn pairs_view(v: Seq<(String, String)>) -> Seq<(Seq<char>, Seq<char>)> {
    v.map_values(|p: (String, String)| (p.0@, p.1@))
}

pub open spec fn strings_view(v: Seq<String>) -> Seq<Seq<char>> {
    v.map_values(|s: String| s@)
}

impl<'a> View for SigningBaseInput<'a> {
    type V = SbInputView;

    open spec fn view(&self) -> SbInputView {
        SbInputView {
            covered: strings_view(self.covered_components@),
            method: opt_str_view(self.method),
            authority: opt_str_view(self.authority),
            path: opt_str_view(self.path),
            target_uri: opt_str_view(self.target_uri),
            scheme: opt_str_view(self.scheme),
            status: self.status,
            headers: pairs_view(self.headers@),
            parameters: params_view(self.parameters@),
            mode: self.mode,
            raw: opt_string_view(self.signature_params_raw),
        }
    }
}

impl<'a> Default for SigningBaseInput<'a> {
    fn default() -> (r: Self)
        ensures
            r.covered_components@.len() == 0,
            r.method is None,
            r.authority is None,
            r.path is None,
            r.target_uri is None,
            r.scheme is None,
            r.status is None,
            r.headers@.len() == 0,
            r.parameters@.len() == 0,
            r.mode == Mode::AlgovoiV0,
            r.signature_params_raw is None,
    {
        SigningBaseInput {
            covered_components: Vec::new(),
            method: None,
            authority: None,
            path: None,
            target_uri: None,
            scheme: None,
            status: None,
            headers: Vec::new(),
            parameters: Vec::new(),
            mode: Mode::AlgovoiV0,
            signature_params_raw: None,
        }
    }
}

/// The value of the last header whose lowercased name is `name`.
pub open spec fn header_lookup(hs: Seq<(Seq<char>, Seq<char>)>, name: Seq<char>) -> Option<Seq<char>>
    decreases hs.len(),
{
    if hs.len() == 0 {
        None
    } else if str_lower(hs.last().0) == name {
        Some(hs.last().1)
    } else {
        header_lookup(hs.drop_last(), name)
    }
}

/// The value of the last parameter named exactly `key`.
pub open spec fn param_lookup(ps: Seq<(Seq<char>, ParamView)>, key: Seq<char>) -> Option<ParamView>
    decreases ps.len(),
{
    if ps.len() == 0 {
        None
    } else if ps.last().0 == key {
        Some(ps.last().1)
    } else {
        param_lookup(ps.drop_last(), key)
    }
}

pub open spec fn missing_msg(name: Seq<char>, field: Seq<char>) -> Seq<char> {
    name + " covered but "@ + field + " not supplied"@
}

pub open spec fn missing_param_msg(name: Seq<char>) -> Seq<char> {
    "'"@ + name + "' covered but no '"@ + name + "' parameter in Signature-Input"@
}

/// The value that covered component `comp` contributes to the signing base,
/// or the error that stops the construction.
pub open spec fn component_value(input: SbInputView, comp: Seq<char>) -> Result<Seq<char>, Seq<char>> {
    let c = str_lower(comp);
    if c == "@method"@ {
        match input.method {
            None => Err(missing_msg("@method"@, "method"@)),
            Some(m) => Ok(
                if input.mode == Mode::Rfc9421 {
                    m
                } else {
                    str_lower(m)
                },
            ),
        }
    } else if c == "@authority"@ {
        match input.authority {
            None => Err(missing_msg("@authority"@, "authority"@)),
            Some(a) => Ok(str_lower(a)),
        }
    } else if c == "@path"@ {
        match input.path {
            None => Err(missing_msg("@path"@, "path"@)),
            Some(p) => Ok(p),
        }
    } else if c == "@target-uri"@ {
        match input.target_uri {
            None => Err(missing_msg("@target-uri"@, "target_uri"@)),
            Some(t) => Ok(t),
        }
    } else if c == "@scheme"@ {
        match input.scheme {
            None => Err(missing_msg("@scheme"@, "scheme"@)),
            Some(s) => Ok(str_lower(s)),
        }
    } else if c == "@status"@ {
        match input.status {
            None => Err(missing_msg("@status"@, "status"@)),
            Some(st) => Ok(int_repr(st as int)),
        }
    } else if c == "created"@ {
        match param_lookup(input.parameters, "created"@) {
            None => Err(missing_param_msg("created"@)),
            Some(v) => Ok(v.signing_str()),
        }
    } else if c == "expires"@ {
        match param_lookup(input.parameters, "expires"@) {
            None => Err(missing_param_msg("expires"@)),
            Some(v) => Ok(v.signing_str()),
        }
    } else if c.len() > 0 && c[0] == '@' {
        Err("unsupported derived component: "@ + str_debug(comp))
    } else {
        match header_lookup(input.headers, c) {
            Some(v) => Ok(v),
            None => Err("covered header "@ + str_debug(comp) + " not present in supplied headers"@),
        }
    }
}

/// One signing-base line: `"<name>": <value>`.
pub open spec fn base_line(name: Seq<char>, value: Seq<char>) -> Seq<char> {
    seq!['"'] + name + seq!['"', ':', ' '] + value
}

/// The lines of the covered components, or the first component's error.
pub open spec fn component_lines(input: SbInputView, comps: Seq<Seq<char>>) -> Result<Seq<Seq<char>>, Seq<char>>
    decreases comps.len(),
{
    if comps.len() == 0 {
        Ok(Seq::empty())
    } else {
        match component_lines(input, comps.drop_last()) {
            Err(e) => Err(e),
            Ok(ls) => match component_value(input, comps.last()) {
                Err(e) => Err(e),
                Ok(v) => Ok(ls.push(base_line(str_lower(comps.last()), v))),
            },
        }
    }
}

/// Lines joined with a newline between each two.
pub open spec fn join_lines(ls: Seq<Seq<char>>) -> Seq<char>
    decreases ls.len(),
{
    if ls.len() == 0 {
        Seq::empty()
    } else if ls.len() == 1 {
        ls[0]
    } else {
        join_lines(ls.drop_last()) + seq!['\n'] + ls.last()
    }
}

pub open spec fn raw_params_missing_msg() -> Seq<char> {
    "rfc9421 mode requires signature_params_raw (the post-label portion of the Signature-Input header)"@
}

/// The signing base of `input`, or the message of the error that stops its
/// construction.
pub open spec fn spec_signing_base(input: SbInputView) -> Result<Seq<char>, Seq<char>> {
    if input.mode == Mode::Rfc9421 && input.raw is None {
        Err(raw_params_missing_msg())
    } else {
        match component_lines(input, input.covered) {
            Err(e) => Err(e),
            Ok(ls) => Ok(
                join_lines(
                    if input.mode == Mode::Rfc9421 {
                        ls.push(base_line("@signature-params"@, input.raw->0))
                    } else {
                        ls
                    },
                ),
            ),
        }
    }
}

proof fn lemma_join_push(ls: Seq<Seq<char>>, l: Seq<char>)
    ensures
        join_lines(ls.push(l)) == if ls.len() == 0 {
            l
        } else {
            join_lines(ls) + seq!['\n'] + l
        },
{
    assert(ls.push(l).drop_last() =~= ls);
    if ls.len() == 0 {
        assert(ls.push(l)[0] == l);
    }
}

/// Whether two header lists differ at most in the case of their names.
pub open spec fn same_up_to_name_case(a: Seq<(Seq<char>, Seq<char>)>, b: Seq<(Seq<char>, Seq<char>)>) -> bool {
    &&& a.len() == b.len()
    &&& forall|i: int|
        0 <= i < a.len() ==> str_lower(#[trigger] a[i].0) == str_lower(b[i].0) && a[i].1 == b[i].1
}

proof fn lemma_header_lookup_case(a: Seq<(Seq<char>, Seq<char>)>, b: Seq<(Seq<char>, Seq<char>)>, name: Seq<char>)
    requires
        same_up_to_name_case(a, b),
    ensures
        header_lookup(a, name) == header_lookup(b, name),
    decreases a.len(),
{
    if a.len() > 0 {
        let n = a.len() - 1;
        assert(str_lower(a[n].0) == str_lower(b[n].0) && a[n].1 == b[n].1);
        assert(same_up_to_name_case(a.drop_last(), b.drop_last())) by {
            assert forall|i: int| 0 <= i < a.drop_last().len() implies str_lower(
                #[trigger] a.drop_last()[i].0,
            ) == str_lower(b.drop_last()[i].0) && a.drop_last()[i].1 == b.drop_last()[i].1 by {
                assert(a.drop_last()[i] == a[i]);
                assert(b.drop_last()[i] == b[i]);
            }
        }
        lemma_header_lookup_case(a.drop_last(), b.drop_last(), name);
    }
}

proof fn lemma_component_lines_case(input: SbInputView, headers: Seq<(Seq<char>, Seq<char>)>, comps: Seq<Seq<char>>)
    requires
        same_up_to_name_case(input.headers, headers),
    ensures
        component_lines(input, comps) == component_lines((SbInputView { headers, ..input }), comps),
    decreases comps.len(),
{
    if comps.len() > 0 {
        lemma_component_lines_case(input, headers, comps.drop_last());
        lemma_header_lookup_case(input.headers, headers, str_lower(comps.last()));
    }
}

/// Headers are looked up case-insensitively: renaming headers with another
/// case leaves the signing base (or its error) unchanged.
pub proof fn lemma_header_names_case_insensitive(input: SbInputView, headers: Seq<(Seq<char>, Seq<char>)>)
    requires
        same_up_to_name_case(input.headers, headers),
    ensures
        spec_signing_base(input) == spec_signing_base((SbInputView { headers, ..input })),
{
    lemma_component_lines_case(input, headers, input.covered);
}

/// In `rfc9421` mode a signing base always ends with the
/// `"@signature-params": <raw parameters block>` line.
pub proof fn lemma_rfc9421_ends_with_params(input: SbInputView)
    ensures
        input.mode == Mode::Rfc9421 && spec_signing_base(input) is Ok ==> input.raw is Some && ({
            let b = spec_signing_base(input)->Ok_0;
            let l = base_line("@signature-params"@, input.raw->0);
            b.len() >= l.len() && b.subrange(b.len() - l.len(), b.len() as int) == l
        }),
{
    if input.mode == Mode::Rfc9421 && spec_signing_base(input) is Ok {
        let ls = component_lines(input, input.covered)->Ok_0;
        let l = base_line("@signature-params"@, input.raw->0);
        lemma_join_push(ls, l);
        let b = spec_signing_base(input)->Ok_0;
        if ls.len() == 0 {
            assert(b.subrange(0, b.len() as int) =~= l);
        } else {
            assert(b.subrange(b.len() - l.len(), b.len() as int) =~= l);
        }
    }
}

/// The line of each covered component, in input order, from its value.
pub open spec fn covered_lines(input: SbInputView, comps: Seq<Seq<char>>) -> Seq<Seq<char>> {
    Seq::new(comps.len(), |i: int| base_line(str_lower(comps[i]), component_value(input, comps[i])->Ok_0))
}

proof fn lemma_component_lines_law(input: SbInputView, comps: Seq<Seq<char>>)
    ensures
        component_lines(input, comps) is Ok <==> forall|i: int|
            0 <= i < comps.len() ==> #[trigger] component_value(input, comps[i]) is Ok,
        component_lines(input, comps) is Ok ==> component_lines(input, comps)->Ok_0 == covered_lines(input, comps),
    decreases comps.len(),
{
    if comps.len() > 0 {
        let init = comps.drop_last();
        lemma_component_lines_law(input, init);
        assert forall|i: int| 0 <= i < init.len() implies init[i] == comps[i] by {}
        if component_lines(input, comps) is Ok {
            assert(component_lines(input, comps)->Ok_0 =~= covered_lines(input, comps));
        } else if component_lines(input, init) is Err {
            let j = choose|j: int| 0 <= j < init.len() && !(#[trigger] component_value(input, init[j]) is Ok);
            assert(component_value(input, comps[j]) is Err);
        } else {
            assert(component_value(input, comps[comps.len() - 1]) is Err);
        }
    }
}

/// The signing base is the covered components' lines, one per component in
/// input order (`"<lowercased name>": <value>`), followed in `rfc9421` mode
/// by the `@signature-params` line, joined with newlines. It is built
/// exactly when every covered component has a value and, in `rfc9421` mode,
/// the raw parameters block is given.
pub proof fn lemma_signing_base_lines(input: SbInputView)
    ensures
        spec_signing_base(input) is Ok <==> !(input.mode == Mode::Rfc9421 && input.raw is None) && forall|i: int|
            0 <= i < input.covered.len() ==> #[trigger] component_value(input, input.covered[i]) is Ok,
        spec_signing_base(input) is Ok ==> spec_signing_base(input)->Ok_0 == join_lines(
            if input.mode == Mode::Rfc9421 {
                covered_lines(input, input.covered).push(base_line("@signature-params"@, input.raw->0))
            } else {
                covered_lines(input, input.covered)
            },
        ),
{
    lemma_component_lines_law(input, input.covered);
}

/// Whether the lowercased component `c` is the literal `lit`.
fn is_name(c: &String, lit: &str) -> (b: bool)
    ensures
        b == (c@ == lit@),
{
    str_eq(c.as_str(), lit)
}

/// The value of the last header whose lowercased name is `name`.
pub fn header_get(hs: &[(String, String)], name: &String) -> (r: Option<String>)
    ensures
        r matches Some(v) ==> header_lookup(pairs_view(hs@), name@) == Some(v@),
        r is None ==> header_lookup(pairs_view(hs@), name@) is None,
{
    let ghost hv = pairs_view(hs@);
    let mut k = hs.len();
    assert(hv.take(k as int) =~= hv);
    while k > 0
        invariant
            k <= hs@.len(),
            hv == pairs_view(hs@),
            header_lookup(hv, name@) == header_lookup(hv.take(k as int), name@),
        decreases k,
    {
        let key = lower(hs[k - 1].0.as_str());
        let ghost t = hv.take(k as int);
        assert(t.drop_last() =~= hv.take(k - 1));
        assert(t.last() == (hs@[k - 1].0@, hs@[k - 1].1@));
        if key == *name {
            return Some(hs[k - 1].1.clone());
        }
        k = k - 1;
    }
    None
}

/// `parameters.get(key)` with the later pair winning.
pub fn param_get<'b>(ps: &'b [(String, ParamValue)], key: &str) -> (r: Option<&'b ParamValue>)
    ensures
        r matches Some(v) ==> param_lookup(params_view(ps@), key@) == Some(v@),
        r is None ==> param_lookup(params_view(ps@), key@) is None,
{
    let ghost pv = params_view(ps@);
    let mut k = ps.len();
    assert(pv.take(k as int) =~= pv);
    while k > 0
        invariant
            k <= ps@.len(),
            pv == params_view(ps@),
            param_lookup(pv, key@) == param_lookup(pv.take(k as int), key@),
        decreases k,
    {
        let ghost t = pv.take(k as int);
        assert(t.drop_last() =~= pv.take(k - 1));
        assert(t.last() == (ps@[k - 1].0@, ps@[k - 1].1@));
        if str_eq(ps[k - 1].0.as_str(), key) {
            return Some(&ps[k - 1].1);
        }
        k = k - 1;
    }
    None
}

fn missing_error(name: &str, field: &str) -> (e: SigningBaseError)
    ensures
        e.0@ == missing_msg(name@, field@),
{
    let mut out = chars_of(name);
    push_str(&mut out, " covered but ");
    push_str(&mut out, field);
    push_str(&mut out, " not supplied");
    SigningBaseError::new(string_from_chars(out.as_slice()))
}

fn missing_param_error(name: &str) -> (e: SigningBaseError)
    ensures
        e.0@ == missing_param_msg(name@),
{
    let mut out = chars_of("'");
    push_str(&mut out, name);
    push_str(&mut out, "' covered but no '");
    push_str(&mut out, name);
    push_str(&mut out, "' parameter in Signature-Input");
    SigningBaseError::new(string_from_chars(out.as_slice()))
}

/// The value of one covered component.
fn component_value_exec(input: &SigningBaseInput, component: &String) -> (r: Result<Vec<char>, SigningBaseError>)
    ensures
        r matches Ok(v) ==> component_value(input@, component@) == Ok::<Seq<char>, Seq<char>>(v@),
        r matches Err(e) ==> component_value(input@, component@) == Err::<Seq<char>, Seq<char>>(e.0@),
{
    let c = lower(component.as_str());
    if is_name(&c, "@method") {
        match input.method {
            None => Err(missing_error("@method", "method")),
            Some(m) => {
                if input.mode == Mode::Rfc9421 {
                    Ok(chars_of(m))
                } else {
                    let l = lower(m);
                    Ok(chars_of(l.as_str()))
                }
            },
        }
    } else if is_name(&c, "@authority") {
        match input.authority {
            None => Err(missing_error("@authority", "authority")),
            Some(a) => {
                let l = lower(a);
                Ok(chars_of(l.as_str()))
            },
        }
    } else if is_name(&c, "@path") {
        match input.path {
            None => Err(missing_error("@path", "path")),
            Some(p) => Ok(chars_of(p)),
        }
    } else if is_name(&c, "@target-uri") {
        match input.target_uri {
            None => Err(missing_error("@target-uri", "target_uri")),
            Some(t) => Ok(chars_of(t)),
        }
    } else if is_name(&c, "@scheme") {
        match input.scheme {
            None => Err(missing_error("@scheme", "scheme")),
            Some(s) => {
                let l = lower(s);
                Ok(chars_of(l.as_str()))
            },
        }
    } else if is_name(&c, "@status") {
        match input.status {
            None => Err(missing_error("@status", "status")),
            Some(st) => Ok(i64_to_chars(st)),
        }
    } else if is_name(&c, "created") {
        match param_get(input.parameters.as_slice(), "created") {
            None => Err(missing_param_error("created")),
            Some(v) => {
                let s = v.as_signing_str();
                Ok(chars_of(s.as_str()))
            },
        }
    } else if is_name(&c, "expires") {
        match param_get(input.parameters.as_slice(), "expires") {
            None => Err(missing_param_error("expires")),
            Some(v) => {
                let s = v.as_signing_str();
                Ok(chars_of(s.as_str()))
            },
        }
    } else {
        let cs = chars_of(c.as_str());
        if cs.len() > 0 && cs[0] == '@' {
            let d = debug_str(component.as_str());
            Err(SigningBaseError::new(concat_str("unsupported derived component: ", d.as_str())))
        } else {
            match header_get(input.headers.as_slice(), &c) {
                Some(v) => Ok(chars_of(v.as_str())),
                None => {
                    let d = debug_str(component.as_str());
                    let mut out = chars_of("covered header ");
                    push_str(&mut out, d.as_str());
                    push_str(&mut out, " not present in supplied headers");
                    Err(SigningBaseError::new(string_from_chars(out.as_slice())))
                },
            }
        }
    }
}

/// Pushes `"<name>": <value>` onto `out`.
fn push_line(out: &mut Vec<char>, name: &Vec<char>, value: &Vec<char>)
    ensures
        final(out)@ == old(out)@ + base_line(name@, value@),
{
    out.push('"');
    push_all(out, name);
    out.push('"');
    out.push(':');
    out.push(' ');
    push_all(out, value);
    assert(final(out)@ =~= old(out)@ + base_line(name@, value@));
}

/// Builds the RFC 9421 signing base.
pub fn build_signing_base(input: &SigningBaseInput) -> (r: Result<String, SigningBaseError>)
    ensures
        r matches Ok(s) ==> spec_signing_base(input@) == Ok::<Seq<char>, Seq<char>>(s@),
        r matches Err(e) ==> spec_signing_base(input@) == Err::<Seq<char>, Seq<char>>(e.0@),
{
    if input.mode == Mode::Rfc9421 && input.signature_params_raw.is_none() {
        return Err(
            SigningBaseError::new(
                String::from_str(
                    "rfc9421 mode requires signature_params_raw (the post-label portion of the Signature-Input header)",
                ),
            ),
        );
    }
    let mut out: Vec<char> = Vec::new();
    let ghost mut ls: Seq<Seq<char>> = Seq::empty();
    let n = input.covered_components.len();
    let ghost cv = strings_view(input.covered_components@);
    let mut i: usize = 0;
    while i < n
        invariant
            n == input.covered_components@.len(),
            i <= n,
            !(input.mode == Mode::Rfc9421 && input.signature_params_raw is None),
            input@.covered == cv,
            cv == strings_view(input.covered_components@),
            component_lines(input@, cv.take(i as int)) == Ok::<
                Seq<Seq<char>>,
                Seq<char>,
            >(ls),
            out@ == join_lines(ls),
            ls.len() == i,
        decreases n - i,
    {
        let component = &input.covered_components[i];
        let ghost prefix = cv.take(i + 1);
        assert(prefix.drop_last() =~= cv.take(i as int));
        assert(prefix.last() == input.covered_components@[i as int]@);
        let value = match component_value_exec(input, component) {
            Ok(v) => v,
            Err(e) => {
                assert(component_lines(input@, prefix) == Err::<Seq<Seq<char>>, Seq<char>>(e.0@));
                proof {
                    lemma_component_lines_err(input@, cv, i + 1);
                }
                return Err(e);
            },
        };
        let lname = lower(component.as_str());
        let name = chars_of(lname.as_str());
        proof {
            lemma_join_push(ls, base_line(name@, value@));
        }
        if i > 0 {
            out.push('\n');
        }
        push_line(&mut out, &name, &value);
        proof {
            ls = ls.push(base_line(name@, value@));
        }
        i = i + 1;
    }
    assert(cv.take(n as int) =~= cv);
    if input.mode == Mode::Rfc9421 {
        let raw = match &input.signature_params_raw {
            Some(r) => chars_of(r.as_str()),
            None => Vec::new(),
        };
        let name = chars_of("@signature-params");
        proof {
            lemma_join_push(ls, base_line(name@, raw@));
        }
        if n > 0 {
            out.push('\n');
        }
        push_line(&mut out, &name, &raw);
        assert(out@ =~= join_lines(ls.push(base_line(name@, raw@))));
        proof {
            reveal_strlit("@signature-params");
        }
    }
    Ok(string_from_chars(out.as_slice()))
}

/// Once a prefix of the components fails, the whole list fails the same way.
proof fn lemma_component_lines_err(input: SbInputView, comps: Seq<Seq<char>>, k: int)
    requires
        0 <= k <= comps.len(),
        component_lines(input, comps.take(k)) is Err,
    ensures
        component_lines(input, comps) == component_lines(input, comps.take(k)),
    decreases comps.len() - k,
{
    if k == comps.len() {
        assert(comps.take(k) =~= comps);
    } else {
        let t = comps.take(k + 1);
        assert(t.drop_last() =~= comps.take(k));
        lemma_component_lines_err(input, comps, k + 1);
    }
}

} // verus!
