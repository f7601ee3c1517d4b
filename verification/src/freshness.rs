//! RFC 9421 signature freshness and replay checks.
//!
//! Trust rule: only covered (signed) `created` / `expires` values are
//! honoured. A freshness requirement against an uncovered, unsigned parameter
//! fails closed.

use vstd::prelude::*;

use crate::signing_base::{param_get, param_lookup, params_view, strings_view, ParamValue, ParamView};
use crate::text::{
    chars_of, concat_str, debug_str, lower, parse_i64, push_str, run_end, scan, spec_parse_i64,
    str_debug, str_eq, str_lower, string_from_chars, sub_chars, trim_chars, trim_class, trim_ws,
    CharClass,
};

verus! {

/// Raised when a signature is stale, not yet valid, expired, or malformed in
/// its time parameters.
#[derive(Debug, Clone, PartialEq, Eq)]
pub struct FreshnessError(pub String);

impl FreshnessError {
    pub fn new(msg: String) -> (r: Self)
        ensures
            r.0@ == msg@,
    {
        FreshnessError(msg)
    }
}

/// Options for [`check_freshness`].
#[derive(Debug, Clone)]
pub struct FreshnessOptions {
    pub now: i64,
    pub max_age_seconds: Option<i64>,
    pub max_skew_seconds: i64,
    pub enforce_expires: bool,
    pub require_created: bool,
    pub params_signed: bool,
}

impl Default for FreshnessOptions {
    fn default() -> (r: Self)
        ensures
            r.now == 0,
            r.max_age_seconds is None,
            r.max_skew_seconds == 60,
            r.enforce_expires,
            !r.require_created,
            r.params_signed,
    {
        FreshnessOptions {
            now: 0,
            max_age_seconds: None,
            max_skew_seconds: 60,
            enforce_expires: true,
            require_created: false,
            params_signed: true,
        }
    }
}

/// The part of `s` before its first `;` (all of it when there is none).
pub open spec fn before_semicolon(s: Seq<char>) -> Seq<char> {
    s.take(run_end(s, 0, CharClass::NotSemicolon))
}

/// The name a covered component stands for: trimmed, unquoted, cut at the
/// first `;`, trimmed and unquoted again, lowercased.
pub open spec fn covered_name(comp: Seq<char>) -> Seq<char> {
    let raw = trim_class(trim_ws(comp), CharClass::Dquote);
    str_lower(trim_class(trim_ws(before_semicolon(raw)), CharClass::Dquote))
}

/// Whether some covered component names `name`.
pub open spec fn names_covered(comps: Seq<Seq<char>>, name: Seq<char>) -> bool {
    name.len() > 0 && exists|i: int| 0 <= i < comps.len() && covered_name(#[trigger] comps[i]) == name
}

fn covered_name_exec(comp: &String) -> (r: String)
    ensures
        r@ == covered_name(comp@),
{
    let cs = chars_of(comp.as_str());
    let t = trim_chars(&cs, CharClass::Ws);
    let raw = trim_chars(&t, CharClass::Dquote);
    let k = scan(&raw, 0, CharClass::NotSemicolon);
    let first = sub_chars(&raw, 0, k);
    let t2 = trim_chars(&first, CharClass::Ws);
    let name = trim_chars(&t2, CharClass::Dquote);
    let s = string_from_chars(name.as_slice());
    lower(s.as_str())
}

/// Whether some covered component names `name`.
fn is_covered(comps: &[String], name: &str) -> (b: bool)
    ensures
        b == names_covered(strings_view(comps@), name@),
{
    if name.is_empty() {
        return false;
    }
    let mut k: usize = 0;
    while k < comps.len()
        invariant
            k <= comps@.len(),
            name@.len() > 0,
            forall|j: int| 0 <= j < k ==> covered_name(#[trigger] strings_view(comps@)[j]) != name@,
        decreases comps.len() - k,
    {
        let n = covered_name_exec(&comps[k]);
        assert(strings_view(comps@)[k as int] == comps@[k as int]@);
        if str_eq(n.as_str(), name) {
            return true;
        }
        k = k + 1;
    }
    false
}

pub open spec fn not_int_msg(name: Seq<char>, s: Seq<char>) -> Seq<char> {
    "'"@ + name + "' is not an integer: "@ + str_debug(s)
}

/// The integer a time parameter stands for, or the error message.
pub open spec fn spec_as_int(v: ParamView, name: Seq<char>) -> Result<i64, Seq<char>> {
    match v {
        ParamView::Int(i) => Ok(i),
        ParamView::Str(s) => match spec_parse_i64(s) {
            Some(i) => Ok(i),
            None => Err(not_int_msg(name, s)),
        },
    }
}

fn as_int(value: &ParamValue, name: &str) -> (r: Result<i64, FreshnessError>)
    ensures
        r matches Ok(i) ==> spec_as_int(value@, name@) == Ok::<i64, Seq<char>>(i),
        r matches Err(e) ==> spec_as_int(value@, name@) == Err::<i64, Seq<char>>(e.0@),
{
    match value {
        ParamValue::Int(i) => Ok(*i),
        ParamValue::Str(s) => {
            let cs = chars_of(s.as_str());
            match parse_i64(&cs) {
                Some(i) => Ok(i),
                None => {
                    let d = debug_str(s.as_str());
                    let mut out = chars_of("'");
                    push_str(&mut out, name);
                    push_str(&mut out, "' is not an integer: ");
                    push_str(&mut out, d.as_str());
                    Err(FreshnessError::new(string_from_chars(out.as_slice())))
                },
            }
        },
    }
}

pub open spec fn no_created_msg() -> Seq<char> {
    "freshness required but no 'created' parameter present"@
}

pub open spec fn created_unsigned_msg() -> Seq<char> {
    "freshness required but 'created' is not signed (not a covered component and params are unsigned)"@
}

pub open spec fn future_msg() -> Seq<char> {
    "signature 'created' is in the future beyond the allowed skew"@
}

pub open spec fn too_old_msg() -> Seq<char> {
    "signature is older than the maximum allowed age"@
}

pub open spec fn expires_unsigned_msg() -> Seq<char> {
    "'expires' present but not signed (not a covered component and params are unsigned)"@
}

pub open spec fn expired_msg() -> Seq<char> {
    "signature has expired"@
}

/// The check of the `created` parameter, when freshness is required.
pub open spec fn spec_created_check(params: Seq<(Seq<char>, ParamView)>, comps: Seq<Seq<char>>, opts: FreshnessOptions) -> Result<(), Seq<char>> {
    match param_lookup(params, "created"@) {
        None => Err(no_created_msg()),
        Some(created) => if !(names_covered(comps, "created"@) || opts.params_signed) {
            Err(created_unsigned_msg())
        } else {
            match spec_as_int(created, "created"@) {
                Err(m) => Err(m),
                Ok(ci) => if ci > opts.now + opts.max_skew_seconds {
                    Err(future_msg())
                } else if opts.max_age_seconds matches Some(ma) && ci < opts.now - ma {
                    Err(too_old_msg())
                } else {
                    Ok(())
                },
            }
        },
    }
}

/// The check of the `expires` parameter, when expiry is enforced.
pub open spec fn spec_expires_check(params: Seq<(Seq<char>, ParamView)>, comps: Seq<Seq<char>>, opts: FreshnessOptions) -> Result<(), Seq<char>> {
    match param_lookup(params, "expires"@) {
        None => Ok(()),
        Some(expires) => if !(names_covered(comps, "expires"@) || opts.params_signed) {
            Err(expires_unsigned_msg())
        } else {
            match spec_as_int(expires, "expires"@) {
                Err(m) => Err(m),
                Ok(ei) => if opts.now > ei + opts.max_skew_seconds {
                    Err(expired_msg())
                } else {
                    Ok(())
                },
            }
        },
    }
}

/// The verdict on the time parameters: `Ok(())`, or the error message.
/// Arithmetic is on mathematical integers.
pub open spec fn spec_check_freshness(params: Seq<(Seq<char>, ParamView)>, comps: Seq<Seq<char>>, opts: FreshnessOptions) -> Result<(), Seq<char>> {
    if (opts.max_age_seconds is Some || opts.require_created) && spec_created_check(
        params,
        comps,
        opts,
    ) is Err {
        spec_created_check(params, comps, opts)
    } else if opts.enforce_expires {
        spec_expires_check(params, comps, opts)
    } else {
        Ok(())
    }
}

/// Expiry is enforced whatever else is asked: with `enforce_expires`, a
/// signed integer `expires` parameter (the last one) that lies more than the
/// allowed skew before `now` makes the check fail, whatever `max_age_seconds`
/// and `require_created` are.
pub proof fn lemma_expired_fails(params: Seq<(Seq<char>, ParamView)>, comps: Seq<Seq<char>>, opts: FreshnessOptions, e: i64)
    requires
        opts.enforce_expires,
        param_lookup(params, "expires"@) == Some(ParamView::Int(e)),
        opts.params_signed || names_covered(comps, "expires"@),
        opts.now > e + opts.max_skew_seconds,
    ensures
        spec_check_freshness(params, comps, opts) is Err,
{
}

/// A required `created` that is signed and is the integer `c` makes the
/// check fail when it lies beyond the skew after `now`, or (with a maximum
/// age `a`) more than `a` before `now`.
pub proof fn lemma_created_bounds(params: Seq<(Seq<char>, ParamView)>, comps: Seq<Seq<char>>, opts: FreshnessOptions, c: i64)
    requires
        opts.max_age_seconds is Some || opts.require_created,
        param_lookup(params, "created"@) == Some(ParamView::Int(c)),
        opts.params_signed || names_covered(comps, "created"@),
    ensures
        c > opts.now + opts.max_skew_seconds ==> spec_check_freshness(params, comps, opts) is Err,
        opts.max_age_seconds matches Some(a) && c < opts.now - a ==> spec_check_freshness(params, comps, opts) is Err,
{
}

/// Validates the time-based signature parameters; a no-op when there is
/// nothing to check. `parameters` are looked up by name (later pairs win).
///
/// Only signed `created` / `expires` values are honoured: a requirement
/// against one that is neither covered nor signed as a parameter fails.
pub fn check_freshness(parameters: &[(String, ParamValue)], covered_components: &[String], opts: &FreshnessOptions) -> (r: Result<(), FreshnessError>)
    ensures
        (opts.max_age_seconds is Some || opts.require_created) && !opts.params_signed
            && !names_covered(strings_view(covered_components@), "created"@) ==> r is Err,
        opts.enforce_expires && param_lookup(params_view(parameters@), "expires"@) is Some
            && !opts.params_signed && !names_covered(strings_view(covered_components@), "expires"@)
            ==> r is Err,
        !(opts.max_age_seconds is Some || opts.require_created) && !opts.enforce_expires ==> r is Ok,
        r is Ok <==> spec_check_freshness(params_view(parameters@), strings_view(covered_components@), *opts) is Ok,
        r matches Err(e) ==> spec_check_freshness(params_view(parameters@), strings_view(covered_components@), *opts) == Err::<
            (),
            Seq<char>,
        >(e.0@),
{
    let created = param_get(parameters, "created");
    let expires = param_get(parameters, "expires");
    if opts.max_age_seconds.is_some() || opts.require_created {
        let created = match created {
            Some(c) => c,
            None => {
                return Err(FreshnessError::new(String::from_str(
                    "freshness required but no 'created' parameter present",
                )));
            },
        };
        if !(is_covered(covered_components, "created") || opts.params_signed) {
            return Err(FreshnessError::new(String::from_str(
                "freshness required but 'created' is not signed (not a covered component and params are unsigned)",
            )));
        }
        let created_i = match as_int(created, "created") {
            Ok(i) => i,
            Err(e) => {
                return Err(e);
            },
        };
        if (created_i as i128) > (opts.now as i128) + (opts.max_skew_seconds as i128) {
            return Err(FreshnessError::new(String::from_str(
                "signature 'created' is in the future beyond the allowed skew",
            )));
        }
        match opts.max_age_seconds {
            Some(max_age) => {
                if (created_i as i128) < (opts.now as i128) - (max_age as i128) {
                    return Err(FreshnessError::new(String::from_str(
                        "signature is older than the maximum allowed age",
                    )));
                }
            },
            None => {},
        }
    }
    if opts.enforce_expires {
        match expires {
            Some(expires) => {
                if !(is_covered(covered_components, "expires") || opts.params_signed) {
                    return Err(FreshnessError::new(String::from_str(
                        "'expires' present but not signed (not a covered component and params are unsigned)",
                    )));
                }
                let expires_i = match as_int(expires, "expires") {
                    Ok(i) => i,
                    Err(e) => {
                        return Err(e);
                    },
                };
                if (opts.now as i128) > (expires_i as i128) + (opts.max_skew_seconds as i128) {
                    return Err(FreshnessError::new(String::from_str("signature has expired")));
                }
            },
            None => {},
        }
    }
    Ok(())
}

} // verus!
