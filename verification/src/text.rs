//! Character-level text handling shared by the header parsers and the
//! signing-base builder: character classes, maximal runs, trimming, decimal
//! integers, and conversions between `str`, `String` and character vectors.

use vstd::prelude::*;

verus! {

// ---------------------------------------------------------------------------
// Character classes
// ---------------------------------------------------------------------------

/// Unicode `White_Space`: what `char::is_whitespace`, `str::trim` and the
/// `\s` class of a regular expression all match.
pub open spec fn is_ws(c: char) -> bool {
    ||| ('\t' <= c && c <= '\r')
    ||| c == ' '
    ||| c == '\u{85}'
    ||| c == '\u{a0}'
    ||| c == '\u{1680}'
    ||| ('\u{2000}' <= c && c <= '\u{200a}')
    ||| c == '\u{2028}'
    ||| c == '\u{2029}'
    ||| c == '\u{202f}'
    ||| c == '\u{205f}'
    ||| c == '\u{3000}'
}

pub open spec fn is_ascii_letter(c: char) -> bool {
    ('a' <= c && c <= 'z') || ('A' <= c && c <= 'Z')
}

pub open spec fn is_ascii_digit(c: char) -> bool {
    '0' <= c && c <= '9'
}

/// The classes of characters that the parsers scan runs of.
#[derive(PartialEq, Eq, Structural, Clone, Copy)]
pub enum CharClass {
    /// Unicode white space.
    Ws,
    /// `[A-Za-z0-9_-]`: the tail of a label or a parameter name.
    NameTail,
    /// `[^;,\s]`: an unquoted parameter value.
    BareValue,
    /// `[^"]`: the inside of a quoted string.
    NotDquote,
    /// `"`.
    Dquote,
    /// `[a-z0-9-]`: a Content-Digest algorithm name.
    DigestAlgo,
    /// `[A-Za-z0-9+/=]`: base64 text.
    Base64Text,
    /// `[0-9]`.
    Digit,
    /// Anything but `;`.
    NotSemicolon,
}

pub open spec fn in_class(cls: CharClass, c: char) -> bool {
    match cls {
        CharClass::Ws => is_ws(c),
        CharClass::NameTail => is_ascii_letter(c) || is_ascii_digit(c) || c == '_' || c == '-',
        CharClass::BareValue => !(c == ';' || c == ',' || is_ws(c)),
        CharClass::NotDquote => c != '"',
        CharClass::Dquote => c == '"',
        CharClass::DigestAlgo => ('a' <= c && c <= 'z') || is_ascii_digit(c) || c == '-',
        CharClass::Base64Text => is_ascii_letter(c) || is_ascii_digit(c) || c == '+' || c == '/'
            || c == '=',
        CharClass::Digit => is_ascii_digit(c),
        CharClass::NotSemicolon => c != ';',
    }
}

pub fn ws(c: char) -> (b: bool)
    ensures
        b == is_ws(c),
{
    ('\t' <= c && c <= '\r') || c == ' ' || c == '\u{85}' || c == '\u{a0}' || c == '\u{1680}' || (
    '\u{2000}' <= c && c <= '\u{200a}') || c == '\u{2028}' || c == '\u{2029}' || c == '\u{202f}'
        || c == '\u{205f}' || c == '\u{3000}'
}

pub fn ascii_letter(c: char) -> (b: bool)
    ensures
        b == is_ascii_letter(c),
{
    ('a' <= c && c <= 'z') || ('A' <= c && c <= 'Z')
}

pub fn ascii_digit(c: char) -> (b: bool)
    ensures
        b == is_ascii_digit(c),
{
    '0' <= c && c <= '9'
}

pub fn class_has(cls: CharClass, c: char) -> (b: bool)
    ensures
        b == in_class(cls, c),
{
    match cls {
        CharClass::Ws => ws(c),
        CharClass::NameTail => ascii_letter(c) || ascii_digit(c) || c == '_' || c == '-',
        CharClass::BareValue => !(c == ';' || c == ',' || ws(c)),
        CharClass::NotDquote => c != '"',
        CharClass::Dquote => c == '"',
        CharClass::DigestAlgo => ('a' <= c && c <= 'z') || ascii_digit(c) || c == '-',
        CharClass::Base64Text => ascii_letter(c) || ascii_digit(c) || c == '+' || c == '/' || c
            == '=',
        CharClass::Digit => ascii_digit(c),
        CharClass::NotSemicolon => c != ';',
    }
}

// ---------------------------------------------------------------------------
// Maximal runs
// ---------------------------------------------------------------------------

/// The end of the longest run of `cls` characters in `s` that starts at `i`.
pub open spec fn run_end(s: Seq<char>, i: int, cls: CharClass) -> int
    decreases s.len() - i,
{
    if 0 <= i < s.len() && in_class(cls, s[i]) {
        run_end(s, i + 1, cls)
    } else {
        i
    }
}

/// The start of the longest run of `cls` characters in `s` that ends at `j`.
pub open spec fn run_start_back(s: Seq<char>, j: int, cls: CharClass) -> int
    decreases j,
{
    if 0 < j <= s.len() && in_class(cls, s[j - 1]) {
        run_start_back(s, j - 1, cls)
    } else {
        j
    }
}

pub proof fn lemma_run_end(s: Seq<char>, i: int, cls: CharClass)
    requires
        0 <= i <= s.len(),
    ensures
        i <= run_end(s, i, cls) <= s.len(),
        forall|k: int| i <= k < run_end(s, i, cls) ==> in_class(cls, #[trigger] s[k]),
        run_end(s, i, cls) < s.len() ==> !in_class(cls, s[run_end(s, i, cls)]),
    decreases s.len() - i,
{
    if i < s.len() && in_class(cls, s[i]) {
        lemma_run_end(s, i + 1, cls);
    }
}

/// A run is determined by its start: any `j` with the properties of the
/// run's end is that end.
pub proof fn lemma_run_end_unique(s: Seq<char>, i: int, j: int, cls: CharClass)
    requires
        0 <= i <= j <= s.len(),
        forall|k: int| i <= k < j ==> in_class(cls, #[trigger] s[k]),
        j < s.len() ==> !in_class(cls, s[j]),
    ensures
        run_end(s, i, cls) == j,
    decreases j - i,
{
    if i < j {
        lemma_run_end_unique(s, i + 1, j, cls);
    }
}

pub proof fn lemma_run_start_back(s: Seq<char>, j: int, cls: CharClass)
    requires
        0 <= j <= s.len(),
    ensures
        0 <= run_start_back(s, j, cls) <= j,
        forall|k: int| run_start_back(s, j, cls) <= k < j ==> in_class(cls, #[trigger] s[k]),
        run_start_back(s, j, cls) > 0 ==> !in_class(cls, s[run_start_back(s, j, cls) - 1]),
    decreases j,
{
    if 0 < j && in_class(cls, s[j - 1]) {
        lemma_run_start_back(s, j - 1, cls);
    }
}

pub proof fn lemma_run_start_back_unique(s: Seq<char>, i: int, j: int, cls: CharClass)
    requires
        0 <= i <= j <= s.len(),
        forall|k: int| i <= k < j ==> in_class(cls, #[trigger] s[k]),
        i > 0 ==> !in_class(cls, s[i - 1]),
    ensures
        run_start_back(s, j, cls) == i,
    decreases j - i,
{
    if i < j {
        lemma_run_start_back_unique(s, i, j - 1, cls);
    }
}

/// Scans the longest run of `cls` characters that starts at `i`.
pub fn scan(s: &Vec<char>, i: usize, cls: CharClass) -> (j: usize)
    requires
        i <= s.len(),
    ensures
        j == run_end(s@, i as int, cls),
        i <= j <= s.len(),
{
    let mut j = i;
    while j < s.len() && class_has(cls, s[j])
        invariant
            i <= j <= s.len(),
            forall|k: int| i <= k < j ==> in_class(cls, #[trigger] s@[k]),
        decreases s.len() - j,
    {
        j = j + 1;
    }
    proof {
        lemma_run_end_unique(s@, i as int, j as int, cls);
    }
    j
}

/// Scans backwards the longest run of `cls` characters that ends at `j`.
pub fn scan_back(s: &Vec<char>, j: usize, cls: CharClass) -> (i: usize)
    requires
        j <= s.len(),
    ensures
        i == run_start_back(s@, j as int, cls),
        i <= j,
{
    let mut i = j;
    while i > 0 && class_has(cls, s[i - 1])
        invariant
            i <= j <= s.len(),
            forall|k: int| i <= k < j ==> in_class(cls, #[trigger] s@[k]),
        decreases i,
    {
        i = i - 1;
    }
    proof {
        lemma_run_start_back_unique(s@, i as int, j as int, cls);
    }
    i
}

// ---------------------------------------------------------------------------
// Trimming
// ---------------------------------------------------------------------------

/// `s` without the leading and the trailing characters of class `cls`.
pub open spec fn trim_class(s: Seq<char>, cls: CharClass) -> Seq<char> {
    let a = run_end(s, 0, cls);
    if a == s.len() {
        Seq::empty()
    } else {
        s.subrange(a, run_start_back(s, s.len() as int, cls))
    }
}

/// What `str::trim` gives: `s` without leading and trailing white space.
pub open spec fn trim_ws(s: Seq<char>) -> Seq<char> {
    trim_class(s, CharClass::Ws)
}

pub fn trim_chars(s: &Vec<char>, cls: CharClass) -> (r: Vec<char>)
    ensures
        r@ == trim_class(s@, cls),
{
    let a = scan(s, 0, cls);
    if a == s.len() {
        return Vec::new();
    }
    let b = scan_back(s, s.len(), cls);
    proof {
        lemma_run_end(s@, 0, cls);
        lemma_run_start_back(s@, s@.len() as int, cls);
        if b <= a {
            assert(in_class(cls, s@[a as int]));
        }
    }
    sub_chars(s, a, b)
}

/// The characters `s[from..to]`.
pub fn sub_chars(s: &Vec<char>, from: usize, to: usize) -> (r: Vec<char>)
    requires
        from <= to <= s.len(),
    ensures
        r@ == s@.subrange(from as int, to as int),
{
    let mut r: Vec<char> = Vec::new();
    let mut k = from;
    while k < to
        invariant
            from <= k <= to <= s.len(),
            r@ == s@.subrange(from as int, k as int),
        decreases to - k,
    {
        r.push(s[k]);
        k = k + 1;
    }
    r
}

// ---------------------------------------------------------------------------
// Conversions
// ---------------------------------------------------------------------------

/// The characters of a string slice, in order.
pub fn chars_of(s: &str) -> (res: Vec<char>)
    ensures
        res@ == s@,
{
    let mut res: Vec<char> = Vec::new();
    for c in it: s.chars()
        invariant
            res@ == it.seq().take(it.index() as int),
            it.seq() == s@,
    {
        res.push(c);
    }
    res
}

/// Builds a `String` from a sequence of characters (`FromIterator<&char>`).
#[verifier::external_body]
pub(crate) fn string_from_chars(cs: &[char]) -> (res: String)
    ensures
        res@ == cs@,
{
    cs.iter().collect()
}

/// The Unicode lowercase form of a character sequence, as
/// `str::to_lowercase` gives it.
pub uninterp spec fn unicode_lower(s: Seq<char>) -> Seq<char>;

pub open spec fn ascii_lower_char(c: char) -> char {
    if 'A' <= c && c <= 'Z' {
        ((c as int) + 32) as char
    } else {
        c
    }
}

pub open spec fn all_ascii(s: Seq<char>) -> bool {
    forall|i: int| 0 <= i < s.len() ==> (#[trigger] s[i] as int) < 128
}

/// Per-character ASCII lowercasing.
pub open spec fn ascii_lower(s: Seq<char>) -> Seq<char> {
    s.map_values(|c: char| ascii_lower_char(c))
}

/// What `str::to_lowercase` gives: of an all-ASCII string, each letter
/// `A`-`Z` lowercased and every other character kept (std's own ASCII path,
/// `u8::to_ascii_lowercase` per byte); of any other string, its Unicode
/// lowercase form.
pub open spec fn str_lower(s: Seq<char>) -> Seq<char> {
    if all_ascii(s) {
        ascii_lower(s)
    } else {
        unicode_lower(s)
    }
}

/// `str::to_lowercase`: lowercasing of the whole string. The contract states
/// the result of an all-ASCII string and names that of any other.
#[verifier::external_body]
pub(crate) fn lower(s: &str) -> (res: String)
    ensures
        res@ == str_lower(s@),
        !all_ascii(s@) ==> res@ == unicode_lower(s@),
{
    s.to_lowercase()
}


/// The `Debug` rendering of a string: quoted, with escapes.
pub uninterp spec fn str_debug(s: Seq<char>) -> Seq<char>;

/// `format!("{:?}", s)` for a string slice.
#[verifier::external_body]
pub(crate) fn debug_str(s: &str) -> (r: String)
    ensures
        r@ == str_debug(s@),
{
    format!("{:?}", s)
}

/// The `Debug` rendering of a character: single-quoted, with escapes.
pub uninterp spec fn char_debug(c: char) -> Seq<char>;

/// `format!("{:?}", c)` for a character.
#[verifier::external_body]
pub(crate) fn debug_char(c: char) -> (r: String)
    ensures
        r@ == char_debug(c),
{
    format!("{:?}", c)
}

/// Appends the characters of `s` to `out`.
pub fn push_all(out: &mut Vec<char>, s: &Vec<char>)
    ensures
        final(out)@ == old(out)@ + s@,
{
    let mut k: usize = 0;
    while k < s.len()
        invariant
            k <= s.len(),
            out@ == old(out)@ + s@.take(k as int),
        decreases s.len() - k,
    {
        out.push(s[k]);
        assert(s@.take(k + 1) =~= s@.take(k as int).push(s@[k as int]));
        k = k + 1;
    }
    assert(s@.take(k as int) =~= s@);
}

/// Appends the characters of a string slice to `out`.
pub fn push_str(out: &mut Vec<char>, s: &str)
    ensures
        final(out)@ == old(out)@ + s@,
{
    let cs = chars_of(s);
    push_all(out, &cs);
}

/// A `String` holding `a` followed by `b`.
pub fn concat_str(a: &str, b: &str) -> (r: String)
    ensures
        r@ == a@ + b@,
{
    let mut out = chars_of(a);
    push_str(&mut out, b);
    string_from_chars(out.as_slice())
}

/// `<str as PartialEq>::eq`: two string slices are equal when they hold the
/// same characters.
#[verifier::external_body]
pub(crate) fn str_eq(a: &str, b: &str) -> (res: bool)
    ensures
        res == (a@ == b@),
{
    a == b
}

/// Whether two character vectors hold the same characters.
pub fn chars_eq(a: &Vec<char>, b: &Vec<char>) -> (res: bool)
    ensures
        res == (a@ == b@),
{
    if a.len() != b.len() {
        return false;
    }
    let mut k: usize = 0;
    while k < a.len()
        invariant
            a@.len() == b@.len(),
            k <= a.len(),
            forall|j: int| 0 <= j < k ==> a@[j] == b@[j],
        decreases a.len() - k,
    {
        if a[k] != b[k] {
            return false;
        }
        k = k + 1;
    }
    assert(a@ =~= b@);
    true
}


// ---------------------------------------------------------------------------
// Decimal integers
// ---------------------------------------------------------------------------

pub open spec fn digit_value(c: char) -> int {
    (c as int) - ('0' as int)
}

pub open spec fn digit_char(d: int) -> char {
    (('0' as int) + d) as char
}

pub open spec fn all_digits(s: Seq<char>) -> bool {
    forall|i: int| 0 <= i < s.len() ==> is_ascii_digit(#[trigger] s[i])
}

/// The value of a string of decimal digits.
pub open spec fn digits_value(s: Seq<char>) -> int
    decreases s.len(),
{
    if s.len() == 0 {
        0
    } else {
        digits_value(s.drop_last()) * 10 + digit_value(s.last())
    }
}

/// What `str::parse::<i64>` gives: an optional `+` or `-`, then one or more
/// ASCII digits, whose value must fit in an `i64`.
pub open spec fn spec_parse_i64(s: Seq<char>) -> Option<i64> {
    let neg = s.len() > 0 && s[0] == '-';
    let ds = if s.len() > 0 && (s[0] == '-' || s[0] == '+') {
        s.drop_first()
    } else {
        s
    };
    let v = if neg {
        -digits_value(ds)
    } else {
        digits_value(ds)
    };
    if ds.len() == 0 || !all_digits(ds) || v < i64::MIN || v > i64::MAX {
        None
    } else {
        Some(v as i64)
    }
}

/// The decimal digits of a natural number, without leading zeros.
pub open spec fn nat_digits(n: nat) -> Seq<char>
    decreases n,
{
    if n < 10 {
        seq![digit_char(n as int)]
    } else {
        nat_digits(n / 10).push(digit_char((n % 10) as int))
    }
}

/// The decimal form of an integer, as `i64::to_string` writes it.
pub open spec fn int_repr(n: int) -> Seq<char> {
    if n < 0 {
        seq!['-'] + nat_digits((-n) as nat)
    } else {
        nat_digits(n as nat)
    }
}

proof fn lemma_digits_value_nonneg(s: Seq<char>)
    requires
        all_digits(s),
    ensures
        digits_value(s) >= 0,
    decreases s.len(),
{
    if s.len() > 0 {
        lemma_digits_value_nonneg(s.drop_last());
    }
}

/// A prefix of a digit string has no larger a value than the whole string.
proof fn lemma_digits_value_prefix(s: Seq<char>, k: int)
    requires
        all_digits(s),
        0 <= k <= s.len(),
    ensures
        digits_value(s.take(k)) <= digits_value(s),
    decreases s.len() - k,
{
    if k < s.len() {
        lemma_digits_value_prefix(s, k + 1);
        let t = s.take(k + 1);
        assert(t.drop_last() =~= s.take(k));
        lemma_digits_value_nonneg(s.take(k));
    } else {
        assert(s.take(k) =~= s);
    }
}

proof fn lemma_digit_char(d: int)
    requires
        0 <= d < 10,
    ensures
        digit_value(digit_char(d)) == d,
        is_ascii_digit(digit_char(d)),
{
}

proof fn lemma_nat_digits(n: nat)
    ensures
        all_digits(nat_digits(n)),
        digits_value(nat_digits(n)) == n,
        nat_digits(n).len() >= 1,
    decreases n,
{
    lemma_digit_char((n % 10) as int);
    let s = nat_digits(n);
    if n >= 10 {
        lemma_nat_digits(n / 10);
        assert(s.drop_last() =~= nat_digits(n / 10));
        assert(s.last() == digit_char((n % 10) as int));
        assert(digits_value(s) == (n / 10) * 10 + n % 10);
    } else {
        assert(s.drop_last() =~= Seq::<char>::empty());
        assert(digits_value(s.drop_last()) == 0);
        assert(digits_value(s) == digit_value(s.last()));
    }
}

/// Reading back the decimal form of an `i64` gives the same integer.
pub proof fn lemma_parse_int_repr(n: i64)
    ensures
        spec_parse_i64(int_repr(n as int)) == Some(n),
{
    let s = int_repr(n as int);
    if n < 0 {
        lemma_nat_digits((-n) as nat);
        assert(s.drop_first() =~= nat_digits((-n) as nat));
    } else {
        lemma_nat_digits(n as nat);
        assert(nat_digits(n as nat)[0] != '-' && nat_digits(n as nat)[0] != '+');
    }
}

/// `str::parse::<i64>` on a character sequence.
pub fn parse_i64(s: &Vec<char>) -> (r: Option<i64>)
    ensures
        r == spec_parse_i64(s@),
{
    let neg = s.len() > 0 && s[0] == '-';
    let start: usize = if s.len() > 0 && (s[0] == '-' || s[0] == '+') {
        1
    } else {
        0
    };
    let ghost ds = if s@.len() > 0 && (s@[0] == '-' || s@[0] == '+') {
        s@.drop_first()
    } else {
        s@
    };
    assert(ds =~= s@.subrange(start as int, s@.len() as int));
    if start == s.len() {
        return None;
    }
    let mut v: u64 = 0;
    let mut k: usize = start;
    while k < s.len()
        invariant
            start <= k <= s.len(),
            ds =~= s@.subrange(start as int, s@.len() as int),
            ds == (if s@.len() > 0 && (s@[0] == '-' || s@[0] == '+') {
                s@.drop_first()
            } else {
                s@
            }),
            all_digits(ds.take(k - start)),
            v == digits_value(ds.take(k - start)),
            v <= 9223372036854775808u64,
        decreases s.len() - k,
    {
        let c = s[k];
        if !ascii_digit(c) {
            assert(ds[k - start] == c);
            return None;
        }
        let d = (c as u32 - '0' as u32) as u64;
        assert(ds.take(k + 1 - start).drop_last() =~= ds.take(k - start));
        if v > 922337203685477580u64 || (v == 922337203685477580u64 && d > 8) {
            // The value already exceeds every i64 magnitude.
            proof {
                let t = ds.take(k + 1 - start);
                assert(all_digits(t));
                assert(digits_value(t) == v * 10 + d);
                if all_digits(ds) {
                    lemma_digits_value_prefix(ds, k + 1 - start);
                }
            }
            return None;
        }
        v = v * 10 + d;
        k = k + 1;
    }
    assert(ds.take(k - start) =~= ds);
    if neg {
        if v == 9223372036854775808u64 {
            Some(i64::MIN)
        } else {
            Some(-(v as i64))
        }
    } else {
        if v > 9223372036854775807u64 {
            None
        } else {
            Some(v as i64)
        }
    }
}

/// The digits of `n`, as `u64::to_string` writes them.
fn u64_digits(n: u64) -> (r: Vec<char>)
    ensures
        r@ == nat_digits(n as nat),
    decreases n,
{
    if n < 10 {
        let mut r: Vec<char> = Vec::new();
        r.push(((n as u8) + 48u8) as char);
        proof {
            assert(digit_char(n as int) == ((n as u8) + 48u8) as char);
        }
        r
    } else {
        let mut r = u64_digits(n / 10);
        let d = (n % 10) as u8;
        r.push((d + 48u8) as char);
        proof {
            assert(digit_char((n % 10) as int) == (d + 48u8) as char);
        }
        r
    }
}

/// `usize::to_string`: the decimal digits of `n`.
pub fn usize_to_chars(n: usize) -> (r: Vec<char>)
    ensures
        r@ == nat_digits(n as nat),
{
    u64_digits(n as u64)
}

/// `i64::to_string`: the decimal form of `n`.
pub fn i64_to_chars(n: i64) -> (r: Vec<char>)
    ensures
        r@ == int_repr(n as int),
{
    if n < 0 {
        let mag: u64 = if n == i64::MIN {
            9223372036854775808u64
        } else {
            (-n) as u64
        };
        let ds = u64_digits(mag);
        let mut r: Vec<char> = Vec::new();
        r.push('-');
        let mut k: usize = 0;
        while k < ds.len()
            invariant
                k <= ds.len(),
                r@ == seq!['-'] + ds@.take(k as int),
            decreases ds.len() - k,
        {
            r.push(ds[k]);
            assert(ds@.take(k + 1) =~= ds@.take(k as int).push(ds@[k as int]));
            k = k + 1;
        }
        assert(ds@.take(k as int) =~= ds@);
        r
    } else {
        u64_digits(n as u64)
    }
}


// ---------------------------------------------------------------------------
// Ordering and listing strings
// ---------------------------------------------------------------------------

/// Lexicographic order of character sequences (the order of `String`, whose
/// UTF-8 byte order follows code points).
pub open spec fn lex_lt(a: Seq<char>, b: Seq<char>) -> bool
    decreases a.len(),
{
    if a.len() == 0 {
        b.len() > 0
    } else if b.len() == 0 {
        false
    } else if a[0] != b[0] {
        a[0] < b[0]
    } else {
        lex_lt(a.drop_first(), b.drop_first())
    }
}

/// `s` with `x` inserted before its first element that is not smaller.
pub open spec fn insert_sorted(x: Seq<char>, s: Seq<Seq<char>>) -> Seq<Seq<char>>
    decreases s.len(),
{
    if s.len() == 0 {
        seq![x]
    } else if lex_lt(s[0], x) {
        seq![s[0]] + insert_sorted(x, s.drop_first())
    } else {
        seq![x] + s
    }
}

/// The strings in ascending order.
pub open spec fn sort_strings(v: Seq<Seq<char>>) -> Seq<Seq<char>>
    decreases v.len(),
{
    if v.len() == 0 {
        Seq::empty()
    } else {
        insert_sorted(v.last(), sort_strings(v.drop_last()))
    }
}

fn lex_less(a: &Vec<char>, b: &Vec<char>) -> (r: bool)
    ensures
        r == lex_lt(a@, b@),
{
    let mut i: usize = 0;
    assert(a@.skip(0) =~= a@);
    assert(b@.skip(0) =~= b@);
    while i < a.len() && i < b.len() && a[i] == b[i]
        invariant
            i <= a@.len(),
            i <= b@.len(),
            lex_lt(a@, b@) == lex_lt(a@.skip(i as int), b@.skip(i as int)),
        decreases a.len() - i,
    {
        let ghost sa = a@.skip(i as int);
        let ghost sb = b@.skip(i as int);
        assert(sa.drop_first() =~= a@.skip(i + 1));
        assert(sb.drop_first() =~= b@.skip(i + 1));
        i = i + 1;
    }
    assert(a@.skip(i as int).len() == a@.len() - i);
    assert(b@.skip(i as int).len() == b@.len() - i);
    if i == a.len() {
        i < b.len()
    } else if i == b.len() {
        false
    } else {
        assert(a@.skip(i as int)[0] == a@[i as int]);
        assert(b@.skip(i as int)[0] == b@[i as int]);
        a[i] < b[i]
    }
}

/// The strings in ascending order, as `Vec::sort` leaves them.
pub fn sorted_strings(v: &Vec<String>) -> (r: Vec<Vec<char>>)
    ensures
        r@.map_values(|c: Vec<char>| c@) == sort_strings(v@.map_values(|s: String| s@)),
{
    let ghost vs = v@.map_values(|s: String| s@);
    let mut out: Vec<Vec<char>> = Vec::new();
    let mut k: usize = 0;
    assert(out@.map_values(|c: Vec<char>| c@) =~= sort_strings(vs.take(0)));
    while k < v.len()
        invariant
            k <= v@.len(),
            vs == v@.map_values(|s: String| s@),
            out@.map_values(|c: Vec<char>| c@) == sort_strings(vs.take(k as int)),
        decreases v.len() - k,
    {
        let x = chars_of(v[k].as_str());
        assert(vs.take(k + 1).drop_last() =~= vs.take(k as int));
        assert(vs.take(k + 1).last() == x@);
        out = insert_exec(x, out);
        k = k + 1;
    }
    assert(vs.take(k as int) =~= vs);
    out
}

fn insert_exec(x: Vec<char>, s: Vec<Vec<char>>) -> (r: Vec<Vec<char>>)
    ensures
        r@.map_values(|c: Vec<char>| c@) == insert_sorted(x@, s@.map_values(|c: Vec<char>| c@)),
{
    let ghost sv = s@.map_values(|c: Vec<char>| c@);
    let mut pos: usize = 0;
    assert(sv.take(0) + insert_sorted(x@, sv.skip(0)) =~= insert_sorted(x@, sv)) by {
        assert(sv.skip(0) =~= sv);
    }
    while pos < s.len() && lex_less(&s[pos], &x)
        invariant
            pos <= s@.len(),
            sv == s@.map_values(|c: Vec<char>| c@),
            insert_sorted(x@, sv) == sv.take(pos as int) + insert_sorted(x@, sv.skip(pos as int)),
        decreases s.len() - pos,
    {
        let ghost rest = sv.skip(pos as int);
        assert(rest[0] == s@[pos as int]@);
        assert(rest.drop_first() =~= sv.skip(pos + 1));
        assert(sv.take(pos as int) + (seq![rest[0]] + insert_sorted(x@, rest.drop_first())) =~= sv.take(
            pos + 1,
        ) + insert_sorted(x@, sv.skip(pos + 1)));
        pos = pos + 1;
    }
    let mut r: Vec<Vec<char>> = Vec::new();
    let mut k: usize = 0;
    while k < pos
        invariant
            k <= pos <= s@.len(),
            r@.map_values(|c: Vec<char>| c@) == sv.take(k as int),
            sv == s@.map_values(|c: Vec<char>| c@),
        decreases pos - k,
    {
        let ghost before = r@;
        r.push(sub_chars(&s[k], 0, s[k].len()));
        assert(s@[k as int]@.subrange(0, s@[k as int]@.len() as int) =~= s@[k as int]@);
        assert(r@.map_values(|c: Vec<char>| c@) =~= before.map_values(|c: Vec<char>| c@).push(sv[k as int]));
        assert(sv.take(k + 1) =~= sv.take(k as int).push(sv[k as int]));
        k = k + 1;
    }
    let ghost before = r@;
    r.push(x);
    assert(r@.map_values(|c: Vec<char>| c@) =~= before.map_values(|c: Vec<char>| c@).push(x@));
    assert(sv.subrange(pos as int, pos as int) =~= Seq::<Seq<char>>::empty());
    assert(sv.take(pos as int).push(x@) + Seq::<Seq<char>>::empty() =~= sv.take(pos as int).push(x@));
    let mut k2: usize = pos;
    while k2 < s.len()
        invariant
            pos <= k2 <= s@.len(),
            r@.map_values(|c: Vec<char>| c@) == sv.take(pos as int).push(x@) + sv.subrange(pos as int, k2 as int),
            sv == s@.map_values(|c: Vec<char>| c@),
        decreases s.len() - k2,
    {
        let ghost before2 = r@;
        r.push(sub_chars(&s[k2], 0, s[k2].len()));
        assert(s@[k2 as int]@.subrange(0, s@[k2 as int]@.len() as int) =~= s@[k2 as int]@);
        assert(r@.map_values(|c: Vec<char>| c@) =~= before2.map_values(|c: Vec<char>| c@).push(sv[k2 as int]));
        assert(sv.subrange(pos as int, k2 + 1) =~= sv.subrange(pos as int, k2 as int).push(sv[k2 as int]));
        k2 = k2 + 1;
    }
    proof {
        let rest = sv.skip(pos as int);
        if pos < s@.len() {
            assert(rest[0] == s@[pos as int]@);
        }
        assert(insert_sorted(x@, rest) =~= seq![x@] + rest);
        assert(sv.subrange(pos as int, s@.len() as int) =~= rest);
        assert(sv.take(pos as int).push(x@) + rest =~= sv.take(pos as int) + (seq![x@] + rest));
    }
    r
}

/// The `Debug` rendering of a list of strings: `["a", "b"]`.
pub open spec fn list_debug(v: Seq<Seq<char>>) -> Seq<char> {
    seq!['['] + list_debug_items(v) + seq![']']
}

pub open spec fn list_debug_items(v: Seq<Seq<char>>) -> Seq<char>
    decreases v.len(),
{
    if v.len() == 0 {
        Seq::empty()
    } else if v.len() == 1 {
        str_debug(v[0])
    } else {
        list_debug_items(v.drop_last()) + seq![',', ' '] + str_debug(v.last())
    }
}

/// Renders a list of strings as `Debug` does: `["a", "b"]`.
pub fn debug_list(v: &Vec<Vec<char>>) -> (r: Vec<char>)
    ensures
        r@ == list_debug(v@.map_values(|c: Vec<char>| c@)),
{
    let ghost vs = v@.map_values(|c: Vec<char>| c@);
    let mut out: Vec<char> = Vec::new();
    out.push('[');
    let mut k: usize = 0;
    while k < v.len()
        invariant
            k <= v@.len(),
            vs == v@.map_values(|c: Vec<char>| c@),
            out@ == seq!['['] + list_debug_items(vs.take(k as int)),
        decreases v.len() - k,
    {
        let ghost t = vs.take(k + 1);
        assert(t.drop_last() =~= vs.take(k as int));
        assert(t.last() == v@[k as int]@);
        if k > 0 {
            out.push(',');
            out.push(' ');
        }
        let s = string_from_chars(v[k].as_slice());
        let d = debug_str(s.as_str());
        let dc = chars_of(d.as_str());
        push_all(&mut out, &dc);
        proof {
            if k == 0 {
                assert(vs.take(0) =~= Seq::<Seq<char>>::empty());
                assert(t[0] == t.last());
            }
            assert(out@ =~= seq!['['] + list_debug_items(t));
        }
        k = k + 1;
    }
    assert(vs.take(k as int) =~= vs);
    out.push(']');
    out
}

} // verus!
