//! Literals of Quern scripts: `true`, `false`, `null`, quoted text, integers, floating-point
//! numbers (kept as their text) and references to variables.
use vstd::prelude::*;
use crate::text::{to_chars, trim, trim_chars, chars_eq, string_of, slice_chars};
use crate::qvm::interpolate::{first_index, find_char};
use crate::runtime::value::{QuernValue, ValueV, Failure, FailureV};
use crate::runtime::context::ExecutionContext;

verus! {

broadcast use vstd::string::group_string_axioms;

/// Whether `c` is an ASCII digit.
pub open spec fn is_digit(c: char) -> bool {
    '0' <= c <= '9'
}

/// Whether every character of `s` is an ASCII digit.
pub open spec fn all_digits(s: Seq<char>) -> bool {
    forall|i: int| 0 <= i < s.len() ==> is_digit(#[trigger] s[i])
}

/// The number that the decimal digits `s` spell.
pub open spec fn digits_value(s: Seq<char>) -> int
    decreases s.len(),
{
    if s.len() == 0 {
        0
    } else {
        digits_value(s.drop_last()) * 10 + (s.last() as int - '0' as int)
    }
}

/// The integer that `s` spells as `i64::from_str` reads it: an optional `+` or `-`, then
/// at least one decimal digit, and nothing else.
pub open spec fn int_text(s: Seq<char>) -> Option<int> {
    let signed = s.len() > 0 && (s[0] == '-' || s[0] == '+');
    let ds = if signed { s.drop_first() } else { s };
    if ds.len() > 0 && all_digits(ds) {
        Some(if signed && s[0] == '-' { -digits_value(ds) } else { digits_value(ds) })
    } else {
        None
    }
}

/// What `s.parse::<i64>()` gives: the integer, when `s` spells one that fits in an `i64`.
pub open spec fn i64_text(s: Seq<char>) -> Option<i64> {
    match int_text(s) {
        Some(v) => if i64::MIN <= v <= i64::MAX {
            Some(v as i64)
        } else {
            None
        },
        None => None,
    }
}

/// A longer run of digits spells at least as much as its prefix.
proof fn lemma_digits_grow(s: Seq<char>, i: int)
    requires
        all_digits(s),
        0 <= i <= s.len(),
    ensures
        digits_value(s.take(i)) <= digits_value(s),
        0 <= digits_value(s.take(i)),
    decreases s.len() - i,
{
    if i < s.len() {
        lemma_digits_grow(s, i + 1);
        assert(s.take(i + 1).drop_last() =~= s.take(i));
    } else {
        assert(s.take(i) =~= s);
        lemma_digits_nonneg(s);
    }
}

/// Digits spell a number that is not negative.
proof fn lemma_digits_nonneg(s: Seq<char>)
    requires
        all_digits(s),
    ensures
        0 <= digits_value(s),
    decreases s.len(),
{
    if s.len() > 0 {
        lemma_digits_nonneg(s.drop_last());
    }
}

/// Reads an integer as `str::parse::<i64>` does (see `i64_text`).
pub fn parse_i64(s: &[char]) -> (r: Option<i64>)
    ensures
        r == i64_text(s@),
{
    let n = s.len();
    let mut start: usize = 0;
    let mut negative = false;
    if n > 0 && (s[0] == '-' || s[0] == '+') {
        start = 1;
        negative = s[0] == '-';
    }
    if start >= n {
        return None;
    }
    let ghost ds = s@.subrange(start as int, n as int);
    proof {
        if start == 1 {
            assert(ds =~= s@.drop_first());
        } else {
            assert(ds =~= s@);
        }
    }
    let mut acc: u128 = 0;
    let mut i: usize = start;
    while i < n
        invariant
            start <= i <= n,
            n == s@.len(),
            ds == s@.subrange(start as int, n as int),
            ds == (if s@.len() > 0 && (s@[0] == '-' || s@[0] == '+') { s@.drop_first() } else { s@ }),
            negative == (s@.len() > 0 && s@[0] == '-'),
            forall|k: int| 0 <= k < i - start ==> is_digit(#[trigger] ds[k]),
            acc == digits_value(ds.take(i - start)),
            acc <= 9223372036854775808,
        decreases n - i,
    {
        let c = s[i];
        if !('0' <= c && c <= '9') {
            proof {
                assert(!is_digit(ds[i - start]));
            }
            return None;
        }
        proof {
            assert(ds.take(i - start + 1).drop_last() =~= ds.take(i - start));
        }
        acc = acc * 10 + ((c as u32 - '0' as u32) as u128);
        i = i + 1;
        if acc > 9223372036854775808 {
            proof {
                if all_digits(ds) {
                    lemma_digits_grow(ds, i - start);
                }
            }
            return None;
        }
    }
    assert(ds.take(n - start) =~= ds);
    if negative {
        Some((0i128 - acc as i128) as i64)
    } else if acc > 9223372036854775807 {
        None
    } else {
        Some(acc as i64)
    }
}

/// `c` with ASCII letters lowered.
pub open spec fn ascii_lower(c: char) -> char {
    if 'A' <= c <= 'Z' {
        ((c as u8) + 32) as char
    } else {
        c
    }
}

/// `s` with ASCII letters lowered.
pub open spec fn lowered(s: Seq<char>) -> Seq<char> {
    Seq::new(s.len(), |i: int| ascii_lower(s[i]))
}

/// The digits before a decimal point, the point, and the digits after it: at least one
/// digit in all, and a point only when it is there.
pub open spec fn is_mantissa(m: Seq<char>) -> bool {
    match first_index(m, '.') {
        None => m.len() > 0 && all_digits(m),
        Some(d) => all_digits(m.take(d as int)) && all_digits(m.skip((d + 1) as int)) && m.len() > 1,
    }
}

/// An exponent after its `e`: an optional sign, then at least one digit.
pub open spec fn is_exponent(x: Seq<char>) -> bool {
    let ds = if x.len() > 0 && (x[0] == '+' || x[0] == '-') { x.drop_first() } else { x };
    ds.len() > 0 && all_digits(ds)
}

/// A decimal number (lowered): a mantissa, then an optional exponent.
pub open spec fn is_number(t: Seq<char>) -> bool {
    match first_index(t, 'e') {
        None => is_mantissa(t),
        Some(k) => is_mantissa(t.take(k as int)) && is_exponent(t.skip((k + 1) as int)),
    }
}

/// Whether `s.parse::<f64>()` succeeds: an optional sign, then `inf`, `infinity`, `nan` or
/// a decimal number, ignoring ASCII case, as the grammar of `f64::from_str` says.
pub open spec fn is_float_text(s: Seq<char>) -> bool {
    let t = lowered(if s.len() > 0 && (s[0] == '+' || s[0] == '-') { s.drop_first() } else { s });
    t == "inf"@ || t == "infinity"@ || t == "nan"@ || is_number(t)
}

/// Whether every character of `s` is a digit.
fn digits_only(s: &[char]) -> (r: bool)
    ensures
        r == all_digits(s@),
{
    let mut i: usize = 0;
    while i < s.len()
        invariant
            i <= s@.len(),
            forall|k: int| 0 <= k < i ==> is_digit(#[trigger] s@[k]),
        decreases s@.len() - i,
    {
        if !('0' <= s[i] && s[i] <= '9') {
            assert(!is_digit(s@[i as int]));
            return false;
        }
        i = i + 1;
    }
    true
}

/// Whether `m` is a mantissa (see `is_mantissa`).
fn mantissa(m: &[char]) -> (r: bool)
    ensures
        r == is_mantissa(m@),
{
    match find_char(m, '.') {
        None => m.len() > 0 && digits_only(m),
        Some(d) => {
            let len = m.len();
            assert(d < len);
            let a = slice_chars(m, 0, d);
            let b = slice_chars(m, d + 1, len);
            assert(a@ =~= m@.take(d as int));
            assert(b@ =~= m@.skip((d + 1) as int));
            digits_only(a.as_slice()) && digits_only(b.as_slice()) && m.len() > 1
        },
    }
}

/// Whether `x` is an exponent (see `is_exponent`).
fn exponent(x: &[char]) -> (r: bool)
    ensures
        r == is_exponent(x@),
{
    if x.len() > 0 && (x[0] == '+' || x[0] == '-') {
        let ds = slice_chars(x, 1, x.len());
        assert(ds@ =~= x@.drop_first());
        ds.len() > 0 && digits_only(ds.as_slice())
    } else {
        x.len() > 0 && digits_only(x)
    }
}

/// Whether `s` is a floating-point literal (see `is_float_text`).
pub fn float_text(s: &[char]) -> (r: bool)
    ensures
        r == is_float_text(s@),
{
    let start: usize = if s.len() > 0 && (s[0] == '+' || s[0] == '-') { 1 } else { 0 };
    let mut t: Vec<char> = Vec::new();
    let mut i: usize = start;
    while i < s.len()
        invariant
            start <= i <= s@.len(),
            t@.len() == i - start,
            forall|k: int| 0 <= k < i - start ==> #[trigger] t@[k] == ascii_lower(s@[k + start]),
        decreases s@.len() - i,
    {
        let c = s[i];
        let l = if 'A' <= c && c <= 'Z' { ((c as u8) + 32) as char } else { c };
        t.push(l);
        i = i + 1;
    }
    let ghost u = if s@.len() > 0 && (s@[0] == '+' || s@[0] == '-') { s@.drop_first() } else { s@ };
    assert(t@ =~= lowered(u));
    let inf = to_chars("inf");
    let infinity = to_chars("infinity");
    let nan = to_chars("nan");
    if chars_eq(t.as_slice(), inf.as_slice()) || chars_eq(t.as_slice(), infinity.as_slice())
        || chars_eq(t.as_slice(), nan.as_slice()) {
        return true;
    }
    match find_char(t.as_slice(), 'e') {
        None => mantissa(t.as_slice()),
        Some(k) => {
            let a = slice_chars(t.as_slice(), 0, k);
            let b = slice_chars(t.as_slice(), k + 1, t.len());
            assert(a@ =~= t@.take(k as int));
            assert(b@ =~= t@.skip((k + 1) as int));
            mantissa(a.as_slice()) && exponent(b.as_slice())
        },
    }
}

/// What reading the literal `s` gives (see `parse_literal`).
pub open spec fn literal_spec(ctx: &ExecutionContext, s: Seq<char>) -> Result<ValueV, FailureV> {
    let t = trim(s);
    if t == "true"@ {
        Ok(ValueV::Bool(true))
    } else if t == "false"@ {
        Ok(ValueV::Bool(false))
    } else if t == "null"@ {
        Ok(ValueV::Null)
    } else if t.len() > 0 && t[0] == '"' && t.last() == '"' {
        if t.len() == 1 {
            Err(FailureV::Fault(quote_slice_fault()))
        } else {
            Ok(ValueV::Str(t.subrange(1, t.len() - 1)))
        }
    } else if i64_text(t) is Some {
        Ok(ValueV::Int(i64_text(t)->0))
    } else if is_float_text(t) {
        Ok(ValueV::Float(t))
    } else {
        match ctx.lookup(t, "Parser"@) {
            Ok(v) => Ok(v),
            Err(_) => Err(FailureV::Error("Cannot parse literal: "@ + t)),
        }
    }
}

/// The panic of slicing the text between the quotes of a lone `"`.
pub open spec fn quote_slice_fault() -> Seq<char> {
    "begin <= end (1 <= 0) when slicing `\"`"@
}

/// Reads a literal: after trimming, `true`, `false` and `null`; text between double
/// quotes; an `i64`; a floating-point number, kept as its text; else the value of the
/// variable of that name, read from the scope `Parser`. A lone `"` is a fault.
pub fn parse_literal(ctx: &ExecutionContext, s: &[char]) -> (r: Result<QuernValue, Failure>)
    requires
        ctx.wf(),
    ensures
        r matches Ok(v) ==> literal_spec(ctx, s@) == Ok::<ValueV, FailureV>(v.deep_view()),
        r matches Err(f) ==> literal_spec(ctx, s@) == Err::<ValueV, FailureV>(f.view()),
{
    let t = trim_chars(s);
    let n = t.len();
    if chars_eq(t.as_slice(), to_chars("true").as_slice()) {
        return Ok(QuernValue::Bool(true));
    }
    if chars_eq(t.as_slice(), to_chars("false").as_slice()) {
        return Ok(QuernValue::Bool(false));
    }
    if chars_eq(t.as_slice(), to_chars("null").as_slice()) {
        return Ok(QuernValue::Null);
    }
    if n > 0 && t[0] == '"' && t[n - 1] == '"' {
        if n == 1 {
            return Err(Failure::Fault("begin <= end (1 <= 0) when slicing `\"`".to_string()));
        }
        let inner = slice_chars(t.as_slice(), 1, n - 1);
        return Ok(QuernValue::Str(string_of(inner.as_slice())));
    }
    match parse_i64(t.as_slice()) {
        Some(v) => {
            return Ok(QuernValue::Int(v));
        },
        None => {},
    }
    let text = string_of(t.as_slice());
    if float_text(t.as_slice()) {
        return Ok(QuernValue::Float(text));
    }
    match ctx.get_var(text.as_str(), "Parser") {
        Ok(v) => Ok(v.duplicate()),
        Err(_) => {
            let mut m = "Cannot parse literal: ".to_string();
            m.append(text.as_str());
            Err(Failure::Error(m))
        },
    }
}

} // verus!
