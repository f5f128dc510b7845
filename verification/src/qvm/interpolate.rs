//! `@name@` references inside output text, and ordering of text values.
use vstd::prelude::*;
use crate::qvm::syntax::ComparisonOp;
use crate::text::{slice_chars, chars_eq};

verus! {

/// The position of the first `c` in `s`.
pub open spec fn first_index(s: Seq<char>, c: char) -> Option<nat>
    decreases s.len(),
{
    if s.len() == 0 {
        None
    } else if s[0] == c {
        Some(0)
    } else {
        match first_index(s.drop_first(), c) {
            Some(i) => Some(i + 1),
            None => None,
        }
    }
}

/// A found position is in range and holds `c`, and no earlier position does.
pub proof fn lemma_first_index(s: Seq<char>, c: char)
    ensures
        first_index(s, c) matches Some(i) ==> i < s.len() && s[i as int] == c && forall|k: int| 0 <= k < i ==> s[k] != c,
        first_index(s, c) is None ==> forall|k: int| 0 <= k < s.len() ==> s[k] != c,
    decreases s.len(),
{
    if s.len() > 0 {
        lemma_first_index(s.drop_first(), c);
        if s[0] != c {
            assert forall|k: int| 1 <= k < s.len() implies s[k] == s.drop_first()[k - 1] by {}
        }
    }
}

/// The position of the first `c` in `s` (see `first_index`).
pub fn find_char(s: &[char], c: char) -> (r: Option<usize>)
    ensures
        r matches Some(i) ==> first_index(s@, c) == Some(i as nat) && i < s@.len(),
        r is None ==> first_index(s@, c) is None,
{
    let mut i: usize = 0;
    while i < s.len()
        invariant
            i <= s@.len(),
            forall|k: int| 0 <= k < i ==> s@[k] != c,
        decreases s@.len() - i,
    {
        if s[i] == c {
            proof {
                lemma_first_index_at(s@, c, i as nat);
            }
            return Some(i);
        }
        i = i + 1;
    }
    proof {
        lemma_first_index(s@, c);
        if first_index(s@, c) is Some {
            let j = first_index(s@, c)->0;
            assert(s@[j as int] == c);
        }
    }
    None
}

/// When `s[i]` is the first `c`, `first_index` finds it.
pub proof fn lemma_first_index_at(s: Seq<char>, c: char, i: nat)
    requires
        i < s.len(),
        s[i as int] == c,
        forall|k: int| 0 <= k < i ==> s[k] != c,
    ensures
        first_index(s, c) == Some(i),
    decreases i,
{
    if i > 0 {
        assert forall|k: int| 0 <= k < i - 1 implies s.drop_first()[k] != c by {
            assert(s.drop_first()[k] == s[k + 1]);
        }
        lemma_first_index_at(s.drop_first(), c, (i - 1) as nat);
    }
}

/// Whether `s` holds an `@name@` pattern with a non-empty name, scanning from left to
/// right: after each `@`, the text up to the next `@` is the name; an empty name is
/// skipped together with both `@`.
pub open spec fn has_pattern(s: Seq<char>) -> bool
    decreases s.len(),
{
    match first_index(s, '@') {
        None => false,
        Some(start) => {
            let rest = s.skip(start as int + 1);
            proof {
                lemma_first_index(s, '@');
                lemma_first_index(rest, '@');
            }
            match first_index(rest, '@') {
                None => false,
                Some(j) => if j > 0 {
                    true
                } else {
                    has_pattern(rest.skip(j as int + 1))
                },
            }
        },
    }
}

/// Whether `s` holds an `@name@` pattern (see `has_pattern`).
pub fn has_var_pattern(s: &[char]) -> (r: bool)
    ensures
        r == has_pattern(s@),
    decreases s@.len(),
{
    proof {
        lemma_first_index(s@, '@');
    }
    match find_char(s, '@') {
        None => false,
        Some(start) => {
            let n = s.len();
            assert(start < n);
            let rest = slice_chars(s, start + 1, n);
            assert(rest@ =~= s@.skip(start + 1));
            proof {
                lemma_first_index(rest@, '@');
            }
            match find_char(rest.as_slice(), '@') {
                None => false,
                Some(j) => {
                    if j > 0 {
                        true
                    } else {
                        let tail = slice_chars(rest.as_slice(), j + 1, rest.len());
                        assert(tail@ =~= rest@.skip(j + 1));
                        has_var_pattern(tail.as_slice())
                    }
                },
            }
        },
    }
}

/// `s` with every occurrence of `pat` replaced by `rep`, scanning from the left without
/// overlaps, as `str::replace` does for a non-empty pattern.
pub open spec fn replace_all(s: Seq<char>, pat: Seq<char>, rep: Seq<char>) -> Seq<char>
    decreases s.len(),
{
    if pat.len() == 0 || s.len() < pat.len() {
        s
    } else if s.subrange(0, pat.len() as int) == pat {
        rep + replace_all(s.skip(pat.len() as int), pat, rep)
    } else {
        seq![s[0]] + replace_all(s.drop_first(), pat, rep)
    }
}

/// `s` with every occurrence of `pat` replaced by `rep` (see `replace_all`).
pub fn replace_chars(s: &[char], pat: &[char], rep: &[char]) -> (r: Vec<char>)
    ensures
        r@ == replace_all(s@, pat@, rep@),
{
    let mut out: Vec<char> = Vec::new();
    let mut i: usize = 0;
    if pat.len() == 0 {
        return slice_chars(s, 0, s.len());
    }
    assert(s@.skip(0) =~= s@);
    while i < s.len() && pat.len() <= s.len() - i
        invariant
            pat@.len() > 0,
            i <= s@.len(),
            out@ + replace_all(s@.skip(i as int), pat@, rep@) == replace_all(s@, pat@, rep@),
        decreases s@.len() - i,
    {
        let piece = slice_chars(s, i, i + pat.len());
        let ghost t = s@.skip(i as int);
        assert(piece@ =~= t.subrange(0, pat@.len() as int));
        if chars_eq(piece.as_slice(), pat) {
            let ghost before = out@;
            let mut k: usize = 0;
            while k < rep.len()
                invariant
                    k <= rep@.len(),
                    out@ == before + rep@.subrange(0, k as int),
                decreases rep@.len() - k,
            {
                out.push(rep[k]);
                k = k + 1;
                assert(out@ =~= before + rep@.subrange(0, k as int));
            }
            assert(rep@.subrange(0, rep@.len() as int) =~= rep@);
            assert(t.skip(pat@.len() as int) =~= s@.skip(i + pat@.len()));
            assert(out@ + replace_all(s@.skip(i + pat@.len()), pat@, rep@) =~= before + (rep@
                + replace_all(t.skip(pat@.len() as int), pat@, rep@)));
            i = i + pat.len();
        } else {
            let ghost before = out@;
            out.push(s[i]);
            assert(t.drop_first() =~= s@.skip(i + 1));
            assert(out@ + replace_all(s@.skip(i + 1), pat@, rep@) =~= before + (seq![t[0]]
                + replace_all(t.drop_first(), pat@, rep@)));
            i = i + 1;
        }
    }
    let tail = slice_chars(s, i, s.len());
    assert(tail@ =~= s@.skip(i as int));
    let ghost before = out@;
    let mut k: usize = 0;
    while k < tail.len()
        invariant
            k <= tail@.len(),
            out@ == before + tail@.subrange(0, k as int),
        decreases tail@.len() - k,
    {
        out.push(tail[k]);
        k = k + 1;
        assert(out@ =~= before + tail@.subrange(0, k as int));
    }
    assert(tail@.subrange(0, tail@.len() as int) =~= tail@);
    out
}

/// Whether `a` comes before `b` in the order of `str`: character by character, a
/// proper prefix first.
pub open spec fn text_lt(a: Seq<char>, b: Seq<char>) -> bool
    decreases a.len(),
{
    if a.len() == 0 {
        b.len() > 0
    } else if b.len() == 0 {
        false
    } else if (a[0] as int) < (b[0] as int) {
        true
    } else if (a[0] as int) > (b[0] as int) {
        false
    } else {
        text_lt(a.drop_first(), b.drop_first())
    }
}

/// Whether `a` comes before `b` (see `text_lt`).
pub fn chars_lt(a: &[char], b: &[char]) -> (r: bool)
    ensures
        r == text_lt(a@, b@),
{
    let mut i: usize = 0;
    assert(a@.skip(0) =~= a@ && b@.skip(0) =~= b@);
    while i < a.len() && i < b.len() && a[i] == b[i]
        invariant
            i <= a@.len(),
            i <= b@.len(),
            text_lt(a@, b@) == text_lt(a@.skip(i as int), b@.skip(i as int)),
        decreases a@.len() - i,
    {
        assert(a@.skip(i as int).drop_first() =~= a@.skip(i + 1));
        assert(b@.skip(i as int).drop_first() =~= b@.skip(i + 1));
        i = i + 1;
    }
    assert(i < a@.len() ==> a@.skip(i as int)[0] == a@[i as int]);
    assert(i < b@.len() ==> b@.skip(i as int)[0] == b@[i as int]);
    if i == a.len() {
        assert(a@.skip(i as int).len() == 0);
        i < b.len()
    } else if i == b.len() {
        false
    } else {
        a[i] < b[i]
    }
}

/// The outcome of comparing two texts that are not both numbers.
pub open spec fn text_relation(a: Seq<char>, b: Seq<char>, op: ComparisonOp) -> bool {
    match op {
        ComparisonOp::Equal => a == b,
        ComparisonOp::NotEqual => a != b,
        ComparisonOp::LessThan => text_lt(a, b),
        ComparisonOp::GreaterThan => text_lt(b, a),
        ComparisonOp::LessEqual => !text_lt(b, a),
        ComparisonOp::GreaterEqual => !text_lt(a, b),
    }
}

/// The outcome of a jump condition: `numeric` when both sides read as numbers (as
/// decided by the caller, who compares them as floating-point values), and the order of
/// the texts otherwise.
pub open spec fn condition_holds(a: Seq<char>, b: Seq<char>, op: ComparisonOp, numeric: Option<bool>) -> bool {
    match numeric {
        Some(x) => x,
        None => text_relation(a, b, op),
    }
}

/// Compares two stack values: by the caller's numeric outcome when there is one, by the
/// order of the texts otherwise (see `condition_holds`).
pub fn compare(left: &[char], right: &[char], op: ComparisonOp, numeric: Option<bool>) -> (r: bool)
    ensures
        r == condition_holds(left@, right@, op, numeric),
{
    match numeric {
        Some(x) => x,
        None => match op {
            ComparisonOp::Equal => chars_eq(left, right),
            ComparisonOp::NotEqual => !chars_eq(left, right),
            ComparisonOp::LessThan => chars_lt(left, right),
            ComparisonOp::GreaterThan => chars_lt(right, left),
            ComparisonOp::LessEqual => !chars_lt(right, left),
            ComparisonOp::GreaterEqual => !chars_lt(left, right),
        },
    }
}

} // verus!
