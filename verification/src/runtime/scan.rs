//! Scanning script text: classes of characters, the longest run of a class, literal text at
//! a position, and the leftmost position where a pattern matches.
use vstd::prelude::*;
use crate::text::{is_ws, is_whitespace};

verus! {

/// Whether `c` is a word character (`\w` of the script grammar): a Unicode letter
/// (`Alphabetic`), a `Join_Control`, a decimal digit, a mark or a connector punctuation.
pub uninterp spec fn word_char(c: char) -> bool;

/// Calls `regex_syntax::is_word_character`, which tells whether `c` is a Unicode word
/// character by the tables of `regex-syntax` (present with its default `unicode-perl`
/// feature, without which the call panics); its result is `word_char(c)`.
#[verifier::external_body]
fn is_word_character(c: char) -> (r: bool)
    ensures
        r == word_char(c),
{
    regex_syntax::is_word_character(c)
}

/// Classes of characters that the script grammar matches runs of.
pub enum CharClass {
    /// Whitespace (`\s`).
    Space,
    /// Word characters (`\w`).
    Word,
    /// Anything but `"`.
    NotQuote,
    /// Anything but `)`.
    NotCloseParen,
    /// Anything but `}`.
    NotCloseBrace,
    /// Anything but a line feed (`.`).
    NotNewline,
}

/// Whether `c` belongs to the class `k`.
pub open spec fn in_class(k: CharClass, c: char) -> bool {
    match k {
        CharClass::Space => is_ws(c),
        CharClass::Word => word_char(c),
        CharClass::NotQuote => c != '"',
        CharClass::NotCloseParen => c != ')',
        CharClass::NotCloseBrace => c != '}',
        CharClass::NotNewline => c != '\n',
    }
}

/// Whether `c` belongs to the class `k`.
pub fn class_has(k: &CharClass, c: char) -> (r: bool)
    ensures
        r == in_class(*k, c),
{
    match k {
        CharClass::Space => is_whitespace(c),
        CharClass::Word => is_word_character(c),
        CharClass::NotQuote => c != '"',
        CharClass::NotCloseParen => c != ')',
        CharClass::NotCloseBrace => c != '}',
        CharClass::NotNewline => c != '\n',
    }
}

/// Where the longest run of characters of class `k` that starts at `i` ends.
pub open spec fn run_end(s: Seq<char>, i: int, k: CharClass) -> int
    decreases s.len() - i,
{
    if 0 <= i < s.len() && in_class(k, s[i]) {
        run_end(s, i + 1, k)
    } else {
        i
    }
}

/// Where the longest run of class `k` that starts at `i` ends (see `run_end`).
pub fn scan_run(s: &[char], i: usize, k: CharClass) -> (r: usize)
    requires
        i <= s@.len(),
    ensures
        r == run_end(s@, i as int, k),
        i <= r <= s@.len(),
{
    let mut j = i;
    while j < s.len() && class_has(&k, s[j])
        invariant
            i <= j <= s@.len(),
            run_end(s@, j as int, k) == run_end(s@, i as int, k),
        decreases s@.len() - j,
    {
        j = j + 1;
    }
    j
}

/// Whether the text `t` stands in `s` at `i`.
pub open spec fn lit_at(s: Seq<char>, i: int, t: Seq<char>) -> bool {
    0 <= i && i + t.len() <= s.len() && s.subrange(i, i + t.len()) == t
}

/// Whether the text `t` stands in `s` at `i` (see `lit_at`).
pub fn text_at(s: &[char], i: usize, t: &[char]) -> (r: bool)
    ensures
        r == lit_at(s@, i as int, t@),
{
    let n = s.len();
    if i > n || t.len() > n - i {
        return false;
    }
    let mut j: usize = 0;
    while j < t.len()
        invariant
            n == s@.len(),
            i + t@.len() <= n,
            j <= t@.len(),
            forall|k: int| 0 <= k < j ==> s@[i + k] == t@[k],
        decreases t@.len() - j,
    {
        if s[i + j] != t[j] {
            assert(s@.subrange(i as int, i + t@.len())[j as int] != t@[j as int]);
            return false;
        }
        j = j + 1;
    }
    assert(s@.subrange(i as int, i + t@.len()) =~= t@);
    true
}

/// The leftmost position, from `from` on, where `m` finds a match in `s`, with the match.
pub open spec fn leftmost<T>(s: Seq<char>, from: int, m: spec_fn(int) -> Option<T>) -> Option<(int, T)>
    decreases s.len() - from,
{
    if from < 0 || from >= s.len() {
        None
    } else {
        match m(from) {
            Some(x) => Some((from, x)),
            None => leftmost(s, from + 1, m),
        }
    }
}

/// The last position in `[lo, hi)` that holds `c`.
pub open spec fn last_of(s: Seq<char>, lo: int, hi: int, c: char) -> Option<int>
    decreases hi - lo,
{
    if hi <= lo {
        None
    } else if s[hi - 1] == c {
        Some(hi - 1)
    } else {
        last_of(s, lo, hi - 1, c)
    }
}

/// A last position found holds `c` and lies in `[lo, hi)`.
pub proof fn lemma_last_of(s: Seq<char>, lo: int, hi: int, c: char)
    ensures
        last_of(s, lo, hi, c) matches Some(k) ==> lo <= k < hi && s[k] == c,
    decreases hi - lo,
{
    if hi > lo && s[hi - 1] != c {
        lemma_last_of(s, lo, hi - 1, c);
    }
}

/// The last position in `[lo, hi)` that does not hold `c`.
pub open spec fn last_not(s: Seq<char>, lo: int, hi: int, c: char) -> Option<int>
    decreases hi - lo,
{
    if hi <= lo {
        None
    } else if s[hi - 1] != c {
        Some(hi - 1)
    } else {
        last_not(s, lo, hi - 1, c)
    }
}

/// The last position in `[lo, hi)` that holds `c` (see `last_of`).
pub fn find_last(s: &[char], lo: usize, hi: usize, c: char) -> (r: Option<usize>)
    requires
        hi <= s@.len(),
    ensures
        r matches Some(k) ==> last_of(s@, lo as int, hi as int, c) == Some(k as int) && lo <= k < hi,
        r is None ==> last_of(s@, lo as int, hi as int, c) is None,
{
    let mut h = hi;
    while h > lo
        invariant
            h <= hi <= s@.len(),
            forall|k: int| h <= k < hi ==> s@[k] != c,
        decreases h,
    {
        if s[h - 1] == c {
            proof {
                lemma_last_of_skip(s@, lo as int, hi as int, h as int, c);
            }
            return Some(h - 1);
        }
        h = h - 1;
    }
    proof {
        lemma_last_of_skip(s@, lo as int, hi as int, h as int, c);
    }
    None
}

/// When `[h, hi)` has no `c`, the last `c` in `[lo, hi)` is the last in `[lo, h)`.
proof fn lemma_last_of_skip(s: Seq<char>, lo: int, hi: int, h: int, c: char)
    requires
        h <= hi,
        forall|k: int| h <= k < hi ==> s[k] != c,
    ensures
        last_of(s, lo, hi, c) == last_of(s, lo, h, c),
    decreases hi - h,
{
    if h < hi && lo < hi {
        lemma_last_of_skip(s, lo, hi - 1, h, c);
    }
}

/// The last position in `[lo, hi)` that does not hold `c` (see `last_not`).
pub fn find_last_not(s: &[char], lo: usize, hi: usize, c: char) -> (r: Option<usize>)
    requires
        hi <= s@.len(),
    ensures
        r matches Some(k) ==> last_not(s@, lo as int, hi as int, c) == Some(k as int) && lo <= k < hi,
        r is None ==> last_not(s@, lo as int, hi as int, c) is None,
{
    let mut h = hi;
    while h > lo
        invariant
            h <= hi <= s@.len(),
            forall|k: int| h <= k < hi ==> s@[k] == c,
        decreases h,
    {
        if s[h - 1] != c {
            proof {
                lemma_last_not_skip(s@, lo as int, hi as int, h as int, c);
            }
            return Some(h - 1);
        }
        h = h - 1;
    }
    proof {
        lemma_last_not_skip(s@, lo as int, hi as int, h as int, c);
    }
    None
}

/// When `[h, hi)` holds only `c`, the last other character in `[lo, hi)` is the last in `[lo, h)`.
proof fn lemma_last_not_skip(s: Seq<char>, lo: int, hi: int, h: int, c: char)
    requires
        h <= hi,
        forall|k: int| h <= k < hi ==> s[k] == c,
    ensures
        last_not(s, lo, hi, c) == last_not(s, lo, h, c),
    decreases hi - h,
{
    if h < hi && lo < hi {
        lemma_last_not_skip(s, lo, hi - 1, h, c);
    }
}

} // verus!
