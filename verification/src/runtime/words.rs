//! Splitting and cutting script text as `str::split`, `split_whitespace`, `contains`,
//! `replace` and `trim_matches` do.
use vstd::prelude::*;
use crate::text::{trim, trim_chars, is_ws, is_whitespace, string_of, slice_chars};
use crate::runtime::scan::{lit_at, text_at};

verus! {

/// The pieces of the first `n` characters of `s` cut at each `c`: the finished pieces and
/// the piece still open.
pub open spec fn split_acc(s: Seq<char>, c: char, n: nat) -> (Seq<Seq<char>>, Seq<char>)
    decreases n,
{
    if n == 0 || n > s.len() {
        (Seq::empty(), Seq::empty())
    } else {
        let (done, cur) = split_acc(s, c, (n - 1) as nat);
        if s[n - 1] == c {
            (done.push(cur), Seq::empty())
        } else {
            (done, cur.push(s[n - 1]))
        }
    }
}

/// The pieces of `s` between the separators `c`, as `str::split(c)` yields them: one more
/// piece than there are separators.
pub open spec fn split_on(s: Seq<char>, c: char) -> Seq<Seq<char>> {
    let (done, cur) = split_acc(s, c, s.len());
    done.push(cur)
}

/// The pieces of `s` between the separators `c` (see `split_on`).
pub fn split_chars(s: &[char], c: char) -> (r: Vec<Vec<char>>)
    ensures
        r@.len() == split_on(s@, c).len(),
        forall|i: int| 0 <= i < r@.len() ==> #[trigger] r@[i]@ == split_on(s@, c)[i],
{
    let mut done: Vec<Vec<char>> = Vec::new();
    let mut cur: Vec<char> = Vec::new();
    let mut i: usize = 0;
    while i < s.len()
        invariant
            i <= s@.len(),
            done@.len() == split_acc(s@, c, i as nat).0.len(),
            forall|k: int| 0 <= k < done@.len() ==> #[trigger] done@[k]@ == split_acc(s@, c, i as nat).0[k],
            cur@ == split_acc(s@, c, i as nat).1,
        decreases s@.len() - i,
    {
        if s[i] == c {
            let piece = cur;
            done.push(piece);
            cur = Vec::new();
        } else {
            cur.push(s[i]);
        }
        i = i + 1;
    }
    done.push(cur);
    done
}

/// The trimmed pieces that are not empty, in order.
pub open spec fn nonempty_trimmed(ps: Seq<Seq<char>>) -> Seq<Seq<char>>
    decreases ps.len(),
{
    if ps.len() == 0 {
        Seq::empty()
    } else {
        let r = nonempty_trimmed(ps.drop_last());
        let t = trim(ps.last());
        if t.len() > 0 {
            r.push(t)
        } else {
            r
        }
    }
}

/// The trimmed pieces that are not empty, as strings (see `nonempty_trimmed`).
pub(crate) fn trimmed_fields(ps: &Vec<Vec<char>>, Ghost(pv): Ghost<Seq<Seq<char>>>) -> (r: Vec<String>)
    requires
        ps@.len() == pv.len(),
        forall|i: int| 0 <= i < pv.len() ==> #[trigger] ps@[i]@ == pv[i],
    ensures
        r@.len() == nonempty_trimmed(pv).len(),
        forall|i: int| 0 <= i < r@.len() ==> #[trigger] r@[i]@ == nonempty_trimmed(pv)[i],
{
    let mut r: Vec<String> = Vec::new();
    let mut i: usize = 0;
    while i < ps.len()
        invariant
            i <= ps@.len(),
            ps@.len() == pv.len(),
            forall|k: int| 0 <= k < pv.len() ==> #[trigger] ps@[k]@ == pv[k],
            r@.len() == nonempty_trimmed(pv.take(i as int)).len(),
            forall|k: int| 0 <= k < r@.len() ==> #[trigger] r@[k]@ == nonempty_trimmed(pv.take(i as int))[k],
        decreases ps@.len() - i,
    {
        let t = trim_chars(ps[i].as_slice());
        proof {
            assert(pv.take(i + 1).drop_last() =~= pv.take(i as int));
            assert(pv.take(i + 1).last() == pv[i as int]);
        }
        if t.len() > 0 {
            r.push(string_of(t.as_slice()));
        }
        i = i + 1;
    }
    assert(pv.take(ps@.len() as int) =~= pv);
    r
}

/// The words of the first `n` characters of `s`: the finished words and the word still
/// open.
pub open spec fn words_acc(s: Seq<char>, n: nat) -> (Seq<Seq<char>>, Seq<char>)
    decreases n,
{
    if n == 0 || n > s.len() {
        (Seq::empty(), Seq::empty())
    } else {
        let (done, cur) = words_acc(s, (n - 1) as nat);
        if is_ws(s[n - 1]) {
            if cur.len() > 0 {
                (done.push(cur), Seq::empty())
            } else {
                (done, Seq::empty())
            }
        } else {
            (done, cur.push(s[n - 1]))
        }
    }
}

/// The words of `s`, as `str::split_whitespace` yields them: the non-empty runs between
/// whitespace.
pub open spec fn words(s: Seq<char>) -> Seq<Seq<char>> {
    let (done, cur) = words_acc(s, s.len());
    if cur.len() > 0 {
        done.push(cur)
    } else {
        done
    }
}

/// The words of `s` (see `words`).
pub fn split_words(s: &[char]) -> (r: Vec<Vec<char>>)
    ensures
        r@.len() == words(s@).len(),
        forall|i: int| 0 <= i < r@.len() ==> #[trigger] r@[i]@ == words(s@)[i],
{
    let mut done: Vec<Vec<char>> = Vec::new();
    let mut cur: Vec<char> = Vec::new();
    let mut i: usize = 0;
    while i < s.len()
        invariant
            i <= s@.len(),
            done@.len() == words_acc(s@, i as nat).0.len(),
            forall|k: int| 0 <= k < done@.len() ==> #[trigger] done@[k]@ == words_acc(s@, i as nat).0[k],
            cur@ == words_acc(s@, i as nat).1,
        decreases s@.len() - i,
    {
        if is_whitespace(s[i]) {
            if cur.len() > 0 {
                let w = cur;
                done.push(w);
            }
            cur = Vec::new();
        } else {
            cur.push(s[i]);
        }
        i = i + 1;
    }
    if cur.len() > 0 {
        done.push(cur);
    }
    done
}

/// Whether `t` occurs in `s`.
pub open spec fn has_text(s: Seq<char>, t: Seq<char>) -> bool {
    exists|i: int| lit_at(s, i, t)
}

/// Whether `t` occurs in `s` (see `has_text`).
pub fn contains_text(s: &[char], t: &[char]) -> (r: bool)
    ensures
        r == has_text(s@, t@),
{
    let n = s.len();
    let mut i: usize = 0;
    while i < n
        invariant
            n == s@.len(),
            i <= n,
            forall|k: int| 0 <= k < i ==> !lit_at(s@, k, t@),
        decreases n - i,
    {
        if text_at(s, i, t) {
            return true;
        }
        i = i + 1;
    }
    if text_at(s, n, t) {
        return true;
    }
    assert forall|k: int| !lit_at(s@, k, t@) by {
        if 0 <= k < i {
        }
    }
    false
}

/// `s` from `i` on with every occurrence of `t` taken out, left to right.
pub open spec fn without_from(s: Seq<char>, t: Seq<char>, i: int) -> Seq<char>
    decreases s.len() - i,
{
    if i < 0 || i >= s.len() || t.len() == 0 {
        if 0 <= i < s.len() {
            s.skip(i)
        } else {
            Seq::empty()
        }
    } else if lit_at(s, i, t) {
        without_from(s, t, i + t.len())
    } else {
        seq![s[i]] + without_from(s, t, i + 1)
    }
}

/// `s` with every occurrence of `t` taken out, as `s.replace(t, "")` gives it.
pub open spec fn without(s: Seq<char>, t: Seq<char>) -> Seq<char> {
    without_from(s, t, 0)
}

/// `s` with every occurrence of `t` taken out (see `without`).
pub fn remove_text(s: &[char], t: &[char]) -> (r: Vec<char>)
    requires
        t@.len() > 0,
    ensures
        r@ == without(s@, t@),
{
    let mut r: Vec<char> = Vec::new();
    let mut i: usize = 0;
    while i < s.len()
        invariant
            i <= s@.len(),
            t@.len() > 0,
            r@ + without_from(s@, t@, i as int) == without(s@, t@),
        decreases s@.len() - i,
    {
        if text_at(s, i, t) {
            let ghost before = without_from(s@, t@, i as int);
            i = i + t.len();
            proof {
                if i < s@.len() {
                } else {
                    assert(without_from(s@, t@, i as int) == Seq::<char>::empty());
                }
            }
        } else {
            proof {
                assert(r@.push(s@[i as int]) + without_from(s@, t@, i + 1) =~= r@ + (seq![s@[i as int]]
                    + without_from(s@, t@, i + 1)));
            }
            r.push(s[i]);
            i = i + 1;
        }
    }
    assert(without_from(s@, t@, i as int) == Seq::<char>::empty());
    assert(r@ + Seq::<char>::empty() =~= r@);
    r
}

/// `s` without the copies of `c` at its start.
pub open spec fn strip_start(s: Seq<char>, c: char) -> Seq<char>
    decreases s.len(),
{
    if s.len() > 0 && s[0] == c {
        strip_start(s.drop_first(), c)
    } else {
        s
    }
}

/// `s` without the copies of `c` at its end.
pub open spec fn strip_end(s: Seq<char>, c: char) -> Seq<char>
    decreases s.len(),
{
    if s.len() > 0 && s.last() == c {
        strip_end(s.drop_last(), c)
    } else {
        s
    }
}

/// `s` without the copies of `c` at either end, as `str::trim_matches(c)` gives it.
pub open spec fn strip(s: Seq<char>, c: char) -> Seq<char> {
    strip_end(strip_start(s, c), c)
}

/// `s` without the copies of `c` at either end (see `strip`).
pub fn strip_chars(s: &[char], c: char) -> (r: Vec<char>)
    ensures
        r@ == strip(s@, c),
{
    let mut i: usize = 0;
    assert(s@.subrange(0, s@.len() as int) =~= s@);
    while i < s.len() && s[i] == c
        invariant
            i <= s@.len(),
            strip_start(s@, c) == strip_start(s@.subrange(i as int, s@.len() as int), c),
        decreases s@.len() - i,
    {
        assert(s@.subrange(i as int, s@.len() as int).drop_first() =~= s@.subrange(i + 1, s@.len() as int));
        i = i + 1;
    }
    let ghost t = s@.subrange(i as int, s@.len() as int);
    assert(strip_start(t, c) == t);
    let mut j: usize = s.len();
    while j > i && s[j - 1] == c
        invariant
            i <= j <= s@.len(),
            strip_end(t, c) == strip_end(s@.subrange(i as int, j as int), c),
        decreases j,
    {
        assert(s@.subrange(i as int, j as int).drop_last() =~= s@.subrange(i as int, j - 1));
        j = j - 1;
    }
    slice_chars(s, i, j)
}

/// `trim`, then `strip` of `"`, then `trim`: how a quoted name is read.
pub open spec fn unquoted(s: Seq<char>) -> Seq<char> {
    trim(strip(trim(s), '"'))
}

/// Reads a quoted name (see `unquoted`).
pub fn unquote(s: &[char]) -> (r: Vec<char>)
    ensures
        r@ == unquoted(s@),
{
    let a = trim_chars(s);
    let b = strip_chars(a.as_slice(), '"');
    trim_chars(b.as_slice())
}

} // verus!
