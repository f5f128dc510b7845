//! Splitting QVM source text into tokens.
//!
//! Each line is read on its own. A `"` toggles quoting and is dropped; outside quotes a
//! space ends the current token; in the `V5` dialect `{` and `}` outside quotes are
//! tokens of their own. Every token remembers the (1-based) number of its line.
use vstd::prelude::*;
use crate::qvm::syntax::Dialect;
use crate::text::{spec_lines, split_lines, to_chars, chars_to_string};

verus! {

/// The lexer's state after the first `n` characters of `line`: the tokens finished so
/// far, the token being built, and whether a quote is open.
pub open spec fn lex_acc(line: Seq<char>, n: nat, d: Dialect) -> (Seq<Seq<char>>, Seq<char>, bool)
    decreases n,
{
    if n == 0 || n > line.len() {
        (Seq::empty(), Seq::empty(), false)
    } else {
        let (toks, cur, q) = lex_acc(line, (n - 1) as nat, d);
        let c = line[n - 1];
        if c == '"' {
            (toks, cur, !q)
        } else if c == ' ' && !q {
            if cur.len() > 0 {
                (toks.push(cur), Seq::empty(), q)
            } else {
                (toks, cur, q)
            }
        } else if d == Dialect::V5 && !q && (c == '{' || c == '}') {
            let done = if cur.len() > 0 {
                toks.push(cur)
            } else {
                toks
            };
            (done.push(seq![c]), Seq::empty(), q)
        } else {
            (toks, cur.push(c), q)
        }
    }
}

/// The tokens of one line.
pub open spec fn lex_line(line: Seq<char>, d: Dialect) -> Seq<Seq<char>> {
    let (toks, cur, _q) = lex_acc(line, line.len(), d);
    if cur.len() > 0 {
        toks.push(cur)
    } else {
        toks
    }
}

/// The tokens of `lines`, each with the number of its line (counting from 1).
pub open spec fn lex_lines(lines: Seq<Seq<char>>, d: Dialect) -> Seq<(Seq<char>, nat)>
    decreases lines.len(),
{
    if lines.len() == 0 {
        Seq::empty()
    } else {
        lex_lines(lines.drop_last(), d) + lex_line(lines.last(), d).map_values(
            |t: Seq<char>| (t, lines.len()),
        )
    }
}

/// The tokens of the source text `src`, with their line numbers.
pub open spec fn spec_tokens(src: Seq<char>, d: Dialect) -> Seq<(Seq<char>, nat)> {
    lex_lines(spec_lines(src), d)
}

/// The tokens of one line (see `lex_line`).
fn tokenize_line(line: &[char], d: Dialect) -> (r: Vec<Vec<char>>)
    ensures
        r@.len() == lex_line(line@, d).len(),
        forall|i: int| 0 <= i < r@.len() ==> #[trigger] r@[i]@ == lex_line(line@, d)[i],
{
    let mut toks: Vec<Vec<char>> = Vec::new();
    let mut cur: Vec<char> = Vec::new();
    let mut in_quotes = false;
    let mut i: usize = 0;
    while i < line.len()
        invariant
            i <= line@.len(),
            toks@.len() == lex_acc(line@, i as nat, d).0.len(),
            forall|k: int| 0 <= k < toks@.len() ==> #[trigger] toks@[k]@ == lex_acc(line@, i as nat, d).0[k],
            cur@ == lex_acc(line@, i as nat, d).1,
            in_quotes == lex_acc(line@, i as nat, d).2,
        decreases line@.len() - i,
    {
        let c = line[i];
        if c == '"' {
            in_quotes = !in_quotes;
        } else if c == ' ' && !in_quotes {
            if cur.len() > 0 {
                toks.push(cur);
                cur = Vec::new();
            }
        } else if d == Dialect::V5 && !in_quotes && (c == '{' || c == '}') {
            if cur.len() > 0 {
                toks.push(cur);
                cur = Vec::new();
            }
            let mut b: Vec<char> = Vec::new();
            b.push(c);
            assert(b@ =~= seq![c]);
            toks.push(b);
        } else {
            cur.push(c);
        }
        i = i + 1;
    }
    if cur.len() > 0 {
        toks.push(cur);
    }
    toks
}

/// Splits `input` into lines and tokens: the tokens (see `spec_tokens`), the line number
/// of each token, and the lines themselves.
#[verifier::spinoff_prover]
pub fn tokenize(input: &str, d: Dialect) -> (r: (Vec<String>, Vec<usize>, Vec<String>))
    ensures
        r.0@.len() == spec_tokens(input@, d).len(),
        r.1@.len() == spec_tokens(input@, d).len(),
        forall|i: int|
            0 <= i < r.0@.len() ==> #[trigger] r.0@[i]@ == spec_tokens(input@, d)[i].0
                && r.1@[i] == spec_tokens(input@, d)[i].1,
        r.2@.len() == spec_lines(input@).len(),
        forall|i: int| 0 <= i < r.2@.len() ==> #[trigger] r.2@[i]@ == spec_lines(input@)[i],
{
    let chars = to_chars(input);
    let lines = split_lines(chars.as_slice());
    let ghost ls = spec_lines(input@);
    let mut tokens: Vec<String> = Vec::new();
    let mut line_map: Vec<usize> = Vec::new();
    let mut source_lines: Vec<String> = Vec::new();
    let mut idx: usize = 0;
    while idx < lines.len()
        invariant
            lines@.len() == ls.len(),
            forall|i: int| 0 <= i < lines@.len() ==> #[trigger] lines@[i]@ == ls[i],
            idx <= lines@.len(),
            source_lines@.len() == idx,
            forall|i: int| 0 <= i < idx ==> #[trigger] source_lines@[i]@ == ls[i],
            tokens@.len() == lex_lines(ls.take(idx as int), d).len(),
            line_map@.len() == tokens@.len(),
            forall|i: int|
                0 <= i < tokens@.len() ==> #[trigger] tokens@[i]@ == lex_lines(ls.take(idx as int), d)[i].0
                    && line_map@[i] == lex_lines(ls.take(idx as int), d)[i].1,
        decreases lines@.len() - idx,
    {
        let line_num = idx + 1;
        let line = &lines[idx];
        let toks = tokenize_line(line.as_slice(), d);
        let ghost before = tokens@;
        let ghost before_map = line_map@;
        let ghost prev = lex_lines(ls.take(idx as int), d);
        let ghost added = lex_line(ls[idx as int], d).map_values(|t: Seq<char>| (t, (idx + 1) as nat));
        assert(ls.take(idx + 1).drop_last() =~= ls.take(idx as int));
        assert(lex_lines(ls.take(idx + 1), d) == prev + added);
        let mut k: usize = 0;
        while k < toks.len()
            invariant
                toks@.len() == lex_line(ls[idx as int], d).len(),
                forall|j: int| 0 <= j < toks@.len() ==> #[trigger] toks@[j]@ == lex_line(ls[idx as int], d)[j],
                line_num == idx + 1,
                k <= toks@.len(),
                tokens@.len() == before.len() + k,
                line_map@.len() == before.len() + k,
                before.len() == prev.len(),
                forall|i: int| 0 <= i < before.len() ==> #[trigger] tokens@[i] == before[i] && line_map@[i] == before_map[i],
                forall|i: int|
                    0 <= i < before.len() ==> #[trigger] before[i]@ == prev[i].0 && before_map[i] == prev[i].1,
                forall|j: int|
                    0 <= j < k ==> #[trigger] tokens@[before.len() + j]@ == added[j].0 && line_map@[before.len() + j] == added[j].1,
                added.len() == toks@.len(),
                forall|j: int| 0 <= j < added.len() ==> #[trigger] added[j] == (lex_line(ls[idx as int], d)[j], (idx + 1) as nat),
            decreases toks@.len() - k,
        {
            tokens.push(chars_to_string(&toks[k]));
            line_map.push(line_num);
            k = k + 1;
        }
        let ghost now = prev + added;
        assert(tokens@.len() == now.len());
        assert(forall|i: int| 0 <= i < before.len() ==> #[trigger] tokens@[i] == before[i] && line_map@[i] == before_map[i]);
        assert(forall|i: int| 0 <= i < before.len() ==> #[trigger] now[i] == prev[i]);
        assert(forall|i: int| 0 <= i < before.len() ==> #[trigger] before[i]@ == prev[i].0 && before_map[i] == prev[i].1);
        assert(forall|j: int|
            0 <= j < added.len() ==> #[trigger] tokens@[before.len() + j]@ == added[j].0 && line_map@[before.len() + j] == added[j].1);
        assert(forall|j: int| 0 <= j < added.len() ==> #[trigger] now[before.len() + j] == added[j]);
        assert forall|i: int| 0 <= i < tokens@.len() implies #[trigger] tokens@[i]@ == now[i].0
            && line_map@[i] == now[i].1 by {
            if i >= before.len() {
                let j = i - before.len();
                assert(before.len() + j == i);
                assert(now[before.len() + j] == added[j]);
                assert(j < k);
                assert(tokens@[before.len() + j]@ == added[j].0 && line_map@[before.len() + j] == added[j].1);
            } else {
                assert(now[i] == prev[i]);
                assert(tokens@[i] == before[i]);
                assert(before[i]@ == prev[i].0);
                assert(before_map[i] == prev[i].1);
            }
        }
        source_lines.push(chars_to_string(line));
        idx = idx + 1;
    }
    assert(ls.take(lines@.len() as int) =~= ls);
    assert(lex_lines(ls.take(lines@.len() as int), d) == spec_tokens(input@, d));
    (tokens, line_map, source_lines)
}

/// Whether a token is well made: not empty, and without a `"`.
pub open spec fn good_token(t: Seq<char>) -> bool {
    t.len() > 0 && forall|i: int| 0 <= i < t.len() ==> t[i] != '"'
}

/// While a line is read, the tokens finished are well made and the one being built holds
/// no `"`.
proof fn lemma_lex_acc_good(line: Seq<char>, n: nat, d: Dialect)
    ensures
        forall|i: int| 0 <= i < lex_acc(line, n, d).0.len() ==> good_token(#[trigger] lex_acc(line, n, d).0[i]),
        forall|i: int| 0 <= i < lex_acc(line, n, d).1.len() ==> lex_acc(line, n, d).1[i] != '"',
    decreases n,
{
    if n > 0 && n <= line.len() {
        lemma_lex_acc_good(line, (n - 1) as nat, d);
        let (toks, cur, q) = lex_acc(line, (n - 1) as nat, d);
        let c = line[n - 1];
        if c == '"' {
        } else if c == ' ' && !q {
            if cur.len() > 0 {
                assert forall|i: int| 0 <= i < toks.push(cur).len() implies good_token(#[trigger] toks.push(cur)[i]) by {
                    if i < toks.len() {
                        assert(toks.push(cur)[i] == toks[i]);
                    }
                }
            }
        } else if d == Dialect::V5 && !q && (c == '{' || c == '}') {
            let done = if cur.len() > 0 { toks.push(cur) } else { toks };
            assert forall|i: int| 0 <= i < done.len() implies good_token(#[trigger] done[i]) by {
                if i < toks.len() {
                    assert(done[i] == toks[i]);
                }
            }
            assert forall|i: int| 0 <= i < done.push(seq![c]).len() implies good_token(#[trigger] done.push(seq![c])[i]) by {
                if i < done.len() {
                    assert(done.push(seq![c])[i] == done[i]);
                }
            }
        } else {
            assert forall|i: int| 0 <= i < cur.push(c).len() implies cur.push(c)[i] != '"' by {
                if i < cur.len() {
                    assert(cur.push(c)[i] == cur[i]);
                }
            }
        }
    }
}

/// The tokens of one line are well made.
proof fn lemma_lex_line_good(line: Seq<char>, d: Dialect)
    ensures
        forall|i: int| 0 <= i < lex_line(line, d).len() ==> good_token(#[trigger] lex_line(line, d)[i]),
{
    lemma_lex_acc_good(line, line.len(), d);
    let (toks, cur, _q) = lex_acc(line, line.len(), d);
    if cur.len() > 0 {
        assert forall|i: int| 0 <= i < toks.push(cur).len() implies good_token(#[trigger] toks.push(cur)[i]) by {
            if i < toks.len() {
                assert(toks.push(cur)[i] == toks[i]);
            }
        }
    }
}

/// The tokens of `lines` are well made, their line numbers run from 1 to the number of
/// lines, and they never go down.
proof fn lemma_lex_lines_good(lines: Seq<Seq<char>>, d: Dialect)
    ensures
        forall|i: int|
            0 <= i < lex_lines(lines, d).len() ==> good_token(#[trigger] lex_lines(lines, d)[i].0) && 1
                <= lex_lines(lines, d)[i].1 <= lines.len(),
        forall|i: int, j: int|
            0 <= i <= j < lex_lines(lines, d).len() ==> #[trigger] lex_lines(lines, d)[i].1
                <= #[trigger] lex_lines(lines, d)[j].1,
    decreases lines.len(),
{
    if lines.len() > 0 {
        lemma_lex_lines_good(lines.drop_last(), d);
        lemma_lex_line_good(lines.last(), d);
        let prev = lex_lines(lines.drop_last(), d);
        let added = lex_line(lines.last(), d).map_values(|t: Seq<char>| (t, lines.len()));
        let all = lex_lines(lines, d);
        assert(all == prev + added);
        assert forall|i: int| 0 <= i < all.len() implies good_token(#[trigger] all[i].0) && 1 <= all[i].1 <= lines.len() by {
            if i < prev.len() {
                assert(all[i] == prev[i]);
                assert(good_token(prev[i].0) && 1 <= prev[i].1 <= lines.drop_last().len());
            } else {
                let k = i - prev.len();
                assert(all[i] == added[k]);
                assert(added[k] == (lex_line(lines.last(), d)[k], lines.len()));
                assert(good_token(lex_line(lines.last(), d)[k]));
            }
        }
        assert forall|i: int, j: int| 0 <= i <= j < all.len() implies #[trigger] all[i].1 <= #[trigger] all[j].1 by {
            if j < prev.len() {
                assert(all[i] == prev[i]);
                assert(all[j] == prev[j]);
                assert(prev[i].1 <= prev[j].1);
            } else if i < prev.len() {
                assert(all[i] == prev[i]);
                assert(good_token(prev[i].0));
                assert(good_token(prev[i].0));
                assert(prev[i].1 <= lines.drop_last().len());
                assert(all[j] == added[j - prev.len()]);
                assert(added[j - prev.len()].1 == lines.len());
            } else {
                assert(all[i] == added[i - prev.len()]);
                assert(all[j] == added[j - prev.len()]);
                assert(added[i - prev.len()].1 == lines.len());
                assert(added[j - prev.len()].1 == lines.len());
            }
        }
    }
}

/// What every tokenizing gives: each token is non-empty and holds no `"`, each token has
/// the number of its line, which lies between 1 and the number of lines, and the line
/// numbers never go down from one token to the next.
pub proof fn law_tokens_are_well_made(src: Seq<char>, d: Dialect)
    ensures
        forall|i: int|
            0 <= i < spec_tokens(src, d).len() ==> good_token(#[trigger] spec_tokens(src, d)[i].0) && 1
                <= spec_tokens(src, d)[i].1 <= spec_lines(src).len(),
        forall|i: int, j: int|
            0 <= i <= j < spec_tokens(src, d).len() ==> #[trigger] spec_tokens(src, d)[i].1
                <= #[trigger] spec_tokens(src, d)[j].1,
{
    let ls = spec_lines(src);
    lemma_lex_lines_good(ls, d);
    let t = spec_tokens(src, d);
    assert(t == lex_lines(ls, d));
    assert forall|i: int| 0 <= i < t.len() implies good_token(#[trigger] t[i].0) && 1 <= t[i].1 <= ls.len() by {
        assert(good_token(lex_lines(ls, d)[i].0));
    }
    assert forall|i: int, j: int| 0 <= i <= j < t.len() implies #[trigger] t[i].1 <= #[trigger] t[j].1 by {
        assert(lex_lines(ls, d)[i].1 <= lex_lines(ls, d)[j].1);
    }
}

/// Whether a quote is open after the first `n` characters of `line`.
pub open spec fn quote_open(line: Seq<char>, n: nat) -> bool
    decreases n,
{
    if n == 0 || n > line.len() {
        false
    } else if line[n - 1] == '"' {
        !quote_open(line, (n - 1) as nat)
    } else {
        quote_open(line, (n - 1) as nat)
    }
}

/// The characters among the first `n` of `line` that its tokens keep: all but the
/// quotes and the spaces outside quotes.
pub open spec fn kept_chars(line: Seq<char>, n: nat) -> Seq<char>
    decreases n,
{
    if n == 0 || n > line.len() {
        Seq::empty()
    } else {
        let c = line[n - 1];
        if c == '"' || (c == ' ' && !quote_open(line, (n - 1) as nat)) {
            kept_chars(line, (n - 1) as nat)
        } else {
            kept_chars(line, (n - 1) as nat).push(c)
        }
    }
}

/// While a line is read, the tokens finished and the one being built hold, in order,
/// exactly the characters kept so far, and the quote state is that of the text read.
proof fn lemma_lex_acc_keeps(line: Seq<char>, n: nat, d: Dialect)
    ensures
        lex_acc(line, n, d).2 == quote_open(line, n),
        lex_acc(line, n, d).0.flatten() + lex_acc(line, n, d).1 == kept_chars(line, n),
    decreases n,
{
    if n == 0 || n > line.len() {
        assert(Seq::<Seq<char>>::empty().flatten() + Seq::<char>::empty() =~= Seq::<char>::empty());
    } else {
        lemma_lex_acc_keeps(line, (n - 1) as nat, d);
        let (toks, cur, q) = lex_acc(line, (n - 1) as nat, d);
        let c = line[n - 1];
        if c == '"' {
        } else if c == ' ' && !q {
            if cur.len() > 0 {
                toks.lemma_flatten_push(cur);
                assert(toks.push(cur).flatten() + Seq::<char>::empty() =~= toks.flatten() + cur);
            }
        } else if d == Dialect::V5 && !q && (c == '{' || c == '}') {
            let done = if cur.len() > 0 {
                toks.push(cur)
            } else {
                toks
            };
            if cur.len() > 0 {
                toks.lemma_flatten_push(cur);
            } else {
                assert(toks.flatten() + cur =~= toks.flatten());
            }
            done.lemma_flatten_push(seq![c]);
            assert(done.push(seq![c]).flatten() + Seq::<char>::empty() =~= (toks.flatten() + cur).push(c));
        } else {
            assert(toks.flatten() + cur.push(c) =~= (toks.flatten() + cur).push(c));
        }
    }
}

/// The tokens of a line, joined, are the line without its quotes and without its spaces
/// outside quotes.
pub proof fn law_line_tokens_keep_the_text(line: Seq<char>, d: Dialect)
    ensures
        lex_line(line, d).flatten() == kept_chars(line, line.len()),
{
    lemma_lex_acc_keeps(line, line.len(), d);
    let (toks, cur, _q) = lex_acc(line, line.len(), d);
    if cur.len() > 0 {
        toks.lemma_flatten_push(cur);
    } else {
        assert(toks.flatten() + cur =~= toks.flatten());
    }
}

/// The tokens that carry line number `k` are the tokens of the `k`-th line.
proof fn lemma_tokens_of_line(lines: Seq<Seq<char>>, d: Dialect, k: nat)
    ensures
        lex_lines(lines, d).filter(|p: (Seq<char>, nat)| p.1 == k) == if 1 <= k <= lines.len() {
            lex_line(lines[k - 1], d).map_values(|t: Seq<char>| (t, k))
        } else {
            Seq::<(Seq<char>, nat)>::empty()
        },
    decreases lines.len(),
{
    let pred = |p: (Seq<char>, nat)| p.1 == k;
    if lines.len() == 0 {
        assert(lex_lines(lines, d).filter(pred) =~= Seq::<(Seq<char>, nat)>::empty());
    } else {
        lemma_tokens_of_line(lines.drop_last(), d, k);
        lemma_lex_lines_good(lines.drop_last(), d);
        let prev = lex_lines(lines.drop_last(), d);
        let added = lex_line(lines.last(), d).map_values(|t: Seq<char>| (t, lines.len()));
        Seq::filter_distributes_over_add(prev, added, pred);
        if k == lines.len() {
            assert forall|i: int| 0 <= i < prev.len() implies !pred(#[trigger] prev[i]) by {
                assert(good_token(prev[i].0));
                assert(prev[i].1 <= lines.drop_last().len());
            }
            lemma_filter_none(prev, pred);
            lemma_filter_all(added, pred);
            assert(Seq::<(Seq<char>, nat)>::empty() + added =~= added);
            assert(lines[k - 1] == lines.last());
        } else {
            lemma_filter_none(added, pred);
            assert(prev.filter(pred) + Seq::<(Seq<char>, nat)>::empty() =~= prev.filter(pred));
            if 1 <= k <= lines.len() {
                assert(lines.drop_last()[k - 1] == lines[k - 1]);
            }
        }
    }
}

/// Filtering keeps everything when everything passes.
proof fn lemma_filter_all(s: Seq<(Seq<char>, nat)>, pred: spec_fn((Seq<char>, nat)) -> bool)
    requires
        forall|i: int| 0 <= i < s.len() ==> pred(#[trigger] s[i]),
    ensures
        s.filter(pred) == s,
    decreases s.len(),
{
    reveal(Seq::filter);
    if s.len() > 0 {
        assert forall|i: int| 0 <= i < s.drop_last().len() implies pred(#[trigger] s.drop_last()[i]) by {
            assert(s.drop_last()[i] == s[i]);
        }
        lemma_filter_all(s.drop_last(), pred);
        assert(pred(s[s.len() - 1]));
        assert(s.drop_last().push(s.last()) =~= s);
    }
}

/// Filtering keeps nothing when nothing passes.
proof fn lemma_filter_none(s: Seq<(Seq<char>, nat)>, pred: spec_fn((Seq<char>, nat)) -> bool)
    requires
        forall|i: int| 0 <= i < s.len() ==> !pred(#[trigger] s[i]),
    ensures
        s.filter(pred) == Seq::<(Seq<char>, nat)>::empty(),
    decreases s.len(),
{
    reveal(Seq::filter);
    if s.len() > 0 {
        assert forall|i: int| 0 <= i < s.drop_last().len() implies !pred(#[trigger] s.drop_last()[i]) by {
            assert(s.drop_last()[i] == s[i]);
        }
        lemma_filter_none(s.drop_last(), pred);
        assert(!pred(s[s.len() - 1]));
    } else {
        assert(s =~= Seq::<(Seq<char>, nat)>::empty());
    }
}

/// The tokens of source text that carry line number `k` (from 1 to the number of
/// lines), joined, are the `k`-th line without its quotes and without its spaces outside
/// quotes.
pub proof fn law_tokens_of_a_line_keep_its_text(src: Seq<char>, d: Dialect, k: nat)
    requires
        1 <= k <= spec_lines(src).len(),
    ensures
        spec_tokens(src, d).filter(|p: (Seq<char>, nat)| p.1 == k).map_values(|p: (Seq<char>, nat)| p.0).flatten()
            == kept_chars(spec_lines(src)[k - 1], spec_lines(src)[k - 1].len()),
{
    let ls = spec_lines(src);
    lemma_tokens_of_line(ls, d, k);
    law_line_tokens_keep_the_text(ls[k - 1], d);
    assert(lex_line(ls[k - 1], d).map_values(|t: Seq<char>| (t, k)).map_values(|p: (Seq<char>, nat)| p.0)
        =~= lex_line(ls[k - 1], d));
}

/// The tokens among `toks` whose line number in `lines` is `k`, in order.
pub open spec fn tokens_on_line(toks: Seq<Seq<char>>, lines: Seq<nat>, k: nat) -> Seq<Seq<char>>
    decreases toks.len(),
{
    if toks.len() == 0 {
        Seq::empty()
    } else {
        let rest = tokens_on_line(toks.drop_last(), lines.drop_last(), k);
        if lines.last() == k {
            rest.push(toks.last())
        } else {
            rest
        }
    }
}

/// Picking the tokens of line `k` from the texts and the numbers apart is picking them
/// from the pairs.
proof fn lemma_tokens_on_line(ps: Seq<(Seq<char>, nat)>, k: nat)
    ensures
        tokens_on_line(ps.map_values(|p: (Seq<char>, nat)| p.0), ps.map_values(|p: (Seq<char>, nat)| p.1), k)
            == ps.filter(|p: (Seq<char>, nat)| p.1 == k).map_values(|p: (Seq<char>, nat)| p.0),
    decreases ps.len(),
{
    reveal(Seq::filter);
    let pred = |p: (Seq<char>, nat)| p.1 == k;
    if ps.len() == 0 {
        assert(ps.filter(pred) =~= Seq::<(Seq<char>, nat)>::empty());
        assert(ps.map_values(|p: (Seq<char>, nat)| p.0) =~= Seq::<Seq<char>>::empty());
        assert(ps.filter(pred).map_values(|p: (Seq<char>, nat)| p.0) =~= Seq::<Seq<char>>::empty());
    } else {
        lemma_tokens_on_line(ps.drop_last(), k);
        assert(ps.map_values(|p: (Seq<char>, nat)| p.0).drop_last() =~= ps.drop_last().map_values(
            |p: (Seq<char>, nat)| p.0,
        ));
        assert(ps.map_values(|p: (Seq<char>, nat)| p.1).drop_last() =~= ps.drop_last().map_values(
            |p: (Seq<char>, nat)| p.1,
        ));
        let rest = ps.drop_last().filter(pred);
        if pred(ps.last()) {
            assert(rest.push(ps.last()).map_values(|p: (Seq<char>, nat)| p.0) =~= rest.map_values(
                |p: (Seq<char>, nat)| p.0,
            ).push(ps.last().0));
        }
    }
}

/// The shape of a tokenizing, over the token texts, their line numbers and the lines:
/// one number per token; each token non-empty and without `"`; numbers from 1 to the
/// number of lines, never going down; and the tokens of each line, joined, are that line
/// without its quotes and without its spaces outside quotes.
pub open spec fn well_tokenized(toks: Seq<Seq<char>>, line_map: Seq<nat>, source: Seq<Seq<char>>) -> bool {
    &&& toks.len() == line_map.len()
    &&& forall|i: int|
        0 <= i < toks.len() ==> good_token(#[trigger] toks[i]) && 1 <= line_map[i] <= source.len()
    &&& forall|i: int, j: int| 0 <= i <= j < line_map.len() ==> #[trigger] line_map[i] <= #[trigger] line_map[j]
    &&& forall|k: nat|
        1 <= k <= source.len() ==> (#[trigger] tokens_on_line(toks, line_map, k)).flatten() == kept_chars(
            source[k - 1],
            source[k - 1].len(),
        )
}

/// Every source text is well tokenized (see `well_tokenized`).
pub proof fn law_source_is_well_tokenized(src: Seq<char>, d: Dialect)
    ensures
        well_tokenized(
            spec_tokens(src, d).map_values(|p: (Seq<char>, nat)| p.0),
            spec_tokens(src, d).map_values(|p: (Seq<char>, nat)| p.1),
            spec_lines(src),
        ),
{
    let ps = spec_tokens(src, d);
    let toks = ps.map_values(|p: (Seq<char>, nat)| p.0);
    let nums = ps.map_values(|p: (Seq<char>, nat)| p.1);
    law_tokens_are_well_made(src, d);
    assert forall|i: int| 0 <= i < toks.len() implies good_token(#[trigger] toks[i]) && 1 <= nums[i] <= spec_lines(
        src,
    ).len() by {
        assert(good_token(ps[i].0));
    }
    assert forall|i: int, j: int| 0 <= i <= j < nums.len() implies #[trigger] nums[i] <= #[trigger] nums[j] by {
        assert(ps[i].1 <= ps[j].1);
    }
    assert forall|k: nat| 1 <= k <= spec_lines(src).len() implies (#[trigger] tokens_on_line(toks, nums, k)).flatten()
        == kept_chars(spec_lines(src)[k - 1], spec_lines(src)[k - 1].len()) by {
        lemma_tokens_on_line(ps, k);
        law_tokens_of_a_line_keep_its_text(src, d, k);
    }
}

} // verus!
