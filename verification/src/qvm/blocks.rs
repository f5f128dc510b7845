//! Function bodies in source text: a body written between `fnc <name> {` and `}` reads
//! exactly as the same text does at top level.
use vstd::prelude::*;
use crate::text::{lines_acc, spec_lines, strip_cr};
use crate::qvm::lexer::{lex_acc, lex_line, lex_lines, spec_tokens};
use crate::qvm::parser::{source_parse, SyntaxErrorV};
use crate::qvm::syntax::{Dialect, InstrV, ProgramV};
use crate::qvm::laws::{plain_tokens, wrapped, law_block_parses_like_top_level};

verus! {

/// The token texts of the source text `src`.
pub open spec fn token_texts(src: Seq<char>, d: Dialect) -> Seq<Seq<char>> {
    spec_tokens(src, d).map_values(|p: (Seq<char>, nat)| p.0)
}

/// A name that reads as one token on a line of its own making: not empty, and without
/// a space, a quote, a brace or a line break.
pub open spec fn plain_word(f: Seq<char>) -> bool {
    f.len() > 0 && forall|k: int|
        0 <= k < f.len() ==> f[k] != ' ' && f[k] != '"' && f[k] != '{' && f[k] != '}' && f[k] != '\n'
}

/// The source text of the function `f` whose body is `s`: `fnc <f> {`, the lines of
/// `s`, and `}`.
pub open spec fn block_source(f: Seq<char>, s: Seq<char>) -> Seq<char> {
    "fnc "@ + f + " {\n"@ + s + "\n}"@
}

/// The first line of `block_source(f, s)`.
spec fn header(f: Seq<char>) -> Seq<char> {
    "fnc "@ + f + " {"@
}

/// The tokens of a sequence of lines, without their line numbers.
spec fn line_tokens(lines: Seq<Seq<char>>, d: Dialect) -> Seq<Seq<char>>
    decreases lines.len(),
{
    if lines.len() == 0 {
        Seq::empty()
    } else {
        line_tokens(lines.drop_last(), d) + lex_line(lines.last(), d)
    }
}

/// Lines read within a prefix do not depend on what follows it.
proof fn lemma_lines_prefix(a: Seq<char>, b: Seq<char>, n: nat)
    requires
        n <= a.len(),
    ensures
        lines_acc(a + b, n) == lines_acc(a, n),
    decreases n,
{
    if n > 0 {
        lemma_lines_prefix(a, b, (n - 1) as nat);
        assert((a + b)[n - 1] == a[n - 1]);
    }
}

/// After a line break, lines are read afresh.
proof fn lemma_lines_after(a: Seq<char>, b: Seq<char>, k: nat)
    requires
        a.len() > 0,
        a.last() == '\n',
        k <= b.len(),
    ensures
        lines_acc(a + b, a.len() + k) == (lines_acc(a, a.len()).0 + lines_acc(b, k).0, lines_acc(b, k).1),
    decreases k,
{
    if k == 0 {
        lemma_lines_prefix(a, b, a.len());
        assert(lines_acc(a, a.len()).1 == Seq::<char>::empty());
        assert(lines_acc(a, a.len()).0 + Seq::<Seq<char>>::empty() =~= lines_acc(a, a.len()).0);
    } else {
        lemma_lines_after(a, b, (k - 1) as nat);
        assert((a + b)[a.len() + k - 1] == b[k - 1]);
        let x = lines_acc(a, a.len()).0;
        let (d0, c0) = lines_acc(b, (k - 1) as nat);
        assert(x + d0.push(strip_cr(c0)) =~= (x + d0).push(strip_cr(c0)));
    }
}

/// Without a line break, the text read so far is all one open line.
proof fn lemma_lines_unbroken(s: Seq<char>, n: nat)
    requires
        n <= s.len(),
        forall|i: int| 0 <= i < n ==> s[i] != '\n',
    ensures
        lines_acc(s, n) == (Seq::<Seq<char>>::empty(), s.take(n as int)),
    decreases n,
{
    if n > 0 {
        lemma_lines_unbroken(s, (n - 1) as nat);
        assert(s.take(n - 1).push(s[n - 1]) =~= s.take(n as int));
    }
}

/// The token texts of lines are the tokens of each line in turn.
proof fn lemma_token_texts(lines: Seq<Seq<char>>, d: Dialect)
    ensures
        lex_lines(lines, d).map_values(|p: (Seq<char>, nat)| p.0) == line_tokens(lines, d),
    decreases lines.len(),
{
    if lines.len() > 0 {
        lemma_token_texts(lines.drop_last(), d);
        let prev = lex_lines(lines.drop_last(), d);
        let added = lex_line(lines.last(), d).map_values(|t: Seq<char>| (t, lines.len()));
        assert((prev + added).map_values(|p: (Seq<char>, nat)| p.0) =~= prev.map_values(
            |p: (Seq<char>, nat)| p.0,
        ) + added.map_values(|p: (Seq<char>, nat)| p.0));
        assert(added.map_values(|p: (Seq<char>, nat)| p.0) =~= lex_line(lines.last(), d));
    }
}

/// The tokens of two runs of lines are the tokens of the first, then of the second.
proof fn lemma_line_tokens_concat(l1: Seq<Seq<char>>, l2: Seq<Seq<char>>, d: Dialect)
    ensures
        line_tokens(l1 + l2, d) == line_tokens(l1, d) + line_tokens(l2, d),
    decreases l2.len(),
{
    if l2.len() == 0 {
        assert(l1 + l2 =~= l1);
        assert(line_tokens(l1, d) + Seq::<Seq<char>>::empty() =~= line_tokens(l1, d));
    } else {
        lemma_line_tokens_concat(l1, l2.drop_last(), d);
        assert((l1 + l2).drop_last() =~= l1 + l2.drop_last());
        assert((l1 + l2).last() == l2.last());
        assert(line_tokens(l1, d) + line_tokens(l2.drop_last(), d) + lex_line(l2.last(), d) =~= line_tokens(l1, d)
            + (line_tokens(l2.drop_last(), d) + lex_line(l2.last(), d)));
    }
}

/// While the name is read, it is the token being built.
proof fn lemma_header_word(f: Seq<char>, d: Dialect, k: nat)
    requires
        plain_word(f),
        k <= f.len(),
    ensures
        lex_acc(header(f), 4 + k, d) == (seq![seq!['f', 'n', 'c']], f.take(k as int), false),
    decreases k,
{
    reveal_strlit("fnc ");
    reveal_strlit(" {");
    let h = header(f);
    assert(h.len() == f.len() + 6);
    if k == 0 {
        assert(h[0] == 'f' && h[1] == 'n' && h[2] == 'c' && h[3] == ' ');
        assert(lex_acc(h, 0, d) == (Seq::<Seq<char>>::empty(), Seq::<char>::empty(), false));
        assert(lex_acc(h, 1, d).0 =~= Seq::<Seq<char>>::empty());
        assert(lex_acc(h, 1, d).1 =~= seq!['f']);
        assert(lex_acc(h, 2, d).1 =~= seq!['f', 'n']);
        assert(lex_acc(h, 3, d).1 =~= seq!['f', 'n', 'c']);
        assert(lex_acc(h, 3, d).0 =~= Seq::<Seq<char>>::empty());
        assert(lex_acc(h, 4, d).0 =~= seq![seq!['f', 'n', 'c']]);
        assert(f.take(0) =~= Seq::<char>::empty());
    } else {
        lemma_header_word(f, d, (k - 1) as nat);
        assert(h[4 + k - 1] == f[k - 1]);
        assert(f.take(k - 1).push(f[k - 1]) =~= f.take(k as int));
    }
}

/// The first line of a function's source reads as `fnc`, its name, and `{`.
proof fn lemma_header_tokens(f: Seq<char>, d: Dialect)
    requires
        plain_word(f),
    ensures
        lex_line(header(f), d) == seq!["fnc"@, f, "{"@],
{
    reveal_strlit("fnc ");
    reveal_strlit(" {");
    reveal_strlit("fnc");
    reveal_strlit("{");
    let h = header(f);
    let n = f.len();
    assert(h.len() == n + 6);
    lemma_header_word(f, d, n);
    assert(f.take(n as int) =~= f);
    assert(h[4 + n as int] == ' ');
    assert(h[5 + n as int] == '{');
    assert(lex_acc(h, 5 + n, d).0 =~= seq![seq!['f', 'n', 'c'], f]);
    assert(lex_acc(h, 5 + n, d).1 =~= Seq::<char>::empty());
    assert("fnc"@ =~= seq!['f', 'n', 'c']);
    assert("{"@ =~= seq!['{']);
    assert(lex_line(h, d) =~= seq!["fnc"@, f, "{"@]);
}

/// A line holding only `}` reads as that one token, and an empty line as none.
proof fn lemma_close_and_empty_tokens(d: Dialect)
    ensures
        lex_line("}"@, d) == seq!["}"@],
        lex_line(Seq::<char>::empty(), d) == Seq::<Seq<char>>::empty(),
{
    reveal_strlit("}");
    assert("}"@ =~= seq!['}']);
    assert(lex_acc("}"@, 0, d) == (Seq::<Seq<char>>::empty(), Seq::<char>::empty(), false));
    assert(lex_acc(Seq::<char>::empty(), 0, d) == (Seq::<Seq<char>>::empty(), Seq::<char>::empty(), false));
    if d == Dialect::V5 {
        assert(lex_acc("}"@, 1, d).0 =~= seq![seq!['}']]);
    } else {
        assert(lex_acc("}"@, 1, d).1 =~= seq!['}']);
    }
    assert(lex_line("}"@, d) =~= seq!["}"@]);
}

/// The lines of a function's source: its first line, the lines of the body (the last
/// one kept even when empty), and `}`.
proof fn lemma_block_lines(f: Seq<char>, s: Seq<char>)
    requires
        plain_word(f),
        !(s.len() > 0 && s.last() == '\r'),
    ensures
        spec_lines(block_source(f, s)) == seq![header(f)] + lines_acc(s, s.len()).0.push(lines_acc(s, s.len()).1).push(
            "}"@,
        ),
        spec_lines(s) == if lines_acc(s, s.len()).1.len() > 0 {
            lines_acc(s, s.len()).0.push(lines_acc(s, s.len()).1)
        } else {
            lines_acc(s, s.len()).0
        },
{
    reveal_strlit("fnc ");
    reveal_strlit(" {");
    reveal_strlit(" {\n");
    reveal_strlit("\n}");
    reveal_strlit("}");
    let h = header(f);
    let p = h.push('\n');
    let q = "\n}"@;
    let r = s + q;
    assert(block_source(f, s) =~= p + r);
    // The first line.
    assert forall|i: int| 0 <= i < h.len() implies h[i] != '\n' by {
        if 4 <= i < 4 + f.len() {
            assert(h[i] == f[i - 4]);
        }
    }
    lemma_lines_unbroken(p, h.len());
    assert(p.take(h.len() as int) =~= h);
    assert(h.last() == '{');
    assert(strip_cr(h) == h);
    assert(lines_acc(p, p.len()).0 =~= seq![h]);
    // The body and the closing line.
    let (dd, cc) = lines_acc(s, s.len());
    lemma_lines_prefix(s, q, s.len());
    if cc.len() > 0 {
        assert(s[s.len() - 1] != '\n');
        assert(cc.last() == s.last());
    }
    assert(strip_cr(cc) == cc);
    assert(r[s.len() as int] == '\n');
    assert(r[s.len() + 1int] == '}');
    assert(lines_acc(r, s.len() + 1).0 == dd.push(cc));
    assert(lines_acc(r, s.len() + 1).1 =~= Seq::<char>::empty());
    assert(lines_acc(r, r.len()).1 =~= seq!['}']);
    assert("}"@ =~= seq!['}']);
    lemma_lines_after(p, r, r.len());
    assert(spec_lines(block_source(f, s)) =~= seq![h] + dd.push(cc).push("}"@));
}

/// The tokens of a function's source are `fnc`, its name, `{`, the tokens of the body
/// and `}`.
proof fn lemma_block_tokens(f: Seq<char>, s: Seq<char>, d: Dialect)
    requires
        plain_word(f),
        !(s.len() > 0 && s.last() == '\r'),
    ensures
        token_texts(block_source(f, s), d) == wrapped(f, token_texts(s, d)),
{
    lemma_block_lines(f, s);
    lemma_header_tokens(f, d);
    lemma_close_and_empty_tokens(d);
    let (dd, cc) = lines_acc(s, s.len());
    let body = dd.push(cc).push("}"@);
    lemma_token_texts(spec_lines(block_source(f, s)), d);
    lemma_token_texts(spec_lines(s), d);
    lemma_line_tokens_concat(seq![header(f)], body, d);
    assert(seq![header(f)].drop_last() =~= Seq::<Seq<char>>::empty());
    assert(line_tokens(Seq::<Seq<char>>::empty(), d) == Seq::<Seq<char>>::empty());
    assert(line_tokens(seq![header(f)], d) =~= lex_line(header(f), d));
    assert(body.drop_last() =~= dd.push(cc));
    assert(dd.push(cc).drop_last() =~= dd);
    assert(line_tokens(dd.push(cc), d) == line_tokens(dd, d) + lex_line(cc, d));
    assert(line_tokens(body, d) =~= line_tokens(dd, d) + lex_line(cc, d) + seq!["}"@]);
    if cc.len() > 0 {
        assert(line_tokens(spec_lines(s), d) =~= line_tokens(dd, d) + lex_line(cc, d));
    } else {
        assert(cc =~= Seq::<char>::empty());
        assert(line_tokens(dd, d) + lex_line(cc, d) =~= line_tokens(dd, d));
    }
    assert(token_texts(block_source(f, s), d) =~= wrapped(f, token_texts(s, d)));
}

/// A function body in source text parses exactly like the same text at top level: when
/// the text `s` parses into a program and none of its tokens opens or closes a body,
/// the source `fnc <f> {`, `s`, `}` parses into no top-level instruction and the one
/// function `f`, whose body is that program's instructions. (A body whose last line
/// ends in a carriage return without a line break is left out: there the closing line
/// break takes the carriage return away.)
pub proof fn law_block_source_parses_like_top_level(f: Seq<char>, s: Seq<char>, d: Dialect, prog: ProgramV)
    requires
        plain_word(f),
        !(s.len() > 0 && s.last() == '\r'),
        plain_tokens(token_texts(s, d)),
        source_parse(s, d) == Ok::<ProgramV, SyntaxErrorV>(prog),
    ensures
        source_parse(block_source(f, s), d) == Ok::<ProgramV, SyntaxErrorV>(
            ProgramV { instructions: Seq::empty(), functions: Map::empty().insert(f, prog.instructions) },
        ),
{
    lemma_block_tokens(f, s, d);
    law_block_parses_like_top_level(f, token_texts(s, d), d, prog);
}

} // verus!
