//! What holds of every script run: literals read back what values show, and how errors
//! travel up the running functions.
use vstd::prelude::*;
use crate::text::{digit, decimal, trim, trim_start, trim_end, is_ws};
use crate::runtime::value::{ValueV, int_decimal, shown};
use crate::runtime::context::ExecutionContext;
use crate::runtime::literal::{all_digits, digits_value, i64_text, is_digit, literal_spec};
use crate::runtime::interpreter::{
    FrameV, Interpreter, StatusV, catch_from, caught_message, panic_message, unwind, step_effect,
};
use crate::runtime::statement::OutputV;
use crate::runtime::scan::{CharClass, in_class, run_end, lit_at, word_char};
use crate::runtime::grammar::{var_spec, var_at, value_tail};

verus! {

broadcast use vstd::string::group_string_axioms;

/// A decimal numeral is made of digits and spells its number.
proof fn lemma_decimal_digits(n: nat)
    ensures
        decimal(n).len() > 0,
        all_digits(decimal(n)),
        digits_value(decimal(n)) == n,
    decreases n,
{
    lemma_digit(n % 10);
    if n >= 10 {
        lemma_decimal_digits(n / 10);
        let s = decimal(n / 10).push(digit(n % 10));
        assert(s.drop_last() =~= decimal(n / 10));
        assert(n == (n / 10) * 10 + n % 10) by (nonlinear_arith);
        assert(digits_value(s) == digits_value(decimal(n / 10)) * 10 + (digit(n % 10) as int - '0' as int));
        assert(decimal(n) == s);
        assert forall|i: int| 0 <= i < s.len() implies is_digit(#[trigger] s[i]) by {
            if i < s.len() - 1 {
                assert(s[i] == decimal(n / 10)[i]);
            }
        }
    } else {
        lemma_digit(n);
        let s = decimal(n);
        assert(s == seq![digit(n)]);
        assert(s.drop_last() =~= Seq::<char>::empty());
        assert(s.last() == digit(n));
        assert(digits_value(s) == digits_value(s.drop_last()) * 10 + (s.last() as int - '0' as int));
    }
}

/// The digit character of `d` spells `d`.
proof fn lemma_digit(d: nat)
    requires
        d < 10,
    ensures
        is_digit(digit(d)),
        digit(d) as int - '0' as int == d,
{
}

/// An integer shown as text is read back as the same integer: `int_decimal` and
/// `str::parse::<i64>` agree on every `i64`.
pub proof fn law_integer_reads_back(v: i64)
    ensures
        i64_text(int_decimal(v as int)) == Some(v),
{
    if v < 0 {
        let m = (-(v as int)) as nat;
        lemma_decimal_digits(m);
        let s = "-"@ + decimal(m);
        reveal_strlit("-");
        assert(s[0] == '-');
        assert(s.drop_first() =~= decimal(m));
    } else {
        let m = v as nat;
        lemma_decimal_digits(m);
        lemma_digit(m % 10);
        let s = decimal(m);
        assert(is_digit(s[0]));
    }
}

/// A value that is an integer is shown the way `int_decimal` writes it, so its text reads
/// back as the same integer.
pub proof fn law_shown_integer_reads_back(v: i64)
    ensures
        i64_text(shown(ValueV::Int(v))) == Some(v),
{
    law_integer_reads_back(v);
}

/// Text between double quotes reads back as exactly that text, whatever the scope holds.
pub proof fn law_quoted_text_reads_back(ctx: &ExecutionContext, s: Seq<char>)
    ensures
        literal_spec(ctx, seq!['"'] + s + seq!['"']) == Ok::<ValueV, crate::runtime::value::FailureV>(ValueV::Str(s)),
{
    let t = seq!['"'] + s + seq!['"'];
    assert(t[0] == '"');
    assert(t.last() == '"');
    assert(!is_ws('"'));
    assert(trim_start(t) == t);
    assert(trim_end(t) == t);
    assert(trim(t) == t);
    reveal_strlit("true");
    reveal_strlit("false");
    reveal_strlit("null");
    assert(t != "true"@);
    assert(t != "false"@);
    assert(t != "null"@);
    assert(t.subrange(1, t.len() - 1) =~= s);
}

/// An error raised where a `Catch` line lies ahead in the innermost running function is
/// caught there: the function goes on after the first such line, the error is logged as
/// caught, and nothing fails.
pub proof fn law_error_is_caught(fs: Seq<FrameV>, msg: Seq<char>, j: int)
    requires
        fs.len() > 0,
        catch_from(fs.last().lines, fs.last().next) == Some(j),
    ensures
        unwind(fs, msg).0 == fs.update(
            fs.len() - 1,
            FrameV { name: fs.last().name, lines: fs.last().lines, next: j + 1 },
        ),
        unwind(fs, msg).1 == Some(caught_message(fs.last().name, msg)),
        unwind(fs, msg).2 is None,
{
}

/// An error that no running function catches fails the whole run; when only `Main` runs,
/// the failure names `Main` and the line that raised the error.
pub proof fn law_uncaught_error_fails(f: FrameV, msg: Seq<char>)
    requires
        catch_from(f.lines, f.next) is None,
    ensures
        unwind(seq![f], msg) == (Seq::<FrameV>::empty(), Option::<Seq<char>>::None, Some(panic_message(f.name, f.next, msg))),
{
    assert(seq![f].last() == f);
}

/// An error that a function does not catch is passed to its caller as an error raised at
/// the line of the call, with where it left the function in front of its message.
pub proof fn law_error_passes_to_caller(fs: Seq<FrameV>, msg: Seq<char>)
    requires
        fs.len() > 1,
        catch_from(fs.last().lines, fs.last().next) is None,
    ensures
        unwind(fs, msg) == unwind(fs.drop_last(), panic_message(fs.last().name, fs.last().next, msg)),
{
}

/// Once `Main` has returned, every further step logs nothing, changes nothing and says
/// that the run has finished.
pub proof fn law_finished_stays_finished(pre: &Interpreter, post: &Interpreter, out: Option<OutputV>, status: StatusV)
    requires
        pre.frames_view().len() == 0,
        step_effect(pre, post, out, status),
    ensures
        *post == *pre,
        out is None,
        status == StatusV::Finished,
{
}

/// After a class template whose variable names are all allowed was applied, each of its
/// variables reads back the template's value from the function on top of the call stack.
pub proof fn law_template_defines_its_variables(
    pre: &ExecutionContext,
    post: &ExecutionContext,
    name: Seq<char>,
    r: Result<(), Seq<char>>,
    k: Seq<char>,
    scope: Seq<char>,
)
    requires
        pre.wf(),
        ExecutionContext::applies_template(pre, post, name, r),
        pre.classes@.dom().contains(name),
        pre.first_refused(pre.template(name).variables, 0) == pre.template(name).variables.size(),
        pre.template(name).variables@.dom().contains(k),
        post.in_scope(scope),
    ensures
        r is Ok,
        post.lookup(k, scope) == Ok::<ValueV, Seq<char>>(pre.template(name).variables@[k]),
{
    let i = pre.classes.lemma_key(name);
    let t = pre.template(name);
    assert(t.wf());
    let j = t.variables.lemma_key(k);
    assert(0 <= j < t.variables.size() && t.variables.key_at(j) == k);
}

/// A run of class `k` from `i` ends at `j` when every character before `j` is of that
/// class and the one at `j` (if any) is not.
proof fn lemma_run_end_at(s: Seq<char>, i: int, j: int, k: CharClass)
    requires
        0 <= i <= j <= s.len(),
        forall|x: int| i <= x < j ==> in_class(k, #[trigger] s[x]),
        j == s.len() || !in_class(k, s[j]),
    ensures
        run_end(s, i, k) == j,
    decreases j - i,
{
    if i < j {
        lemma_run_end_at(s, i + 1, j, k);
    }
}

/// The value of a variable definition `Data.Var <type> <name> = <value>` is the whole
/// rest of the line: for a type word and a name made of word characters (which are not
/// whitespace, and a space is not one), and a value that is not empty, does not start
/// with whitespace and holds no line break, the definition's name is `<name>` and its
/// value is exactly `<value>`.
pub proof fn law_var_value_is_the_rest_of_the_line(w: Seq<char>, n: Seq<char>, v: Seq<char>)
    requires
        w.len() > 0,
        n.len() > 0,
        v.len() > 0,
        forall|i: int| 0 <= i < w.len() ==> word_char(#[trigger] w[i]) && !is_ws(w[i]),
        forall|i: int| 0 <= i < n.len() ==> word_char(#[trigger] n[i]) && !is_ws(n[i]),
        !word_char(' '),
        !is_ws(v[0]),
        forall|i: int| 0 <= i < v.len() ==> #[trigger] v[i] != '\n',
    ensures
        ({
            let s = "Data.Var "@ + w + " "@ + n + " = "@ + v;
            let name_at: int = 10 + w.len() as int;
            let value_at: int = name_at + n.len() + 3;
            &&& var_spec(s) == Some(((name_at, name_at + n.len()), (value_at, s.len() as int)))
            &&& s.subrange(name_at, name_at + n.len()) == n
            &&& s.subrange(value_at, s.len() as int) == v
        }),
{
    reveal_strlit("Data.Var ");
    reveal_strlit("Data.Var");
    reveal_strlit(" ");
    reveal_strlit(" = ");
    let s = "Data.Var "@ + w + " "@ + n + " = "@ + v;
    let p = 9int;
    let c = p + w.len();
    let d = c + 1;
    let e = d + n.len();
    let g = e + 3;
    assert(s.len() == g + v.len());
    assert(forall|i: int| 0 <= i < w.len() ==> s[p + i] == w[i]);
    assert(forall|i: int| 0 <= i < n.len() ==> s[d + i] == n[i]);
    assert(forall|i: int| 0 <= i < v.len() ==> s[g + i] == v[i]);
    assert(s[8] == ' ' && s[c] == ' ' && s[e] == ' ' && s[e + 1] == '=' && s[e + 2] == ' ');
    assert(is_ws(' '));
    assert(!is_ws('='));
    assert(s.subrange(0, 8) =~= "Data.Var"@);
    assert(lit_at(s, 0, "Data.Var"@));
    lemma_run_end_at(s, 8, p, CharClass::Space);
    assert forall|x: int| p <= x < c implies in_class(CharClass::Word, #[trigger] s[x]) by {
        assert(s[p + (x - p)] == w[x - p]);
    }
    lemma_run_end_at(s, p, c, CharClass::Word);
    lemma_run_end_at(s, c, d, CharClass::Space);
    assert forall|x: int| d <= x < e implies in_class(CharClass::Word, #[trigger] s[x]) by {
        assert(s[d + (x - d)] == n[x - d]);
    }
    lemma_run_end_at(s, d, e, CharClass::Word);
    lemma_run_end_at(s, e, e + 1, CharClass::Space);
    lemma_run_end_at(s, e + 2, g, CharClass::Space);
    assert(s[g] == v[0]);
    assert forall|x: int| g <= x < s.len() implies in_class(CharClass::NotNewline, #[trigger] s[x]) by {
        assert(s[g + (x - g)] == v[x - g]);
    }
    lemma_run_end_at(s, g, s.len() as int, CharClass::NotNewline);
    assert(value_tail(s, e) == Some((g, s.len() as int)));
    assert(var_at(s, 0) == Some(((d, e), (g, s.len() as int))));
    assert(s.subrange(d, e) =~= n);
    assert(s.subrange(g, s.len() as int) =~= v);
}

} // verus!
