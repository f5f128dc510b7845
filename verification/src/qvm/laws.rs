//! What holds of every QVM run: stacks, references in output text, and the order of texts.
use vstd::prelude::*;
use crate::qvm::syntax::{ArithmeticOp, ComparisonOp, InstrV, Dialect, ProgramV, spec_comparison_op, spec_arithmetic_op};
use crate::qvm::parser::{self, StepV, drive};
use crate::qvm::interpolate::{first_index, lemma_first_index, text_lt, condition_holds, has_pattern, replace_all};
use crate::qvm::vm::{
    VmV, ModeV, RequestV, EffectV, FrameV, exec_spec, step_spec, top_of, interp_step, jump_operand, resume_compare_spec,
    resume_arith_spec,
};
use crate::runtime::literal::is_float_text;

verus! {

/// Pushing plain text on a stack that exists puts that text on top, without a warning.
pub proof fn law_push_then_top(vm: VmV, s: Seq<char>, v: Seq<char>)
    requires
        vm.stacks.dom().contains(s),
    ensures
        top_of(exec_spec(vm, InstrV::Push(s, (v, false))).0.stacks, s) == Some(v),
        exec_spec(vm, InstrV::Push(s, (v, false))).1 == Seq::<EffectV>::empty(),
{
}

/// Popping a stack undoes a push on it: the stacks are as they were before the push.
pub proof fn law_pop_undoes_push(vm: VmV, s: Seq<char>, v: Seq<char>)
    requires
        vm.stacks.dom().contains(s),
    ensures
        exec_spec(exec_spec(vm, InstrV::Push(s, (v, false))).0, InstrV::Pop(s)).0.stacks == vm.stacks,
{
    let pushed = exec_spec(vm, InstrV::Push(s, (v, false))).0;
    assert(pushed.stacks[s].drop_last() =~= vm.stacks[s]);
    assert(exec_spec(pushed, InstrV::Pop(s)).0.stacks =~= vm.stacks);
}

/// Creating a stack that exists keeps what it holds.
pub proof fn law_create_keeps_stack(vm: VmV, n: Seq<char>)
    requires
        vm.stacks.dom().contains(n),
    ensures
        exec_spec(vm, InstrV::CreateStack(n)).0.stacks == vm.stacks,
{
}

/// Output text without `@` holds no reference: resolving it ends at once.
pub proof fn law_plain_text_is_resolved(d: Dialect, st: Map<Seq<char>, Seq<Seq<char>>>, text: Seq<char>)
    requires
        forall|i: int| 0 <= i < text.len() ==> text[i] != '@',
    ensures
        interp_step(d, st, text) is None,
{
    lemma_first_index(text, '@');
}

/// In the original dialect, text without a variable pattern (see `has_pattern`) is left
/// as it is, whatever the stacks hold: resolving it ends at once, and the machine writes
/// the text unchanged (followed by a space).
pub proof fn law_text_without_pattern_is_unchanged(vm: VmV, text: Seq<char>)
    requires
        vm.dialect == Dialect::V4,
        !has_pattern(text),
    ensures
        interp_step(Dialect::V4, vm.stacks, text) is None,
        step_spec(VmV { mode: ModeV::Interpolating(text), ..vm }) == (
            VmV { mode: ModeV::Ready, ..vm },
            seq![EffectV::Stdout(text + " "@)],
            RequestV::Continue,
        ),
{
}

/// A jump condition does not depend on which side is written first: `>` is `<` turned
/// round, `>=` is `<=` turned round, and `==` and `!=` are symmetric. For texts that are
/// not both numbers (`numeric` is `None`) the order of the texts decides; for numbers the
/// caller's outcome decides, and the condition turned round holds exactly when the
/// caller gives the same outcome for the turned comparison.
pub proof fn law_text_comparison_is_symmetric(l: Seq<char>, r: Seq<char>, numeric: Option<bool>)
    ensures
        condition_holds(l, r, ComparisonOp::GreaterThan, numeric) == condition_holds(r, l, ComparisonOp::LessThan, numeric),
        condition_holds(l, r, ComparisonOp::GreaterEqual, numeric) == condition_holds(r, l, ComparisonOp::LessEqual, numeric),
        condition_holds(l, r, ComparisonOp::Equal, numeric) == condition_holds(r, l, ComparisonOp::Equal, numeric),
        condition_holds(l, r, ComparisonOp::NotEqual, numeric) == condition_holds(r, l, ComparisonOp::NotEqual, numeric),
{
}

/// While the machine waits for the outcome of a comparison or of arithmetic, a step
/// changes nothing and asks for it again.
pub proof fn law_waiting_is_stable(vm: VmV)
    requires
        vm.mode is AwaitCompare || vm.mode is AwaitArith,
    ensures
        step_spec(vm).0 == vm,
        step_spec(vm).1 == Seq::<EffectV>::empty(),
        step_spec(vm).2 !is Continue && step_spec(vm).2 !is Finished,
{
}

/// Once the machine has no body left to run, it has finished, and stays so.
pub proof fn law_finished_is_stable(vm: VmV)
    requires
        vm.mode == ModeV::Ready,
        vm.frames.len() == 0,
    ensures
        step_spec(vm) == (vm, Seq::<EffectV>::empty(), RequestV::Finished),
{
}

/// No text comes before itself.
pub proof fn law_text_order_irreflexive(a: Seq<char>)
    ensures
        !text_lt(a, a),
    decreases a.len(),
{
    if a.len() > 0 {
        law_text_order_irreflexive(a.drop_first());
    }
}

/// Of two texts, exactly one comes first, or they are equal.
pub proof fn law_text_order_total(a: Seq<char>, b: Seq<char>)
    ensures
        text_lt(a, b) || a == b || text_lt(b, a),
        !(text_lt(a, b) && text_lt(b, a)),
    decreases a.len(),
{
    if a.len() > 0 && b.len() > 0 && a[0] == b[0] {
        law_text_order_total(a.drop_first(), b.drop_first());
        if a.drop_first() == b.drop_first() {
            assert forall|i: int| 0 <= i < a.len() implies a[i] == b[i] by {
                if i > 0 {
                    assert(a[i] == a.drop_first()[i - 1]);
                    assert(b[i] == b.drop_first()[i - 1]);
                }
            }
            assert(a =~= b);
        }
    } else if a.len() == 0 && b.len() == 0 {
        assert(a =~= b);
    } else if a.len() > 0 && b.len() > 0 {
        assert(a[0] as int != b[0] as int);
    }
}

/// Texts that are not both numbers are equal for a jump exactly when they are the same.
pub proof fn law_text_equality(a: Seq<char>, b: Seq<char>)
    ensures
        condition_holds(a, b, ComparisonOp::Equal, None) <==> a == b,
        condition_holds(a, b, ComparisonOp::NotEqual, None) <==> a != b,
{
}

/// A jump between values that are not both numbers is decided by the machine itself: it
/// asks the caller nothing and is ready for the next step.
pub proof fn law_text_jump_needs_no_answer(
    vm: VmV,
    left: (Seq<char>, bool),
    right: (Seq<char>, bool),
    op: ComparisonOp,
    target: Seq<char>,
)
    requires
        jump_operand(vm.dialect, vm.stacks, left) matches Some(a) && jump_operand(vm.dialect, vm.stacks, right) matches Some(
            b,
        ) && !(is_float_text(a) && is_float_text(b)),
    ensures
        exec_spec(vm, InstrV::ConditionalJump { left_stack: left, right_stack: right, op, target_func: target }).2
            == RequestV::Continue,
        exec_spec(vm, InstrV::ConditionalJump { left_stack: left, right_stack: right, op, target_func: target }).0.mode
            == ModeV::Ready,
{
}

/// The number of `@` in `s`.
pub open spec fn ats(s: Seq<char>) -> nat
    decreases s.len(),
{
    if s.len() == 0 {
        0
    } else {
        ats(s.drop_first()) + if s[0] == '@' {
            1nat
        } else {
            0nat
        }
    }
}

/// Counting `@` adds up over joined texts.
proof fn lemma_ats_add(a: Seq<char>, b: Seq<char>)
    ensures
        ats(a + b) == ats(a) + ats(b),
    decreases a.len(),
{
    if a.len() > 0 {
        lemma_ats_add(a.drop_first(), b);
        assert((a + b).drop_first() =~= a.drop_first() + b);
    } else {
        assert(a + b =~= b);
    }
}

/// A text whose characters are not `@` has none.
proof fn lemma_ats_none(s: Seq<char>)
    requires
        forall|i: int| 0 <= i < s.len() ==> s[i] != '@',
    ensures
        ats(s) == 0,
    decreases s.len(),
{
    if s.len() > 0 {
        lemma_ats_none(s.drop_first());
    }
}

/// A single character counts one `@` when it is one.
proof fn lemma_ats_one(c: char)
    ensures
        ats(seq![c]) == if c == '@' { 1nat } else { 0nat },
{
    assert(seq![c].drop_first() =~= Seq::<char>::empty());
    assert(ats(Seq::<char>::empty()) == 0);
}

/// Replacing a pattern with two `@` by text without `@` leaves no more `@` than before.
proof fn lemma_replace_ats(s: Seq<char>, pat: Seq<char>, rep: Seq<char>)
    requires
        pat.len() > 0,
        ats(pat) == 2,
        ats(rep) == 0,
    ensures
        ats(replace_all(s, pat, rep)) <= ats(s),
    decreases s.len(),
{
    if s.len() >= pat.len() {
        if s.subrange(0, pat.len() as int) == pat {
            let tail = s.skip(pat.len() as int);
            lemma_replace_ats(tail, pat, rep);
            assert(replace_all(s, pat, rep) == rep + replace_all(tail, pat, rep));
            lemma_ats_add(rep, replace_all(tail, pat, rep));
            assert(s =~= s.subrange(0, pat.len() as int) + tail);
            lemma_ats_add(s.subrange(0, pat.len() as int), tail);
        } else {
            let tail = s.drop_first();
            lemma_replace_ats(tail, pat, rep);
            assert(replace_all(s, pat, rep) == seq![s[0]] + replace_all(tail, pat, rep));
            lemma_ats_add(seq![s[0]], replace_all(tail, pat, rep));
            lemma_ats_one(s[0]);
        }
    }
}

/// When the pattern stands at `k` and no `@` comes before it, replacing it removes at least
/// its two `@`.
proof fn lemma_replace_ats_at(s: Seq<char>, pat: Seq<char>, rep: Seq<char>, k: int)
    requires
        pat.len() > 0,
        pat[0] == '@',
        ats(pat) == 2,
        ats(rep) == 0,
        0 <= k,
        k + pat.len() <= s.len(),
        s.subrange(k, k + pat.len()) == pat,
        forall|i: int| 0 <= i < k ==> s[i] != '@',
    ensures
        ats(replace_all(s, pat, rep)) + 2 <= ats(s),
    decreases k,
{
    if k == 0 {
        let tail = s.skip(pat.len() as int);
        lemma_replace_ats(tail, pat, rep);
        assert(replace_all(s, pat, rep) == rep + replace_all(tail, pat, rep));
        lemma_ats_add(rep, replace_all(tail, pat, rep));
        assert(s =~= s.subrange(0, pat.len() as int) + tail);
        lemma_ats_add(s.subrange(0, pat.len() as int), tail);
    } else {
        assert(s.subrange(0, pat.len() as int)[0] == s[0]);
        assert(s.subrange(0, pat.len() as int) != pat);
        let t = s.drop_first();
        assert(t.subrange(k - 1, k - 1 + pat.len()) =~= s.subrange(k, k + pat.len()));
        lemma_replace_ats_at(t, pat, rep, k - 1);
        assert(replace_all(s, pat, rep) == seq![s[0]] + replace_all(t, pat, rep));
        lemma_ats_add(seq![s[0]], replace_all(t, pat, rep));
        lemma_ats_one(s[0]);
    }
}

/// In the newer dialect, when no stack's top holds `@`, every round of resolving output
/// text takes away at least two `@`, and the rounds end exactly when at most one `@` is
/// left: resolving always ends, with at most one `@` in the text.
pub proof fn law_v5_resolution_ends(st: Map<Seq<char>, Seq<Seq<char>>>, text: Seq<char>)
    requires
        forall|n: Seq<char>| #[trigger] st.dom().contains(n) && st[n].len() > 0 ==> ats(st[n].last()) == 0,
    ensures
        interp_step(Dialect::V5, st, text) matches Some(u) ==> ats(u) + 2 <= ats(text),
        interp_step(Dialect::V5, st, text) is None <==> ats(text) <= 1,
{
    lemma_first_index(text, '@');
    match first_index(text, '@') {
        None => {
            lemma_ats_none(text);
        },
        Some(start) => {
            let start = start as int;
            let rest = text.skip(start + 1);
            lemma_first_index(rest, '@');
            assert(text =~= text.take(start) + (seq!['@'] + rest));
            lemma_ats_none(text.take(start));
            lemma_ats_add(text.take(start), seq!['@'] + rest);
            lemma_ats_add(seq!['@'], rest);
            lemma_ats_one('@');
            match first_index(rest, '@') {
                None => {
                    lemma_ats_none(rest);
                },
                Some(j) => {
                    let j = j as int;
                    let name = rest.take(j);
                    assert(rest =~= name + (seq!['@'] + rest.skip(j + 1)));
                    lemma_ats_none(name);
                    lemma_ats_add(name, seq!['@'] + rest.skip(j + 1));
                    lemma_ats_add(seq!['@'], rest.skip(j + 1));
                    reveal_strlit("@");
                    let pat = "@"@ + name + "@"@;
                    assert(pat =~= seq!['@'] + name + seq!['@']);
                    lemma_ats_add(seq!['@'] + name, seq!['@']);
                    lemma_ats_add(seq!['@'], name);
                    lemma_ats_one('@');
                    assert(ats(seq!['@'] + name + seq!['@']) == 2);
                    assert(ats(pat) == 2);
                    let val = match top_of(st, name) {
                        Some(v) => v,
                        None => Seq::<char>::empty(),
                    };
                    assert(ats(val) == 0);
                    assert(text.subrange(start, start + pat.len()) =~= pat);
                    lemma_replace_ats_at(text, pat, val, start);
                },
            }
        },
    }
}

/// Whether no token of `t` is `fnc` or `}`: tokens that open or close a function body.
pub open spec fn plain_tokens(t: Seq<Seq<char>>) -> bool {
    forall|k: int| 0 <= k < t.len() ==> t[k] != "fnc"@ && t[k] != "}"@
}

/// The tokens of `fnc <f> { <t> }`.
pub open spec fn wrapped(f: Seq<char>, t: Seq<Seq<char>>) -> Seq<Seq<char>> {
    seq!["fnc"@, f, "{"@] + t + seq!["}"@]
}

/// The parser knows its command words apart.
proof fn lemma_words_differ()
    ensures
        "}"@ != "crt"@ && "}"@ != "psh"@ && "}"@ != "pop"@ && "}"@ != "out"@ && "}"@ != "otn"@
            && "}"@ != "del"@ && "}"@ != "fnc"@ && "}"@ != "cal"@ && "}"@ != "jmp"@,
        "fnc"@ != "crt"@ && "fnc"@ != "psh"@ && "fnc"@ != "pop"@ && "fnc"@ != "out"@ && "fnc"@
            != "otn"@ && "fnc"@ != "del"@,
{
    reveal_strlit("}");
    reveal_strlit("crt");
    reveal_strlit("psh");
    reveal_strlit("pop");
    reveal_strlit("out");
    reveal_strlit("otn");
    reveal_strlit("del");
    reveal_strlit("fnc");
    reveal_strlit("cal");
    reveal_strlit("jmp");
    assert("}"@[0] != "crt"@[0]);
    assert("}"@[0] != "psh"@[0]);
    assert("}"@[0] != "pop"@[0]);
    assert("}"@[0] != "out"@[0]);
    assert("}"@[0] != "otn"@[0]);
    assert("}"@[0] != "del"@[0]);
    assert("}"@[0] != "fnc"@[0]);
    assert("}"@[0] != "cal"@[0]);
    assert("}"@[0] != "jmp"@[0]);
    assert("fnc"@[0] != "crt"@[0]);
    assert("fnc"@[0] != "psh"@[0]);
    assert("fnc"@[0] != "pop"@[0]);
    assert("fnc"@[0] != "out"@[0]);
    assert("fnc"@[0] != "otn"@[0]);
    assert("fnc"@[0] != "del"@[0]);
}

/// A command that reads as an instruction at top level reads as the same instruction
/// inside a body, three tokens further on.
proof fn lemma_step_in_body(f: Seq<char>, t: Seq<Seq<char>>, p: nat, d: Dialect)
    requires
        plain_tokens(t),
        p < t.len(),
        parser::step_spec(t, p, d, false) is Instr,
    ensures
        parser::step_spec(t, p, d, false) matches StepV::Instr(i, q) && q <= t.len() && parser::step_spec(wrapped(f, t), p + 3, d, true)
            == StepV::Instr(i, q + 3),
{
    let u = wrapped(f, t);
    assert forall|m: int| 0 <= m < t.len() implies u[3 + m] == t[m] by {}
    assert(u.len() == t.len() + 4);
    assert(u[p + 3int] == t[p as int]);
    assert(t[p as int] != "}"@);
}

/// Reading the rest of a body: when the tokens from `p` on parse at top level with the
/// instructions `acc` already read, the same tokens inside `fnc <f> { .. }` parse into
/// the function `f` with those instructions, and nothing else.
proof fn lemma_body_drive(f: Seq<char>, t: Seq<Seq<char>>, d: Dialect, p: nat, acc: Seq<InstrV>, prog: ProgramV)
    requires
        plain_tokens(t),
        p <= t.len(),
        drive(t, d, p, Seq::empty(), acc, Map::empty()) == Ok::<ProgramV, (Seq<char>, u32, Seq<char>, nat)>(prog),
    ensures
        prog.functions == Map::<Seq<char>, Seq<InstrV>>::empty(),
        drive(wrapped(f, t), d, p + 3, seq![(f, acc)], Seq::empty(), Map::empty()) == Ok::<
            ProgramV,
            (Seq<char>, u32, Seq<char>, nat),
        >(ProgramV { instructions: Seq::empty(), functions: Map::empty().insert(f, prog.instructions) }),
    decreases t.len() - p,
{
    let u = wrapped(f, t);
    lemma_words_differ();
    if p >= t.len() {
        assert(u[t.len() + 3int] == "}"@);
        assert(seq![(f, acc)].drop_last() =~= Seq::<(Seq<char>, Seq<InstrV>)>::empty());
        assert(parser::step_spec(u, p + 3, d, true) == StepV::Close(p + 4));
        assert(drive(t, d, p, Seq::empty(), acc, Map::empty()) == Ok::<ProgramV, (Seq<char>, u32, Seq<char>, nat)>(
            ProgramV { instructions: acc, functions: Map::empty() },
        ));
        let fr = seq![(f, acc)];
        assert(fr.len() > 0);
        assert(fr.last() == (f, acc));
        assert(drive(u, d, p + 4, Seq::empty(), Seq::empty(), Map::empty().insert(f, acc)) == Ok::<ProgramV, (Seq<char>, u32, Seq<char>, nat)>(
            ProgramV { instructions: Seq::empty(), functions: Map::empty().insert(f, acc) },
        ));
    } else {
        assert(t[p as int] != "fnc"@);
        match parser::step_spec(t, p, d, false) {
            StepV::Instr(i, q) => {
                lemma_step_in_body(f, t, p, d);
                lemma_body_drive(f, t, d, q, acc.push(i), prog);
                assert(seq![(f, acc)].update(0, (f, acc.push(i))) =~= seq![(f, acc.push(i))]);
                assert(parser::step_spec(u, p + 3, d, true) == StepV::Instr(i, q + 3));
            },
            StepV::Open(..) => {},
            StepV::Close(..) => {},
            StepV::Fail(..) => {},
        }
    }
}

/// A function body parses exactly like the same tokens at top level: when tokens that
/// neither open nor close a body parse into a program, wrapping them in `fnc <f> { .. }`
/// parses into no top-level instructions and the one function `f`, whose body is that
/// program's instructions.
pub proof fn law_block_parses_like_top_level(f: Seq<char>, t: Seq<Seq<char>>, d: Dialect, prog: ProgramV)
    requires
        plain_tokens(t),
        drive(t, d, 0, Seq::empty(), Seq::empty(), Map::empty()) == Ok::<ProgramV, (Seq<char>, u32, Seq<char>, nat)>(prog),
    ensures
        prog.functions == Map::<Seq<char>, Seq<InstrV>>::empty(),
        drive(wrapped(f, t), d, 0, Seq::empty(), Seq::empty(), Map::empty()) == Ok::<ProgramV, (Seq<char>, u32, Seq<char>, nat)>(
            ProgramV { instructions: Seq::empty(), functions: Map::empty().insert(f, prog.instructions) },
        ),
{
    let u = wrapped(f, t);
    lemma_words_differ();
    reveal_strlit("fnc");
    reveal_strlit("{");
    assert(u[0] == "fnc"@);
    assert(u[1] == f);
    assert(u[2] == "{"@);
    assert(parser::step_spec(u, 0, d, false) == StepV::Open(f, 3));
    assert(Seq::<(Seq<char>, Seq<InstrV>)>::empty().push((f, Seq::<InstrV>::empty())) =~= seq![(f, Seq::<InstrV>::empty())]);
    lemma_body_drive(f, t, d, 0, Seq::empty(), prog);
}

/// `a` is `b` with one more frame beneath its frames: the frame `c`, which is at the end
/// of its body, as the frame of a call whose instruction was the last of its body is.
pub open spec fn runs_beneath(a: VmV, b: VmV, c: FrameV) -> bool {
    &&& c.pc == c.body.len()
    &&& a.frames == seq![c] + b.frames
    &&& a.program == b.program
    &&& a.stacks == b.stacks
    &&& a.mode == b.mode
    &&& a.dialect == b.dialect
}

/// Answering a comparison keeps a finished frame beneath.
proof fn lemma_resume_compare_beneath(a: VmV, b: VmV, c: FrameV, numeric: Option<bool>)
    requires
        runs_beneath(a, b, c),
    ensures
        runs_beneath(resume_compare_spec(a, numeric).0, resume_compare_spec(b, numeric).0, c),
        resume_compare_spec(a, numeric).1 == resume_compare_spec(b, numeric).1,
{
    match a.mode {
        ModeV::AwaitCompare(x, y, op, t) => {
            let fa = a.frames;
            let fb = b.frames;
            let ga = if a.dialect == Dialect::V5 && fa.len() > 0 {
                fa.update(fa.len() - 1, FrameV { body: fa.last().body, pc: fa.last().body.len() })
            } else {
                fa
            };
            let gb = if b.dialect == Dialect::V5 && fb.len() > 0 {
                fb.update(fb.len() - 1, FrameV { body: fb.last().body, pc: fb.last().body.len() })
            } else {
                fb
            };
            if fb.len() > 0 {
                assert(fa.last() == fb.last());
            } else {
                assert(fa =~= seq![c]);
            }
            assert(ga =~= seq![c] + gb);
            if a.program.functions.dom().contains(t) {
                let h = FrameV { body: a.program.functions[t], pc: 0 };
                assert(ga.push(h) =~= seq![c] + gb.push(h));
            }
        },
        _ => {},
    }
}

/// Answering arithmetic keeps a finished frame beneath.
proof fn lemma_resume_arith_beneath(a: VmV, b: VmV, c: FrameV, result: Option<Seq<char>>)
    requires
        runs_beneath(a, b, c),
    ensures
        runs_beneath(resume_arith_spec(a, result).0, resume_arith_spec(b, result).0, c),
        resume_arith_spec(a, result).1 == resume_arith_spec(b, result).1,
{
}

/// Every instruction does the same with a finished frame beneath.
proof fn lemma_exec_beneath(a: VmV, b: VmV, c: FrameV, i: InstrV)
    requires
        runs_beneath(a, b, c),
    ensures
        runs_beneath(exec_spec(a, i).0, exec_spec(b, i).0, c),
        exec_spec(a, i).1 == exec_spec(b, i).1,
        exec_spec(a, i).2 == exec_spec(b, i).2,
{
    match i {
        InstrV::CallFunction(f) => {
            if a.program.functions.dom().contains(f) {
                let h = FrameV { body: a.program.functions[f], pc: 0 };
                assert(a.frames.push(h) =~= seq![c] + b.frames.push(h));
            }
        },
        InstrV::ConditionalJump { left_stack, right_stack, op, target_func } => {
            match (jump_operand(a.dialect, a.stacks, left_stack), jump_operand(a.dialect, a.stacks, right_stack)) {
                (Some(x), Some(y)) => {
                    let wa = VmV { mode: ModeV::AwaitCompare(x, y, op, target_func), ..a };
                    let wb = VmV { mode: ModeV::AwaitCompare(x, y, op, target_func), ..b };
                    lemma_resume_compare_beneath(wa, wb, c, None);
                },
                _ => {},
            }
        },
        InstrV::Arithmetic { stack, operator, value } => {
            let st = a.stacks;
            if st.dom().contains(stack) && st[stack].len() > 0 {
                let wa = VmV {
                    stacks: st.insert(stack, st[stack].drop_last()),
                    mode: ModeV::AwaitArith(stack, st[stack].last(), value, operator),
                    ..a
                };
                let wb = VmV {
                    stacks: st.insert(stack, st[stack].drop_last()),
                    mode: ModeV::AwaitArith(stack, st[stack].last(), value, operator),
                    ..b
                };
                lemma_resume_arith_beneath(wa, wb, c, None);
            }
        },
        _ => {},
    }
}

/// Calling a function runs exactly its body: a machine whose body ends with the call
/// `cal f` steps like the machine that runs `f`'s body on its own, writing the same text,
/// asking the same questions and reaching the same stacks, while the calling frame waits
/// beneath. The same holds of the answers to its questions (see
/// `law_answers_keep_the_caller_beneath`), and when the body ends one silent step more
/// leaves the machine exactly where running the body alone leaves it (see
/// `law_call_returns_where_the_body_ends`).
pub proof fn law_call_runs_the_body(vm: VmV, f: Seq<char>)
    requires
        vm.mode == ModeV::Ready,
        vm.frames == seq![FrameV { body: seq![InstrV::CallFunction(f)], pc: 0 }],
        vm.program.functions.dom().contains(f),
    ensures
        runs_beneath(
            step_spec(vm).0,
            VmV { frames: seq![FrameV { body: vm.program.functions[f], pc: 0 }], ..vm },
            FrameV { body: seq![InstrV::CallFunction(f)], pc: 1 },
        ),
        step_spec(vm).1 == Seq::<EffectV>::empty(),
        step_spec(vm).2 == RequestV::Continue,
{
    let c = FrameV { body: seq![InstrV::CallFunction(f)], pc: 1 };
    let h = FrameV { body: vm.program.functions[f], pc: 0 };
    assert(vm.frames.last() == FrameV { body: seq![InstrV::CallFunction(f)], pc: 0 });
    assert(vm.frames.update(0, c) =~= seq![c]);
    assert(seq![c].push(h) =~= seq![c] + seq![h]);
}

/// Each step of a machine with a finished frame beneath, while the machine above still
/// has frames or is not ready, does what the step of the machine above does: the same
/// text, the same request, and the frame stays beneath.
pub proof fn law_step_keeps_the_caller_beneath(a: VmV, b: VmV, c: FrameV)
    requires
        runs_beneath(a, b, c),
        b.frames.len() > 0 || b.mode != ModeV::Ready,
    ensures
        runs_beneath(step_spec(a).0, step_spec(b).0, c),
        step_spec(a).1 == step_spec(b).1,
        step_spec(a).2 == step_spec(b).2,
{
    if a.mode == ModeV::Ready {
        let fb = b.frames;
        let g = fb.last();
        assert(a.frames.last() == g);
        if g.pc >= g.body.len() {
            assert(a.frames.drop_last() =~= seq![c] + fb.drop_last());
        } else {
            let g2 = FrameV { body: g.body, pc: g.pc + 1 };
            let ma = VmV { frames: a.frames.update(a.frames.len() - 1, g2), ..a };
            let mb = VmV { frames: fb.update(fb.len() - 1, g2), ..b };
            assert(ma.frames =~= seq![c] + mb.frames);
            lemma_exec_beneath(ma, mb, c, g.body[g.pc as int]);
        }
    }
}

/// Answering a question of a machine with a finished frame beneath does what it does to
/// the machine above, and the frame stays beneath.
pub proof fn law_answers_keep_the_caller_beneath(
    a: VmV,
    b: VmV,
    c: FrameV,
    numeric: Option<bool>,
    result: Option<Seq<char>>,
)
    requires
        runs_beneath(a, b, c),
    ensures
        runs_beneath(resume_compare_spec(a, numeric).0, resume_compare_spec(b, numeric).0, c),
        resume_compare_spec(a, numeric).1 == resume_compare_spec(b, numeric).1,
        runs_beneath(resume_arith_spec(a, result).0, resume_arith_spec(b, result).0, c),
        resume_arith_spec(a, result).1 == resume_arith_spec(b, result).1,
{
    lemma_resume_compare_beneath(a, b, c, numeric);
    lemma_resume_arith_beneath(a, b, c, result);
}

/// Once the body has ended and the machine above has finished, one more step, silent,
/// removes the calling frame: the machine is then exactly the machine above.
pub proof fn law_call_returns_where_the_body_ends(a: VmV, b: VmV, c: FrameV)
    requires
        runs_beneath(a, b, c),
        b.frames.len() == 0,
        b.mode == ModeV::Ready,
    ensures
        step_spec(a).0 == b,
        step_spec(a).1 == Seq::<EffectV>::empty(),
        step_spec(a).2 == RequestV::Continue,
        step_spec(b) == (b, Seq::<EffectV>::empty(), RequestV::Finished),
{
    assert(a.frames =~= seq![c]);
    assert(a.frames.last() == c);
    assert(a.frames.drop_last() =~= b.frames);
}

/// At most `n` rounds of running the machine as a host does: step; answer a comparison
/// with `compare` and arithmetic with `arith`; stop once the machine says it has finished.
/// The result is the machine reached, all the text written on the way, and whether it
/// finished.
pub open spec fn run_spec(
    vm: VmV,
    n: nat,
    compare: spec_fn(Seq<char>, Seq<char>, ComparisonOp) -> Option<bool>,
    arith: spec_fn(Seq<char>, Seq<char>, ArithmeticOp) -> Option<Seq<char>>,
) -> (VmV, Seq<EffectV>, bool)
    decreases n,
{
    if n == 0 {
        (vm, Seq::empty(), false)
    } else {
        let (v1, e1, r) = step_spec(vm);
        match r {
            RequestV::Finished => (v1, e1, true),
            RequestV::Continue => {
                let rest = run_spec(v1, (n - 1) as nat, compare, arith);
                (rest.0, e1 + rest.1, rest.2)
            },
            RequestV::Compare(l, r2, op) => {
                let (v2, e2) = resume_compare_spec(v1, compare(l, r2, op));
                let rest = run_spec(v2, (n - 1) as nat, compare, arith);
                (rest.0, e1 + e2 + rest.1, rest.2)
            },
            RequestV::Arithmetic(l, r2, op) => {
                let (v2, e2) = resume_arith_spec(v1, arith(l, r2, op));
                let rest = run_spec(v2, (n - 1) as nat, compare, arith);
                (rest.0, e1 + e2 + rest.1, rest.2)
            },
        }
    }
}

/// A run with a finished frame beneath takes one round more than the run above it, and
/// ends exactly where it ends, having written the same text.
proof fn lemma_run_beneath(
    a: VmV,
    b: VmV,
    c: FrameV,
    n: nat,
    compare: spec_fn(Seq<char>, Seq<char>, ComparisonOp) -> Option<bool>,
    arith: spec_fn(Seq<char>, Seq<char>, ArithmeticOp) -> Option<Seq<char>>,
)
    requires
        runs_beneath(a, b, c),
        run_spec(b, n, compare, arith).2,
    ensures
        run_spec(a, n + 1, compare, arith) == run_spec(b, n, compare, arith),
    decreases n,
{
    if b.frames.len() == 0 && b.mode == ModeV::Ready {
        law_call_returns_where_the_body_ends(a, b, c);
        assert(Seq::<EffectV>::empty() + Seq::<EffectV>::empty() =~= Seq::<EffectV>::empty());
    } else {
        law_step_keeps_the_caller_beneath(a, b, c);
        let (a1, e1, r) = step_spec(a);
        let b1 = step_spec(b).0;
        match r {
            RequestV::Finished => {},
            RequestV::Continue => {
                lemma_run_beneath(a1, b1, c, (n - 1) as nat, compare, arith);
            },
            RequestV::Compare(l, r2, op) => {
                law_answers_keep_the_caller_beneath(a1, b1, c, compare(l, r2, op), None);
                lemma_run_beneath(
                    resume_compare_spec(a1, compare(l, r2, op)).0,
                    resume_compare_spec(b1, compare(l, r2, op)).0,
                    c,
                    (n - 1) as nat,
                    compare,
                    arith,
                );
            },
            RequestV::Arithmetic(l, r2, op) => {
                law_answers_keep_the_caller_beneath(a1, b1, c, None, arith(l, r2, op));
                lemma_run_beneath(
                    resume_arith_spec(a1, arith(l, r2, op)).0,
                    resume_arith_spec(b1, arith(l, r2, op)).0,
                    c,
                    (n - 1) as nat,
                    compare,
                    arith,
                );
            },
        }
    }
}

/// While the run above has not finished, the run with a finished frame beneath has
/// written the same text and keeps that frame beneath the same machine.
proof fn lemma_run_beneath_unfinished(
    a: VmV,
    b: VmV,
    c: FrameV,
    n: nat,
    compare: spec_fn(Seq<char>, Seq<char>, ComparisonOp) -> Option<bool>,
    arith: spec_fn(Seq<char>, Seq<char>, ArithmeticOp) -> Option<Seq<char>>,
)
    requires
        runs_beneath(a, b, c),
        !run_spec(b, n, compare, arith).2,
    ensures
        runs_beneath(run_spec(a, n, compare, arith).0, run_spec(b, n, compare, arith).0, c),
        run_spec(a, n, compare, arith).1 == run_spec(b, n, compare, arith).1,
        !run_spec(a, n, compare, arith).2,
    decreases n,
{
    if n > 0 {
        assert(b.frames.len() > 0 || b.mode != ModeV::Ready);
        law_step_keeps_the_caller_beneath(a, b, c);
        let (a1, e1, r) = step_spec(a);
        let b1 = step_spec(b).0;
        match r {
            RequestV::Finished => {},
            RequestV::Continue => {
                lemma_run_beneath_unfinished(a1, b1, c, (n - 1) as nat, compare, arith);
            },
            RequestV::Compare(l, r2, op) => {
                law_answers_keep_the_caller_beneath(a1, b1, c, compare(l, r2, op), None);
                lemma_run_beneath_unfinished(
                    resume_compare_spec(a1, compare(l, r2, op)).0,
                    resume_compare_spec(b1, compare(l, r2, op)).0,
                    c,
                    (n - 1) as nat,
                    compare,
                    arith,
                );
            },
            RequestV::Arithmetic(l, r2, op) => {
                law_answers_keep_the_caller_beneath(a1, b1, c, None, arith(l, r2, op));
                lemma_run_beneath_unfinished(
                    resume_arith_spec(a1, arith(l, r2, op)).0,
                    resume_arith_spec(b1, arith(l, r2, op)).0,
                    c,
                    (n - 1) as nat,
                    compare,
                    arith,
                );
            },
        }
    }
}

/// Running a program that only calls `f` leaves the same stacks and writes the same
/// text as running `f`'s body directly, whatever the answers to its comparisons and
/// arithmetic, after any number of rounds: one round for the call, then round for round
/// the same text and the same stacks while the body runs; and when the body's run
/// finishes within `n` rounds, the call's run finishes within `n + 2` (one more round
/// for the return) at the very same machine.
pub proof fn law_call_equals_running_the_body(
    vm: VmV,
    f: Seq<char>,
    n: nat,
    compare: spec_fn(Seq<char>, Seq<char>, ComparisonOp) -> Option<bool>,
    arith: spec_fn(Seq<char>, Seq<char>, ArithmeticOp) -> Option<Seq<char>>,
)
    requires
        vm.mode == ModeV::Ready,
        vm.frames == seq![FrameV { body: seq![InstrV::CallFunction(f)], pc: 0 }],
        vm.program.functions.dom().contains(f),
    ensures
        ({
            let body = VmV { frames: seq![FrameV { body: vm.program.functions[f], pc: 0 }], ..vm };
            &&& !run_spec(body, n, compare, arith).2 ==> {
                &&& run_spec(vm, n + 1, compare, arith).1 == run_spec(body, n, compare, arith).1
                &&& run_spec(vm, n + 1, compare, arith).0.stacks == run_spec(body, n, compare, arith).0.stacks
                &&& !run_spec(vm, n + 1, compare, arith).2
            }
            &&& run_spec(body, n, compare, arith).2 ==> run_spec(vm, n + 2, compare, arith) == run_spec(
                body,
                n,
                compare,
                arith,
            )
        }),
{
    let b = VmV { frames: seq![FrameV { body: vm.program.functions[f], pc: 0 }], ..vm };
    let c = FrameV { body: seq![InstrV::CallFunction(f)], pc: 1 };
    law_call_runs_the_body(vm, f);
    if run_spec(b, n, compare, arith).2 {
        lemma_run_beneath(step_spec(vm).0, b, c, n, compare, arith);
        assert(Seq::<EffectV>::empty() + run_spec(b, n, compare, arith).1 =~= run_spec(b, n, compare, arith).1);
    } else {
        lemma_run_beneath_unfinished(step_spec(vm).0, b, c, n, compare, arith);
        assert(Seq::<EffectV>::empty() + run_spec(b, n, compare, arith).1 =~= run_spec(b, n, compare, arith).1);
    }
}

/// Calling a function that the program does not define writes an error and changes no
/// stack.
pub proof fn law_missing_call_keeps_stacks(vm: VmV, f: Seq<char>)
    requires
        !vm.program.functions.dom().contains(f),
    ensures
        exec_spec(vm, InstrV::CallFunction(f)).0.stacks == vm.stacks,
        exec_spec(vm, InstrV::CallFunction(f)).0.frames == vm.frames,
        exec_spec(vm, InstrV::CallFunction(f)).2 == RequestV::Continue,
{
}

/// The first `c` in `s` is at `j` when `s[j]` is `c` and no earlier character is.
proof fn lemma_first_index_at(s: Seq<char>, c: char, j: int)
    requires
        0 <= j < s.len(),
        s[j] == c,
        forall|k: int| 0 <= k < j ==> s[k] != c,
    ensures
        first_index(s, c) == Some(j as nat),
{
    lemma_first_index(s, c);
}

/// In the original dialect, one round of resolving output text replaces its first
/// reference `@n@` (the text before it holding no `@`, the name non-empty and without
/// `@`) by the top of stack `n`, its value pushed last, and by `(undefined)` when that
/// stack is missing or empty; the text around it stays as it is.
pub proof fn law_v4_reference_reads_the_top(
    st: Map<Seq<char>, Seq<Seq<char>>>,
    a: Seq<char>,
    n: Seq<char>,
    b: Seq<char>,
)
    requires
        forall|k: int| 0 <= k < a.len() ==> a[k] != '@',
        n.len() > 0,
        forall|k: int| 0 <= k < n.len() ==> n[k] != '@',
    ensures
        st.dom().contains(n) && st[n].len() > 0 ==> interp_step(Dialect::V4, st, a + seq!['@'] + n + seq!['@'] + b)
            == Some(a + st[n][st[n].len() - 1] + b),
        !(st.dom().contains(n) && st[n].len() > 0) ==> interp_step(
            Dialect::V4,
            st,
            a + seq!['@'] + n + seq!['@'] + b,
        ) == Some(a + "(undefined)"@ + b),
{
    let text = a + seq!['@'] + n + seq!['@'] + b;
    lemma_first_index_at(text, '@', a.len() as int);
    let rest = text.skip(a.len() + 1int);
    assert(rest =~= n + seq!['@'] + b);
    lemma_first_index_at(rest, '@', n.len() as int);
    assert(rest.take(n.len() as int) =~= n);
    assert(text.take(a.len() as int) =~= a);
    assert(rest.skip(n.len() + 1int) =~= b);
}

/// After `del n`, stack `n` is gone and every other stack is as it was; nothing is
/// written and the machine goes on.
pub proof fn law_delete_removes_only_that_stack(vm: VmV, n: Seq<char>)
    ensures
        !exec_spec(vm, InstrV::DeleteStack(n)).0.stacks.dom().contains(n),
        forall|m: Seq<char>|
            m != n ==> (#[trigger] exec_spec(vm, InstrV::DeleteStack(n)).0.stacks.dom().contains(m)
                <==> vm.stacks.dom().contains(m)),
        forall|m: Seq<char>|
            m != n && vm.stacks.dom().contains(m) ==> #[trigger] exec_spec(vm, InstrV::DeleteStack(n)).0.stacks[m]
                == vm.stacks[m],
        exec_spec(vm, InstrV::DeleteStack(n)).0.frames == vm.frames,
        exec_spec(vm, InstrV::DeleteStack(n)).1 == Seq::<EffectV>::empty(),
        exec_spec(vm, InstrV::DeleteStack(n)).2 == RequestV::Continue,
{
}

/// The comparison operators are read from their texts one for one: `=` is `==`, `!=`
/// is `!=`, `<` and `>` are themselves, `=<` is `<=` and `>=` is `>=`; no other text is
/// an operator, and two texts that read as the same operator are the same text.
pub proof fn law_comparison_texts_are_one_for_one(s: Seq<char>, t: Seq<char>)
    ensures
        spec_comparison_op("="@) == Some(ComparisonOp::Equal),
        spec_comparison_op("!="@) == Some(ComparisonOp::NotEqual),
        spec_comparison_op("<"@) == Some(ComparisonOp::LessThan),
        spec_comparison_op(">"@) == Some(ComparisonOp::GreaterThan),
        spec_comparison_op("=<"@) == Some(ComparisonOp::LessEqual),
        spec_comparison_op(">="@) == Some(ComparisonOp::GreaterEqual),
        spec_comparison_op(s) is Some && spec_comparison_op(s) == spec_comparison_op(t) ==> s == t,
{
    reveal_strlit("=");
    reveal_strlit("!=");
    reveal_strlit("<");
    reveal_strlit(">");
    reveal_strlit("=<");
    reveal_strlit(">=");
    assert("="@.len() == 1 && "="@[0] == '=');
    assert("!="@.len() == 2 && "!="@[0] == '!');
    assert("<"@.len() == 1 && "<"@[0] == '<');
    assert(">"@.len() == 1 && ">"@[0] == '>');
    assert("=<"@.len() == 2 && "=<"@[0] == '=');
    assert(">="@.len() == 2 && ">="@[0] == '>');
}

/// The arithmetic operators are read from their texts one for one: `+` adds, `-`
/// subtracts, `*` multiplies and `/` divides; no other text is an operator, and two texts
/// that read as the same operator are the same text.
pub proof fn law_arithmetic_texts_are_one_for_one(s: Seq<char>, t: Seq<char>)
    ensures
        spec_arithmetic_op("+"@) == Some(ArithmeticOp::Add),
        spec_arithmetic_op("-"@) == Some(ArithmeticOp::Subtract),
        spec_arithmetic_op("*"@) == Some(ArithmeticOp::Multiply),
        spec_arithmetic_op("/"@) == Some(ArithmeticOp::Divide),
        spec_arithmetic_op(s) is Some && spec_arithmetic_op(s) == spec_arithmetic_op(t) ==> s == t,
{
    reveal_strlit("+");
    reveal_strlit("-");
    reveal_strlit("*");
    reveal_strlit("/");
    assert("+"@.len() == 1 && "+"@[0] == '+');
    assert("-"@.len() == 1 && "-"@[0] == '-');
    assert("*"@.len() == 1 && "*"@[0] == '*');
    assert("/"@.len() == 1 && "/"@[0] == '/');
}

} // verus!
