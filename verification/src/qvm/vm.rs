//! The QVM: named stacks of text, driven one step at a time.
//!
//! The machine prints nothing itself and does no floating-point work: each step hands
//! back the text it writes (`Effect`) and, where the program compares numbers or does
//! arithmetic, a `Request` that the caller answers with `resume_compare` or
//! `resume_arithmetic` before the next step.
use vstd::prelude::*;
use crate::qvm::syntax::{Dialect, ComparisonOp, ArithmeticOp, Instruction, InstrV, Program, ProgramV};
use crate::qvm::interpolate::{first_index, has_pattern, has_var_pattern, replace_all, replace_chars, find_char, lemma_first_index, condition_holds, compare};
use crate::table::Table;
use crate::text::{to_chars, slice_chars, chars_to_string, copy_string, lit, concat, concat_lit};
use crate::runtime::literal::{is_float_text, float_text};

verus! {

broadcast use vstd::string::group_string_axioms;

/// Text written by a step.
pub enum Effect {
    /// Written to standard output as is.
    Stdout(String),
    /// Written to standard error as a line.
    Stderr(String),
}

/// An effect seen as values.
pub enum EffectV {
    Stdout(Seq<char>),
    Stderr(Seq<char>),
}

impl DeepView for Effect {
    type V = EffectV;

    open spec fn deep_view(&self) -> EffectV {
        match self {
            Effect::Stdout(s) => EffectV::Stdout(s@),
            Effect::Stderr(s) => EffectV::Stderr(s@),
        }
    }
}

/// What the machine needs next.
pub enum Request {
    /// Step again.
    Continue,
    /// Compare `left` and `right`, which both read as numbers (see `is_float_text`), with
    /// `op`: answer with `resume_compare`, giving the outcome of comparing them as
    /// floating-point numbers. Texts that are not both numbers are compared in the step.
    Compare { left: String, right: String, op: ComparisonOp },
    /// Apply `op` to `left` and `right`, which both read as numbers: answer with
    /// `resume_arithmetic`, giving the result's text. Operands that are not both numbers
    /// are refused in the step.
    Arithmetic { left: String, right: String, operator: ArithmeticOp },
    /// The program has ended.
    Finished,
}

/// A request seen as values.
pub enum RequestV {
    Continue,
    Compare(Seq<char>, Seq<char>, ComparisonOp),
    Arithmetic(Seq<char>, Seq<char>, ArithmeticOp),
    Finished,
}

impl DeepView for Request {
    type V = RequestV;

    open spec fn deep_view(&self) -> RequestV {
        match self {
            Request::Continue => RequestV::Continue,
            Request::Compare { left, right, op } => RequestV::Compare(left@, right@, *op),
            Request::Arithmetic { left, right, operator } => RequestV::Arithmetic(left@, right@, *operator),
            Request::Finished => RequestV::Finished,
        }
    }
}

/// The effects and the request of one step.
pub struct Outcome {
    pub effects: Vec<Effect>,
    pub request: Request,
}

/// What the machine is doing between steps.
enum Mode {
    Ready,
    /// Resolving `@name@` references in output text, one reference per step.
    Interpolating(String),
    /// Waiting for the outcome of a jump condition.
    AwaitCompare { left: String, right: String, op: ComparisonOp, target: String },
    /// Waiting for the result of arithmetic on the named stack.
    AwaitArith { stack: String, left: String, right: String, operator: ArithmeticOp },
}

/// The mode seen as values.
pub enum ModeV {
    Ready,
    Interpolating(Seq<char>),
    AwaitCompare(Seq<char>, Seq<char>, ComparisonOp, Seq<char>),
    AwaitArith(Seq<char>, Seq<char>, Seq<char>, ArithmeticOp),
}

/// A body being run and the position of its next instruction.
pub struct FrameV {
    pub body: Seq<InstrV>,
    pub pc: nat,
}

/// The machine seen as values.
pub struct VmV {
    pub program: ProgramV,
    pub stacks: Map<Seq<char>, Seq<Seq<char>>>,
    pub frames: Seq<FrameV>,
    pub mode: ModeV,
    pub dialect: Dialect,
}

/// The top of stack `n`, if it exists and is not empty.
pub open spec fn top_of(st: Map<Seq<char>, Seq<Seq<char>>>, n: Seq<char>) -> Option<Seq<char>> {
    if st.dom().contains(n) && st[n].len() > 0 {
        Some(st[n].last())
    } else {
        None
    }
}

/// What `out` writes for a plain name: the top of that stack, `(empty)` for an empty
/// stack, or the name itself when there is no such stack; then a space.
pub open spec fn named_output(st: Map<Seq<char>, Seq<Seq<char>>>, n: Seq<char>) -> Seq<char> {
    if st.dom().contains(n) {
        if st[n].len() > 0 {
            st[n].last() + " "@
        } else {
            "(empty) "@
        }
    } else {
        n + " "@
    }
}

/// What `out @n@` writes: the top of `n` read as a name (see `named_output`), or
/// `(undefined) ` when `n` has no top.
pub open spec fn var_output(st: Map<Seq<char>, Seq<Seq<char>>>, n: Seq<char>) -> Seq<char> {
    match top_of(st, n) {
        Some(v) => named_output(st, v),
        None => "(undefined) "@,
    }
}

/// One round of resolving references in `text`, or `None` when none is left. `V4`
/// replaces the first `@name@` (non-empty name) by the top of `name` or `(undefined)`;
/// `V5` replaces every `@name@` equal to the first one by the top of `name` or nothing.
pub open spec fn interp_step(d: Dialect, st: Map<Seq<char>, Seq<Seq<char>>>, text: Seq<char>) -> Option<Seq<char>> {
    match first_index(text, '@') {
        None => None,
        Some(start) => {
            let rest = text.skip(start as int + 1);
            match first_index(rest, '@') {
                None => None,
                Some(j) => {
                    let name = rest.take(j as int);
                    if d == Dialect::V4 {
                        if j == 0 {
                            None
                        } else {
                            let val = match top_of(st, name) {
                                Some(v) => v,
                                None => "(undefined)"@,
                            };
                            Some(text.take(start as int) + val + rest.skip(j as int + 1))
                        }
                    } else {
                        let val = match top_of(st, name) {
                            Some(v) => v,
                            None => Seq::empty(),
                        };
                        Some(replace_all(text, "@"@ + name + "@"@, val))
                    }
                },
            }
        },
    }
}

/// What is written once no reference is left in `text`.
pub open spec fn interp_done(d: Dialect, st: Map<Seq<char>, Seq<Seq<char>>>, text: Seq<char>) -> Seq<char> {
    if d == Dialect::V4 {
        text + " "@
    } else {
        named_output(st, text)
    }
}

/// The value of a jump operand: a stack's top for `@name@`; for plain text, the top of
/// the stack of that name or else the text itself (`V4`), or the text itself (`V5`).
pub open spec fn jump_operand(d: Dialect, st: Map<Seq<char>, Seq<Seq<char>>>, o: (Seq<char>, bool)) -> Option<Seq<char>> {
    if o.1 {
        top_of(st, o.0)
    } else if d == Dialect::V4 {
        match top_of(st, o.0) {
            Some(v) => Some(v),
            None => Some(o.0),
        }
    } else {
        Some(o.0)
    }
}

/// The warning for reading a missing variable in `psh`.
pub open spec fn push_warning(v: Seq<char>) -> Seq<char> {
    "Warning: Variable '"@ + v + "' not found, pushing empty string."@
}

/// The error for a missing stack.
pub open spec fn stack_missing(s: Seq<char>) -> Seq<char> {
    "Runtime Error: Stack '"@ + s + "' not found"@
}

/// The error for calling a missing function.
pub open spec fn function_missing(f: Seq<char>) -> Seq<char> {
    "Runtime Error: Function '"@ + f + "' not defined"@
}

/// The error for jumping to a missing function.
pub open spec fn target_missing(f: Seq<char>) -> Seq<char> {
    "Runtime Error: Jump target function '"@ + f + "' not defined"@
}

/// The error for a jump whose operands have no value.
pub open spec fn jump_values_missing(d: Dialect, l: Seq<char>, r: Seq<char>) -> Seq<char> {
    if d == Dialect::V4 {
        "Runtime Error: Could not retrieve values for jump condition (left: '"@ + l + "', right: '"@
            + r + "')"@
    } else {
        "Runtime Error: Could not retrieve values for jump condition"@
    }
}

/// The error for arithmetic on an empty stack.
pub open spec fn stack_empty(s: Seq<char>) -> Seq<char> {
    "Runtime Error: Stack '"@ + s + "' is empty"@
}

/// The error for arithmetic on values that are not numbers.
pub open spec fn non_numeric() -> Seq<char> {
    "Runtime Error: Cannot perform arithmetic on non-numeric values"@
}

/// Runs one instruction (the frame's position already moved past it). A jump between two
/// numbers and arithmetic on two numbers wait for the caller's answer; a jump between
/// texts that are not both numbers is decided here, and arithmetic on them refused here.
pub open spec fn exec_spec(vm: VmV, i: InstrV) -> (VmV, Seq<EffectV>, RequestV) {
    let st = vm.stacks;
    let d = vm.dialect;
    let none = Seq::<EffectV>::empty();
    match i {
        InstrV::CreateStack(n) => (
            VmV {
                stacks: if st.dom().contains(n) {
                    st
                } else {
                    st.insert(n, Seq::empty())
                },
                ..vm
            },
            none,
            RequestV::Continue,
        ),
        InstrV::Push(s, o) => {
            let val = if o.1 {
                match top_of(st, o.0) {
                    Some(x) => x,
                    None => Seq::empty(),
                }
            } else {
                o.0
            };
            let warn = if o.1 && top_of(st, o.0) is None {
                seq![EffectV::Stderr(push_warning(o.0))]
            } else {
                none
            };
            if st.dom().contains(s) {
                (VmV { stacks: st.insert(s, st[s].push(val)), ..vm }, warn, RequestV::Continue)
            } else {
                (vm, warn.push(EffectV::Stderr(stack_missing(s))), RequestV::Continue)
            }
        },
        InstrV::Pop(s) => if st.dom().contains(s) {
            (
                VmV {
                    stacks: st.insert(
                        s,
                        if st[s].len() > 0 {
                            st[s].drop_last()
                        } else {
                            st[s]
                        },
                    ),
                    ..vm
                },
                none,
                RequestV::Continue,
            )
        } else {
            (vm, seq![EffectV::Stderr(stack_missing(s))], RequestV::Continue)
        },
        InstrV::Out(o) => if (d == Dialect::V4 && has_pattern(o.0)) || (d == Dialect::V5 && !o.1) {
            (VmV { mode: ModeV::Interpolating(o.0), ..vm }, none, RequestV::Continue)
        } else if o.1 {
            (vm, seq![EffectV::Stdout(var_output(st, o.0))], RequestV::Continue)
        } else {
            (vm, seq![EffectV::Stdout(named_output(st, o.0))], RequestV::Continue)
        },
        InstrV::PrintNewLine => (vm, seq![EffectV::Stdout("\n"@)], RequestV::Continue),
        InstrV::DeleteStack(n) => (VmV { stacks: st.remove(n), ..vm }, none, RequestV::Continue),
        InstrV::CallFunction(f) => if vm.program.functions.dom().contains(f) {
            (
                VmV { frames: vm.frames.push(FrameV { body: vm.program.functions[f], pc: 0 }), ..vm },
                none,
                RequestV::Continue,
            )
        } else {
            (vm, seq![EffectV::Stderr(function_missing(f))], RequestV::Continue)
        },
        InstrV::ConditionalJump { left_stack, right_stack, op, target_func } => {
            match (jump_operand(d, st, left_stack), jump_operand(d, st, right_stack)) {
                (Some(a), Some(b)) => {
                    let waiting = VmV { mode: ModeV::AwaitCompare(a, b, op, target_func), ..vm };
                    if is_float_text(a) && is_float_text(b) {
                        (waiting, none, RequestV::Compare(a, b, op))
                    } else {
                        let (next, eff) = resume_compare_spec(waiting, None);
                        (next, eff, RequestV::Continue)
                    }
                },
                _ => (
                    vm,
                    seq![EffectV::Stderr(jump_values_missing(d, left_stack.0, right_stack.0))],
                    RequestV::Continue,
                ),
            }
        },
        InstrV::Arithmetic { stack, operator, value } => if st.dom().contains(stack) {
            if st[stack].len() > 0 {
                let waiting = VmV {
                    stacks: st.insert(stack, st[stack].drop_last()),
                    mode: ModeV::AwaitArith(stack, st[stack].last(), value, operator),
                    ..vm
                };
                if is_float_text(st[stack].last()) && is_float_text(value) {
                    (waiting, none, RequestV::Arithmetic(st[stack].last(), value, operator))
                } else {
                    let (next, eff) = resume_arith_spec(waiting, None);
                    (next, eff, RequestV::Continue)
                }
            } else {
                (vm, seq![EffectV::Stderr(stack_empty(stack))], RequestV::Continue)
            }
        } else {
            (vm, seq![EffectV::Stderr(stack_missing(stack))], RequestV::Continue)
        },
    }
}

/// One step of the machine: one round of resolving output text, the end of a finished
/// body, or one instruction. While an answer is awaited the step changes nothing and
/// asks again.
pub open spec fn step_spec(vm: VmV) -> (VmV, Seq<EffectV>, RequestV) {
    match vm.mode {
        ModeV::Interpolating(text) => match interp_step(vm.dialect, vm.stacks, text) {
            Some(t) => (VmV { mode: ModeV::Interpolating(t), ..vm }, Seq::empty(), RequestV::Continue),
            None => (
                VmV { mode: ModeV::Ready, ..vm },
                seq![EffectV::Stdout(interp_done(vm.dialect, vm.stacks, text))],
                RequestV::Continue,
            ),
        },
        ModeV::AwaitCompare(a, b, op, _t) => (vm, Seq::empty(), RequestV::Compare(a, b, op)),
        ModeV::AwaitArith(_s, a, b, op) => (vm, Seq::empty(), RequestV::Arithmetic(a, b, op)),
        ModeV::Ready => if vm.frames.len() == 0 {
            (vm, Seq::empty(), RequestV::Finished)
        } else {
            let f = vm.frames.last();
            if f.pc >= f.body.len() {
                (VmV { frames: vm.frames.drop_last(), ..vm }, Seq::empty(), RequestV::Continue)
            } else {
                let moved = VmV {
                    frames: vm.frames.update(vm.frames.len() - 1, FrameV { body: f.body, pc: f.pc + 1 }),
                    ..vm
                };
                exec_spec(moved, f.body[f.pc as int])
            }
        },
    }
}

/// The machine after the jump condition awaited came out as `numeric` says (see
/// `condition_holds`): when it holds, the target function runs next (in `V5` the
/// current body ends after it), or its absence is reported.
pub open spec fn resume_compare_spec(vm: VmV, numeric: Option<bool>) -> (VmV, Seq<EffectV>) {
    match vm.mode {
        ModeV::AwaitCompare(a, b, op, t) => {
            let ready = VmV { mode: ModeV::Ready, ..vm };
            if condition_holds(a, b, op, numeric) {
                let frames = if vm.dialect == Dialect::V5 && vm.frames.len() > 0 {
                    let f = vm.frames.last();
                    vm.frames.update(vm.frames.len() - 1, FrameV { body: f.body, pc: f.body.len() })
                } else {
                    vm.frames
                };
                if vm.program.functions.dom().contains(t) {
                    (
                        VmV { frames: frames.push(FrameV { body: vm.program.functions[t], pc: 0 }), ..ready },
                        Seq::empty(),
                    )
                } else {
                    (VmV { frames, ..ready }, seq![EffectV::Stderr(target_missing(t))])
                }
            } else {
                (ready, Seq::empty())
            }
        },
        _ => (vm, Seq::empty()),
    }
}

/// The machine after the awaited arithmetic gave `result` (`None`: not numbers): the
/// result is pushed on the stack, or the failure is reported.
pub open spec fn resume_arith_spec(vm: VmV, result: Option<Seq<char>>) -> (VmV, Seq<EffectV>) {
    match vm.mode {
        ModeV::AwaitArith(s, _a, _b, _op) => {
            let ready = VmV { mode: ModeV::Ready, ..vm };
            match result {
                Some(r) => if vm.stacks.dom().contains(s) {
                    (VmV { stacks: vm.stacks.insert(s, vm.stacks[s].push(r)), ..ready }, Seq::empty())
                } else {
                    (ready, Seq::empty())
                },
                None => (ready, seq![EffectV::Stderr(non_numeric())]),
            }
        },
        _ => (vm, Seq::empty()),
    }
}

struct Frame {
    func: Option<usize>,
    pc: usize,
}

/// The QVM.
pub struct VM {
    program: Program,
    stacks: Table<Vec<String>>,
    frames: Vec<Frame>,
    mode: Mode,
    dialect: Dialect,
}

/// A copy of an instruction.
fn copy_instruction(i: &Instruction) -> (r: Instruction)
    ensures
        r.deep_view() == i.deep_view(),
{
    match i {
        Instruction::CreateStack(n) => Instruction::CreateStack(copy_string(n)),
        Instruction::Push(s, (v, b)) => Instruction::Push(copy_string(s), (copy_string(v), *b)),
        Instruction::Pop(s) => Instruction::Pop(copy_string(s)),
        Instruction::Out((v, b)) => Instruction::Out((copy_string(v), *b)),
        Instruction::PrintNewLine => Instruction::PrintNewLine,
        Instruction::DeleteStack(n) => Instruction::DeleteStack(copy_string(n)),
        Instruction::CallFunction(f) => Instruction::CallFunction(copy_string(f)),
        Instruction::Arithmetic { stack, operator, value } => Instruction::Arithmetic {
            stack: copy_string(stack),
            operator: *operator,
            value: copy_string(value),
        },
        Instruction::ConditionalJump { left_stack, right_stack, op, target_func } =>
            Instruction::ConditionalJump {
            left_stack: (copy_string(&left_stack.0), left_stack.1),
            right_stack: (copy_string(&right_stack.0), right_stack.1),
            op: *op,
            target_func: copy_string(target_func),
        },
    }
}

/// A copy of a stack.
fn copy_stack(v: &Vec<String>) -> (r: Vec<String>)
    ensures
        r.deep_view() == v.deep_view(),
{
    let mut r: Vec<String> = Vec::new();
    let mut i: usize = 0;
    while i < v.len()
        invariant
            i <= v@.len(),
            r@.len() == i,
            forall|k: int| 0 <= k < i ==> #[trigger] r@[k]@ == v@[k]@,
        decreases v@.len() - i,
    {
        r.push(copy_string(&v[i]));
        i = i + 1;
    }
    assert(r.deep_view() =~= v.deep_view());
    r
}

impl VM {
    /// The machine as values.
    pub closed spec fn view(&self) -> VmV {
        VmV {
            program: self.program@,
            stacks: self.stacks.view(),
            frames: self.frames@.map_values(|f: Frame| FrameV { body: self.body_of(f.func), pc: f.pc as nat }),
            mode: match self.mode {
                Mode::Ready => ModeV::Ready,
                Mode::Interpolating(t) => ModeV::Interpolating(t@),
                Mode::AwaitCompare { left, right, op, target } => ModeV::AwaitCompare(left@, right@, op, target@),
                Mode::AwaitArith { stack, left, right, operator } => ModeV::AwaitArith(stack@, left@, right@, operator),
            },
            dialect: self.dialect,
        }
    }

    closed spec fn body_of(&self, func: Option<usize>) -> Seq<InstrV> {
        match func {
            None => self.program.instructions.deep_view(),
            Some(i) => self.program.functions.value_at(i as int),
        }
    }

    /// The machine's internal invariant.
    pub closed spec fn wf(&self) -> bool {
        &&& self.program.wf()
        &&& self.stacks.wf()
        &&& forall|k: int| 0 <= k < self.frames@.len() && (#[trigger] self.frames@[k]).func.is_some()
            ==> self.frames@[k].func.unwrap() < self.program.functions.size()
    }

    /// A machine for `dialect` with no stacks and nothing to run.
    pub fn new(dialect: Dialect) -> (r: Self)
        ensures
            r.wf(),
            r@.stacks == Map::<Seq<char>, Seq<Seq<char>>>::empty(),
            r@.frames.len() == 0,
            r@.mode == ModeV::Ready,
            r@.dialect == dialect,
    {
        let program = Program { instructions: Vec::new(), functions: Table::new() };
        let r = VM { program, stacks: Table::new(), frames: Vec::new(), mode: Mode::Ready, dialect };
        assert(r@.frames =~= Seq::<FrameV>::empty());
        r
    }

    /// Starts running `program`: its top-level instructions come next, on the current
    /// stacks.
    pub fn execute(&mut self, program: Program)
        requires
            old(self).wf(),
            program.wf(),
        ensures
            final(self).wf(),
            final(self)@.program == program@,
            final(self)@.stacks == old(self)@.stacks,
            final(self)@.frames == seq![FrameV { body: program@.instructions, pc: 0 }],
            final(self)@.mode == ModeV::Ready,
            final(self)@.dialect == old(self)@.dialect,
    {
        self.program = program;
        self.frames = Vec::new();
        self.frames.push(Frame { func: None, pc: 0 });
        self.mode = Mode::Ready;
        assert(self@.frames =~= seq![FrameV { body: self.program@.instructions, pc: 0 }]);
    }

    /// The top of stack `name`, if it exists and is not empty.
    pub fn get_stack_top(&self, name: &String) -> (r: Option<String>)
        requires
            self.wf(),
        ensures
            r matches Some(t) ==> top_of(self@.stacks, name@) == Some(t@),
            r is None ==> top_of(self@.stacks, name@) is None,
    {
        match self.stacks.find(name) {
            Some(i) => {
                proof {
                    self.stacks.lemma_entry(i as int);
                }
                let st = self.stacks.value(i);
                if st.len() > 0 {
                    Some(copy_string(&st[st.len() - 1]))
                } else {
                    None
                }
            },
            None => None,
        }
    }

    /// Adds an empty stack `n` unless there is one.
    fn create_stack(&mut self, n: String)
        requires
            old(self).wf(),
        ensures
            final(self).wf(),
            final(self)@ == (VmV {
                stacks: if old(self)@.stacks.dom().contains(n@) {
                    old(self)@.stacks
                } else {
                    old(self)@.stacks.insert(n@, Seq::empty())
                },
                ..old(self)@
            }),
    {
        if !self.stacks.contains(&n) {
            let empty: Vec<String> = Vec::new();
            assert(empty.deep_view() =~= Seq::<Seq<char>>::empty());
            self.stacks.insert(n, empty);
        }
        assert(self@.frames =~= old(self)@.frames);
    }

    /// Pushes `val` on stack `s`, which exists.
    fn push_on(&mut self, s: &String, val: String)
        requires
            old(self).wf(),
            old(self)@.stacks.dom().contains(s@),
        ensures
            final(self).wf(),
            final(self)@ == (VmV {
                stacks: old(self)@.stacks.insert(s@, old(self)@.stacks[s@].push(val@)),
                ..old(self)@
            }),
    {
        let i = self.stacks.find(s).unwrap();
        proof {
            self.stacks.lemma_entry(i as int);
        }
        let mut st = copy_stack(self.stacks.value(i));
        let ghost before = st.deep_view();
        let ghost vv = val@;
        st.push(val);
        assert(st.deep_view() =~= before.push(vv));
        self.stacks.set_value(i, st);
        assert(self@.frames =~= old(self)@.frames);
    }

    /// Removes the top of stack `s`, which exists, when it has one.
    fn pop_from(&mut self, s: &String)
        requires
            old(self).wf(),
            old(self)@.stacks.dom().contains(s@),
        ensures
            final(self).wf(),
            final(self)@ == (VmV {
                stacks: old(self)@.stacks.insert(
                    s@,
                    if old(self)@.stacks[s@].len() > 0 {
                        old(self)@.stacks[s@].drop_last()
                    } else {
                        old(self)@.stacks[s@]
                    },
                ),
                ..old(self)@
            }),
    {
        let i = self.stacks.find(s).unwrap();
        proof {
            self.stacks.lemma_entry(i as int);
        }
        let mut st = copy_stack(self.stacks.value(i));
        let ghost before = st.deep_view();
        if st.len() > 0 {
            let _ = st.pop();
            assert(st.deep_view() =~= before.drop_last());
        }
        self.stacks.set_value(i, st);
        assert(self@.frames =~= old(self)@.frames);
    }

    /// What `out` writes for the plain name `n` (see `named_output`).
    fn named_output(&self, n: &String) -> (r: String)
        requires
            self.wf(),
        ensures
            r@ == named_output(self@.stacks, n@),
    {
        match self.stacks.find(n) {
            Some(i) => {
                proof {
                    self.stacks.lemma_entry(i as int);
                }
                let st = self.stacks.value(i);
                if st.len() > 0 {
                    concat_lit(&st[st.len() - 1], " ")
                } else {
                    lit("(empty) ")
                }
            },
            None => concat_lit(n, " "),
        }
    }

    /// What `out @n@` writes (see `var_output`).
    fn var_output(&self, n: &String) -> (r: String)
        requires
            self.wf(),
        ensures
            r@ == var_output(self@.stacks, n@),
    {
        match self.get_stack_top(n) {
            Some(v) => self.named_output(&v),
            None => lit("(undefined) "),
        }
    }

    /// The value of a jump operand (see `jump_operand`).
    fn jump_operand(&self, o: &(String, bool)) -> (r: Option<String>)
        requires
            self.wf(),
        ensures
            r matches Some(t) ==> jump_operand(self@.dialect, self@.stacks, (o.0@, o.1)) == Some(t@),
            r is None ==> jump_operand(self@.dialect, self@.stacks, (o.0@, o.1)) is None,
    {
        if o.1 {
            self.get_stack_top(&o.0)
        } else if self.dialect == Dialect::V4 {
            match self.get_stack_top(&o.0) {
                Some(v) => Some(v),
                None => Some(copy_string(&o.0)),
            }
        } else {
            Some(copy_string(&o.0))
        }
    }

    /// Runs one instruction (see `exec_spec`).
    fn exec_instr(&mut self, instr: Instruction) -> (o: Outcome)
        requires
            old(self).wf(),
        ensures
            final(self).wf(),
            (final(self)@, o.effects.deep_view(), o.request.deep_view()) == exec_spec(old(self)@, instr.deep_view()),
    {
        let ghost iv = instr.deep_view();
        let mut effects: Vec<Effect> = Vec::new();
        assert(effects.deep_view() =~= Seq::<EffectV>::empty());
        match instr {
            Instruction::CreateStack(n) => {
                self.create_stack(n);
                Outcome { effects, request: Request::Continue }
            },
            Instruction::Push(s, (v, is_var)) => {
                let val = if is_var {
                    match self.get_stack_top(&v) {
                        Some(x) => x,
                        None => {
                            let m = concat_lit(&concat(&lit("Warning: Variable '"), &v), "' not found, pushing empty string.");
                            effects.push(Effect::Stderr(m));
                            String::new()
                        },
                    }
                } else {
                    copy_string(&v)
                };
                let ghost e1 = effects.deep_view();
                if self.stacks.contains(&s) {
                    self.push_on(&s, val);
                } else {
                    let m = concat_lit(&concat(&lit("Runtime Error: Stack '"), &s), "' not found");
                    effects.push(Effect::Stderr(m));
                    assert(effects.deep_view() =~= e1.push(EffectV::Stderr(stack_missing(s@))));
                }
                assert(e1 =~= (if is_var && top_of(old(self)@.stacks, v@) is None {
                    seq![EffectV::Stderr(push_warning(v@))]
                } else {
                    Seq::<EffectV>::empty()
                }));
                Outcome { effects, request: Request::Continue }
            },
            Instruction::Pop(s) => {
                if self.stacks.contains(&s) {
                    self.pop_from(&s);
                } else {
                    let m = concat_lit(&concat(&lit("Runtime Error: Stack '"), &s), "' not found");
                    effects.push(Effect::Stderr(m));
                    assert(effects.deep_view() =~= seq![EffectV::Stderr(stack_missing(s@))]);
                }
                Outcome { effects, request: Request::Continue }
            },
            Instruction::Out((t, is_var)) => {
                let tc = to_chars(t.as_str());
                let interp = if self.dialect == Dialect::V4 {
                    has_var_pattern(tc.as_slice())
                } else {
                    !is_var
                };
                if interp {
                    self.mode = Mode::Interpolating(t);
                    assert(self@.frames =~= old(self)@.frames);
                } else if is_var {
                    let out = self.var_output(&t);
                    effects.push(Effect::Stdout(out));
                    assert(effects.deep_view() =~= seq![EffectV::Stdout(var_output(old(self)@.stacks, t@))]);
                } else {
                    let out = self.named_output(&t);
                    effects.push(Effect::Stdout(out));
                    assert(effects.deep_view() =~= seq![EffectV::Stdout(named_output(old(self)@.stacks, t@))]);
                }
                Outcome { effects, request: Request::Continue }
            },
            Instruction::PrintNewLine => {
                effects.push(Effect::Stdout(lit("\n")));
                assert(effects.deep_view() =~= seq![EffectV::Stdout("\n"@)]);
                Outcome { effects, request: Request::Continue }
            },
            Instruction::DeleteStack(n) => {
                self.stacks.remove(&n);
                assert(self@.frames =~= old(self)@.frames);
                Outcome { effects, request: Request::Continue }
            },
            Instruction::CallFunction(f) => {
                match self.program.functions.find(&f) {
                    Some(i) => {
                        proof {
                            self.program.functions.lemma_entry(i as int);
                        }
                        let ghost fv = self@.frames;
                        self.frames.push(Frame { func: Some(i), pc: 0 });
                        assert(self@.frames =~= fv.push(FrameV { body: old(self)@.program.functions[f@], pc: 0 }));
                    },
                    None => {
                        let m = concat_lit(&concat(&lit("Runtime Error: Function '"), &f), "' not defined");
                        effects.push(Effect::Stderr(m));
                        assert(effects.deep_view() =~= seq![EffectV::Stderr(function_missing(f@))]);
                    },
                }
                Outcome { effects, request: Request::Continue }
            },
            Instruction::ConditionalJump { left_stack, right_stack, op, target_func } => {
                let l = self.jump_operand(&left_stack);
                let r = self.jump_operand(&right_stack);
                match (l, r) {
                    (Some(a), Some(b)) => {
                        let numbers = float_text(to_chars(a.as_str()).as_slice()) && float_text(
                            to_chars(b.as_str()).as_slice(),
                        );
                        let ra = copy_string(&a);
                        let rb = copy_string(&b);
                        self.mode = Mode::AwaitCompare { left: a, right: b, op, target: target_func };
                        assert(self@.frames =~= old(self)@.frames);
                        if numbers {
                            Outcome { effects, request: Request::Compare { left: ra, right: rb, op } }
                        } else {
                            let done = self.resume_compare(None);
                            Outcome { effects: done, request: Request::Continue }
                        }
                    },
                    _ => {
                        let m = if self.dialect == Dialect::V4 {
                            let m = concat(&lit("Runtime Error: Could not retrieve values for jump condition (left: '"), &left_stack.0);
                            let m = concat(&concat_lit(&m, "', right: '"), &right_stack.0);
                            concat_lit(&m, "')")
                        } else {
                            lit("Runtime Error: Could not retrieve values for jump condition")
                        };
                        effects.push(Effect::Stderr(m));
                        assert(effects.deep_view() =~= seq![EffectV::Stderr(jump_values_missing(old(self)@.dialect, left_stack.0@, right_stack.0@))]);
                        Outcome { effects, request: Request::Continue }
                    },
                }
            },
            Instruction::Arithmetic { stack, operator, value } => {
                if self.stacks.contains(&stack) {
                    match self.get_stack_top(&stack) {
                        Some(top) => {
                            let numbers = float_text(to_chars(top.as_str()).as_slice()) && float_text(
                                to_chars(value.as_str()).as_slice(),
                            );
                            self.pop_from(&stack);
                            let left = copy_string(&top);
                            let right = copy_string(&value);
                            self.mode = Mode::AwaitArith { stack, left, right, operator };
                            assert(self@.frames =~= old(self)@.frames);
                            if numbers {
                                Outcome { effects, request: Request::Arithmetic { left: top, right: value, operator } }
                            } else {
                                let done = self.resume_arithmetic(None);
                                Outcome { effects: done, request: Request::Continue }
                            }
                        },
                        None => {
                            let m = concat_lit(&concat(&lit("Runtime Error: Stack '"), &stack), "' is empty");
                            effects.push(Effect::Stderr(m));
                            assert(effects.deep_view() =~= seq![EffectV::Stderr(stack_empty(stack@))]);
                            Outcome { effects, request: Request::Continue }
                        },
                    }
                } else {
                    let m = concat_lit(&concat(&lit("Runtime Error: Stack '"), &stack), "' not found");
                    effects.push(Effect::Stderr(m));
                    assert(effects.deep_view() =~= seq![EffectV::Stderr(stack_missing(stack@))]);
                    Outcome { effects, request: Request::Continue }
                }
            },
        }
    }

    /// One round of resolving references in `text` (see `interp_step`).
    pub fn interpolate_once(&self, text: &String) -> (r: Option<String>)
        requires
            self.wf(),
        ensures
            r matches Some(t) ==> interp_step(self@.dialect, self@.stacks, text@) == Some(t@),
            r is None ==> interp_step(self@.dialect, self@.stacks, text@) is None,
    {
        let tc = to_chars(text.as_str());
        proof {
            lemma_first_index(tc@, '@');
        }
        match find_char(tc.as_slice(), '@') {
            None => None,
            Some(start) => {
                let n = tc.len();
                let rest = slice_chars(tc.as_slice(), start + 1, n);
                assert(rest@ =~= tc@.skip(start as int + 1));
                proof {
                    lemma_first_index(rest@, '@');
                }
                match find_char(rest.as_slice(), '@') {
                    None => None,
                    Some(j) => {
                        let name_chars = slice_chars(rest.as_slice(), 0, j);
                        assert(name_chars@ =~= rest@.take(j as int));
                        let name = chars_to_string(&name_chars);
                        if self.dialect == Dialect::V4 {
                            if j == 0 {
                                None
                            } else {
                                let val = match self.get_stack_top(&name) {
                                    Some(v) => v,
                                    None => lit("(undefined)"),
                                };
                                let head = chars_to_string(&slice_chars(tc.as_slice(), 0, start));
                                let tail = chars_to_string(&slice_chars(rest.as_slice(), j + 1, rest.len()));
                                assert(head@ =~= tc@.take(start as int));
                                assert(tail@ =~= rest@.skip(j as int + 1));
                                Some(concat(&concat(&head, &val), &tail))
                            }
                        } else {
                            let val = match self.get_stack_top(&name) {
                                Some(v) => v,
                                None => String::new(),
                            };
                            let pat = concat_lit(&concat(&lit("@"), &name), "@");
                            let pc = to_chars(pat.as_str());
                            let vc = to_chars(val.as_str());
                            let out = replace_chars(tc.as_slice(), pc.as_slice(), vc.as_slice());
                            Some(chars_to_string(&out))
                        }
                    },
                }
            },
        }
    }

    /// The number of instructions of the body run by frame `func`.
    fn body_len(&self, func: Option<usize>) -> (n: usize)
        requires
            self.wf(),
            func matches Some(i) ==> i < self.program.functions.size(),
        ensures
            n == self.body_of(func).len(),
    {
        match func {
            None => self.program.instructions.len(),
            Some(i) => self.program.functions.value(i).len(),
        }
    }

    /// A copy of instruction `pc` of the body run by frame `func`.
    fn instruction_at(&self, func: Option<usize>, pc: usize) -> (r: Instruction)
        requires
            self.wf(),
            func matches Some(i) ==> i < self.program.functions.size(),
            pc < self.body_of(func).len(),
        ensures
            r.deep_view() == self.body_of(func)[pc as int],
    {
        match func {
            None => copy_instruction(&self.program.instructions[pc]),
            Some(i) => copy_instruction(&self.program.functions.value(i)[pc]),
        }
    }

    /// Runs one step (see `step_spec`): the text it writes and what it needs next.
    pub fn step(&mut self) -> (o: Outcome)
        requires
            old(self).wf(),
        ensures
            final(self).wf(),
            (final(self)@, o.effects.deep_view(), o.request.deep_view()) == step_spec(old(self)@),
    {
        let mut effects: Vec<Effect> = Vec::new();
        assert(effects.deep_view() =~= Seq::<EffectV>::empty());
        let mut mode = Mode::Ready;
        std::mem::swap(&mut mode, &mut self.mode);
        match mode {
            Mode::Interpolating(t) => {
                self.mode = Mode::Interpolating(copy_string(&t));
                assert(self@.frames =~= old(self)@.frames);
                assert(self@ == old(self)@);
                match self.interpolate_once(&t) {
                    Some(t2) => {
                        self.mode = Mode::Interpolating(t2);
                        assert(self@.frames =~= old(self)@.frames);
                        Outcome { effects, request: Request::Continue }
                    },
                    None => {
                        let out = if self.dialect == Dialect::V4 {
                            concat_lit(&t, " ")
                        } else {
                            self.named_output(&t)
                        };
                        self.mode = Mode::Ready;
                        assert(self@.frames =~= old(self)@.frames);
                        effects.push(Effect::Stdout(out));
                        assert(effects.deep_view() =~= seq![EffectV::Stdout(interp_done(old(self)@.dialect, old(self)@.stacks, t@))]);
                        Outcome { effects, request: Request::Continue }
                    },
                }
            },
            Mode::AwaitCompare { left, right, op, target } => {
                let l = copy_string(&left);
                let r = copy_string(&right);
                self.mode = Mode::AwaitCompare { left, right, op, target };
                assert(self@.frames =~= old(self)@.frames);
                Outcome { effects, request: Request::Compare { left: l, right: r, op } }
            },
            Mode::AwaitArith { stack, left, right, operator } => {
                let l = copy_string(&left);
                let r = copy_string(&right);
                self.mode = Mode::AwaitArith { stack, left, right, operator };
                assert(self@.frames =~= old(self)@.frames);
                Outcome { effects, request: Request::Arithmetic { left: l, right: r, operator } }
            },
            Mode::Ready => {
                assert(self@.frames =~= old(self)@.frames);
                if self.frames.len() == 0 {
                    return Outcome { effects, request: Request::Finished };
                }
                let f = self.frames.pop().unwrap();
                let ghost fv = old(self)@.frames;
                proof {
                    assert(self.frames@ =~= old(self).frames@.drop_last());
                }
                let len = self.body_len(f.func);
                if f.pc >= len {
                    assert(self@.frames =~= fv.drop_last());
                    Outcome { effects, request: Request::Continue }
                } else {
                    let instr = self.instruction_at(f.func, f.pc);
                    self.frames.push(Frame { func: f.func, pc: f.pc + 1 });
                    assert(self@.frames =~= fv.update(fv.len() - 1, FrameV { body: fv.last().body, pc: fv.last().pc + 1 }));
                    self.exec_instr(instr)
                }
            },
        }
    }

    /// Answers an awaited jump condition (see `resume_compare_spec`); `numeric` is the
    /// outcome of comparing the two sides as numbers, and `None` compares them as texts.
    pub fn resume_compare(&mut self, numeric: Option<bool>) -> (effects: Vec<Effect>)
        requires
            old(self).wf(),
        ensures
            final(self).wf(),
            (final(self)@, effects.deep_view()) == resume_compare_spec(old(self)@, numeric),
    {
        let mut effects: Vec<Effect> = Vec::new();
        assert(effects.deep_view() =~= Seq::<EffectV>::empty());
        let mut mode = Mode::Ready;
        std::mem::swap(&mut mode, &mut self.mode);
        match mode {
            Mode::AwaitCompare { left, right, op, target } => {
                let lc = to_chars(left.as_str());
                let rc = to_chars(right.as_str());
                if compare(lc.as_slice(), rc.as_slice(), op, numeric) {
                    let ghost fv0 = old(self)@.frames;
                    if self.dialect == Dialect::V5 && self.frames.len() > 0 {
                        let f = self.frames.pop().unwrap();
                        let len = self.body_len(f.func);
                        self.frames.push(Frame { func: f.func, pc: len });
                        assert(self@.frames =~= fv0.update(fv0.len() - 1, FrameV { body: fv0.last().body, pc: fv0.last().body.len() }));
                    } else {
                        assert(self@.frames =~= fv0);
                    }
                    let ghost fv1 = self@.frames;
                    match self.program.functions.find(&target) {
                        Some(i) => {
                            proof {
                                self.program.functions.lemma_entry(i as int);
                            }
                            self.frames.push(Frame { func: Some(i), pc: 0 });
                            assert(self@.frames =~= fv1.push(FrameV { body: old(self)@.program.functions[target@], pc: 0 }));
                        },
                        None => {
                            let m = concat_lit(&concat(&lit("Runtime Error: Jump target function '"), &target), "' not defined");
                            effects.push(Effect::Stderr(m));
                            assert(effects.deep_view() =~= seq![EffectV::Stderr(target_missing(target@))]);
                        },
                    }
                } else {
                    assert(self@.frames =~= old(self)@.frames);
                }
                effects
            },
            other => {
                self.mode = other;
                assert(self@.frames =~= old(self)@.frames);
                assert(self@ == old(self)@);
                effects
            },
        }
    }

    /// Answers awaited arithmetic (see `resume_arith_spec`); `result` is the text of the
    /// result, and `None` refuses the operands as not numbers.
    pub fn resume_arithmetic(&mut self, result: Option<String>) -> (effects: Vec<Effect>)
        requires
            old(self).wf(),
        ensures
            final(self).wf(),
            (final(self)@, effects.deep_view()) == resume_arith_spec(old(self)@, match result {
                Some(r) => Some(r@),
                None => None,
            }),
    {
        let mut effects: Vec<Effect> = Vec::new();
        assert(effects.deep_view() =~= Seq::<EffectV>::empty());
        let mut mode = Mode::Ready;
        std::mem::swap(&mut mode, &mut self.mode);
        match mode {
            Mode::AwaitArith { stack, left, right, operator } => {
                assert(self@.frames =~= old(self)@.frames);
                match result {
                    Some(r) => {
                        if self.stacks.contains(&stack) {
                            self.push_on(&stack, r);
                        }
                    },
                    None => {
                        effects.push(Effect::Stderr(lit("Runtime Error: Cannot perform arithmetic on non-numeric values")));
                        assert(effects.deep_view() =~= seq![EffectV::Stderr(non_numeric())]);
                    },
                }
                effects
            },
            other => {
                self.mode = other;
                assert(self@.frames =~= old(self)@.frames);
                assert(self@ == old(self)@);
                effects
            },
        }
    }
}

} // verus!
