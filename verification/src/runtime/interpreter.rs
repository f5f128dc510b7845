//! The interpreter: it registers a script's classes and functions, then runs its `Main`
//! function one line at a time, calling functions and catching errors.
use vstd::prelude::*;
use std::sync::Arc;
use crate::config::QuernConfig;
use crate::logging::Logger;
use crate::table::Table;
use crate::text::{
    to_chars, trim, trim_chars, starts_with, chars_start_with, string_of, slice_chars, lit,
    copy_string, spec_lines, split_lines, decimal, decimal_string,
};
use crate::runtime::value::{
    QuernValue, ValueV, AccessLevel, Failure, FailureV, ClassTemplate, ClassV, FunctionDef,
    FunctionV,
};
use crate::runtime::context::ExecutionContext;
use crate::runtime::literal::{literal_spec, parse_literal};
use crate::runtime::scan::leftmost;
use crate::runtime::grammar::{main_spec, find_main, class_at, next_class, function_at, next_function};
use crate::runtime::words::{
    split_on, split_chars, nonempty_trimmed, trimmed_fields, words, split_words, has_text,
    contains_text,
};
use crate::runtime::statement::{Output, OutputV, LineOutcome, LineOutcomeV, line_effect, warn_line};

verus! {

broadcast use vstd::string::group_string_axioms;

/// A function being run: its name, its lines, and the position of the line to run next.
pub struct Frame {
    pub name: String,
    pub lines: Vec<String>,
    pub next: usize,
}

/// A running function seen as values.
pub struct FrameV {
    pub name: Seq<char>,
    pub lines: Seq<Seq<char>>,
    pub next: int,
}

impl View for Frame {
    type V = FrameV;

    open spec fn view(&self) -> FrameV {
        FrameV { name: self.name@, lines: self.lines.deep_view(), next: self.next as int }
    }
}

/// Where a run stands after a step.
pub enum Status {
    /// There are lines left to run.
    Running,
    /// `Main` has returned.
    Finished,
    /// The run failed with this message.
    Failed(String),
    /// The interpreter panics with this message.
    Fault(String),
}

/// Where a run stands, seen as values.
pub enum StatusV {
    Running,
    Finished,
    Failed(Seq<char>),
    Fault(Seq<char>),
}

impl View for Status {
    type V = StatusV;

    open spec fn view(&self) -> StatusV {
        match self {
            Status::Running => StatusV::Running,
            Status::Finished => StatusV::Finished,
            Status::Failed(e) => StatusV::Failed(e@),
            Status::Fault(e) => StatusV::Fault(e@),
        }
    }
}

/// What one step logged, and where the run stands after it.
pub struct Step {
    pub output: Option<Output>,
    pub status: Status,
}

/// The interpreter of Quern scripts.
pub struct Interpreter {
    ctx: ExecutionContext,
    frames: Vec<Frame>,
}

/// The variables that the lines of a class body define: each trimmed line that starts with
/// `Data.Var`, holds an `=` and has at least four words defines its third word as the
/// value of the literal after the first `=`; the first failure stops the reading.
pub open spec fn class_vars(ctx: &ExecutionContext, lines: Seq<Seq<char>>) -> Result<Map<Seq<char>, ValueV>, FailureV>
    decreases lines.len(),
{
    if lines.len() == 0 {
        Ok(Map::empty())
    } else {
        match class_vars(ctx, lines.drop_last()) {
            Err(f) => Err(f),
            Ok(m) => {
                let t = trim(lines.last());
                let parts = split_on(t, '=');
                let ws = words(t);
                if starts_with(t, "Data.Var"@) && parts.len() >= 2 && ws.len() >= 4 {
                    match literal_spec(ctx, trim(parts[1])) {
                        Err(f) => Err(f),
                        Ok(v) => Ok(m.insert(ws[2], v)),
                    }
                } else {
                    Ok(m)
                }
            },
        }
    }
}

/// The classes of `s` from `from` on put over `base`, each found by a leftmost search from
/// where the one before ended, and the failure that stopped the registration, if any.
pub open spec fn class_defs(ctx: &ExecutionContext, s: Seq<char>, from: int, base: Map<Seq<char>, ClassV>) -> (
    Map<Seq<char>, ClassV>,
    Option<FailureV>,
)
    decreases s.len() - from,
{
    match leftmost(s, from, |p: int| class_at(s, p)) {
        None => (base, None),
        Some((_, x)) => if from < x.3 + 1 <= s.len() {
            match class_vars(ctx, spec_lines(s.subrange(x.2, x.3))) {
                Err(f) => (base, Some(f)),
                Ok(vars) => class_defs(
                    ctx,
                    s,
                    x.3 + 1,
                    base.insert(
                        s.subrange(x.0, x.1),
                        ClassV { name: s.subrange(x.0, x.1), variables: vars, lists: Map::empty(), dicts: Map::empty() },
                    ),
                ),
            }
        } else {
            (base, None)
        },
    }
}

/// The function that the match `x` of the function pattern in `s` defines: its name, its
/// parameters (split at `,`, trimmed, empty ones left out), its body lines (trimmed, empty
/// ones left out) and its access, `Private` when its block holds that word.
pub open spec fn function_of(s: Seq<char>, x: (int, int, int, int, int, int)) -> FunctionV {
    let block = s.subrange(x.4, x.5);
    FunctionV {
        name: s.subrange(x.0, x.1),
        params: nonempty_trimmed(split_on(s.subrange(x.2, x.3), ',')),
        body: nonempty_trimmed(spec_lines(s.subrange(x.4 + 1, x.5 - 1))),
        access: if has_text(block, "(Private)"@) || has_text(block, "Private"@) {
            AccessLevel::Private
        } else {
            AccessLevel::Public
        },
    }
}

/// The functions of `s` from `from` on put over `base`, each found by a leftmost search
/// from where the one before ended; `Main` is left out.
pub open spec fn function_defs(s: Seq<char>, from: int, base: Map<Seq<char>, FunctionV>) -> Map<Seq<char>, FunctionV>
    decreases s.len() - from,
{
    match leftmost(s, from, |p: int| function_at(s, p)) {
        None => base,
        Some((_, x)) => if from < x.5 <= s.len() {
            let name = s.subrange(x.0, x.1);
            function_defs(s, x.5, if name == "Main"@ { base } else { base.insert(name, function_of(s, x)) })
        } else {
            base
        },
    }
}

/// The `Main` function of `s`, if it has one: its parameters and its body lines.
pub open spec fn main_function(s: Seq<char>) -> Option<FunctionV> {
    match main_spec(s) {
        Some((a, b, c, d)) => Some(
            FunctionV {
                name: "Main"@,
                params: nonempty_trimmed(split_on(s.subrange(a, b), ',')),
                body: nonempty_trimmed(spec_lines(s.subrange(c, d))),
                access: AccessLevel::Public,
            },
        ),
        None => None,
    }
}

/// The first line at or after `i` that starts with `Catch`.
pub open spec fn catch_from(lines: Seq<Seq<char>>, i: int) -> Option<int>
    decreases lines.len() - i,
{
    if i < 0 || i >= lines.len() {
        None
    } else if starts_with(lines[i], "Catch"@) {
        Some(i)
    } else {
        catch_from(lines, i + 1)
    }
}

/// The message of an error that leaves the function `name` at line `next + 1`.
pub open spec fn panic_message(name: Seq<char>, next: int, msg: Seq<char>) -> Seq<char> {
    "Panic in "@ + name + " at line "@ + decimal((next + 1) as nat) + ": "@ + msg
}

/// The message of an error caught in the function `name`.
pub open spec fn caught_message(name: Seq<char>, msg: Seq<char>) -> Seq<char> {
    "Caught error in "@ + name + ": "@ + msg
}

/// An error `msg` raised in the innermost of the running functions `fs`: the innermost
/// function that has a `Catch` line at or after its current line resumes after that line,
/// and every function inside it returns the error, prefixed with where it left. Gives the
/// functions left running, the caught message if one caught it, and the failure of the
/// whole run if none did.
pub open spec fn unwind(fs: Seq<FrameV>, msg: Seq<char>) -> (Seq<FrameV>, Option<Seq<char>>, Option<Seq<char>>)
    decreases fs.len(),
{
    if fs.len() == 0 {
        (fs, None, Some(msg))
    } else {
        let f = fs.last();
        match catch_from(f.lines, f.next) {
            Some(j) => (
                fs.update(fs.len() - 1, FrameV { name: f.name, lines: f.lines, next: j + 1 }),
                Some(caught_message(f.name, msg)),
                None,
            ),
            None => if fs.len() == 1 {
                (Seq::empty(), None, Some(panic_message(f.name, f.next, msg)))
            } else {
                unwind(fs.drop_last(), panic_message(f.name, f.next, msg))
            },
        }
    }
}

/// `post` is `pre` with only its call stack changed.
pub open spec fn same_but_stack(pre: &ExecutionContext, post: &ExecutionContext) -> bool {
    &&& post.variables == pre.variables
    &&& post.lists == pre.lists
    &&& post.dicts == pre.dicts
    &&& post.classes == pre.classes
    &&& post.functions == pre.functions
    &&& post.aliases == pre.aliases
    &&& post.logger == pre.logger
    &&& post.trace == pre.trace
    &&& post.config == pre.config
}

/// What happens after a line of the innermost of the running functions `fs` came to `o`,
/// with the scope `mid` after the line: `post` is the interpreter after the step and `r`
/// its output and status.
pub open spec fn after_line(
    mid: &ExecutionContext,
    fs: Seq<FrameV>,
    o: LineOutcomeV,
    post: &Interpreter,
    out: Option<OutputV>,
    status: StatusV,
) -> bool {
    let f = fs.last();
    match o {
        LineOutcomeV::Done(x) => {
            &&& out == x
            &&& status == StatusV::Running
            &&& post.context() == *mid
            &&& post.frames_view() == fs.update(fs.len() - 1, FrameV { name: f.name, lines: f.lines, next: f.next + 1 })
        },
        LineOutcomeV::Call(i) => {
            &&& out is None
            &&& status == StatusV::Running
            &&& same_but_stack(mid, &post.context())
            &&& post.frames_view() == fs.push(
                FrameV { name: mid.functions.key_at(i), lines: mid.functions.value_at(i).body, next: 0 },
            )
        },
        LineOutcomeV::Error(e) => {
            let (left, caught, failure) = unwind(fs, e);
            &&& same_but_stack(mid, &post.context())
            &&& post.frames_view() == left
            &&& match caught {
                Some(m) => out == Some(OutputV::Warn(warn_line(mid, m))) && status == StatusV::Running,
                None => out is None && status == StatusV::Failed(failure->0),
            }
        },
        LineOutcomeV::Fault(e) => out is None && status == StatusV::Fault(e),
    }
}

/// The logged line of a step, seen as text.
pub open spec fn output_view(o: Option<Output>) -> Option<OutputV> {
    match o {
        Some(x) => Some(x@),
        None => None,
    }
}

/// `post` is `pre` with its classes and functions changed, and maybe its call stack.
pub open spec fn same_but_definitions(pre: &ExecutionContext, post: &ExecutionContext) -> bool {
    &&& post.variables == pre.variables
    &&& post.lists == pre.lists
    &&& post.dicts == pre.dicts
    &&& post.aliases == pre.aliases
    &&& post.logger == pre.logger
    &&& post.trace == pre.trace
    &&& post.config == pre.config
}

/// Reading a class body depends only on the variables and the call stack of the scope.
proof fn lemma_class_vars_same(a: &ExecutionContext, b: &ExecutionContext, lines: Seq<Seq<char>>)
    requires
        a.variables == b.variables,
        a.call_stack == b.call_stack,
    ensures
        class_vars(a, lines) == class_vars(b, lines),
    decreases lines.len(),
{
    if lines.len() > 0 {
        lemma_class_vars_same(a, b, lines.drop_last());
        let t = trim(lines.last());
        assert(literal_spec(a, trim(split_on(t, '=')[1])) == literal_spec(b, trim(split_on(t, '=')[1])));
    }
}

/// Once the lines read so far failed, reading more lines fails the same way.
proof fn lemma_class_vars_failed(ctx: &ExecutionContext, ls: Seq<Seq<char>>, i: int)
    requires
        0 <= i <= ls.len(),
        class_vars(ctx, ls.take(i)) is Err,
    ensures
        class_vars(ctx, ls) == class_vars(ctx, ls.take(i)),
    decreases ls.len() - i,
{
    if i < ls.len() {
        assert(ls.take(i + 1).drop_last() =~= ls.take(i));
        lemma_class_vars_failed(ctx, ls, i + 1);
    } else {
        assert(ls.take(i) =~= ls);
    }
}

/// What one step of the interpreter `pre` does: `post` is the interpreter after it, `out`
/// what it logged and `status` where the run stands. With nothing running the run has
/// finished. When the innermost function is past its last line it returns: the function
/// that called it goes on after the call. Else its current line runs (see `line_effect`),
/// and `after_line` says what follows.
pub open spec fn step_effect(pre: &Interpreter, post: &Interpreter, out: Option<OutputV>, status: StatusV) -> bool {
    let fs = pre.frames_view();
    if fs.len() == 0 {
        out is None && status == StatusV::Finished && *post == *pre
    } else {
        let f = fs.last();
        if f.next >= f.lines.len() {
            let rest = fs.drop_last();
            &&& out is None
            &&& same_but_stack(&pre.context(), &post.context())
            &&& if rest.len() == 0 {
                post.frames_view() == rest && status == StatusV::Finished
            } else {
                &&& post.frames_view() == rest.update(
                    rest.len() - 1,
                    FrameV { name: rest.last().name, lines: rest.last().lines, next: rest.last().next + 1 },
                )
                &&& status == StatusV::Running
            }
        } else {
            exists|mid: ExecutionContext, o: LineOutcomeV|
                #![trigger line_effect(&pre.context(), &mid, f.lines[f.next], o)]
                line_effect(&pre.context(), &mid, f.lines[f.next], o) && after_line(&mid, fs, o, post, out, status)
        }
    }
}

/// A copy of a list of strings.
fn copy_strings(v: &Vec<String>) -> (r: Vec<String>)
    ensures
        r.deep_view() == v.deep_view(),
{
    let mut r: Vec<String> = Vec::new();
    let mut i: usize = 0;
    while i < v.len()
        invariant
            i <= v@.len(),
            r@.len() == i,
            forall|k: int| 0 <= k < i ==> #[trigger] r@[k]@ == v@[k]@,
        decreases v@.len() - i,
    {
        r.push(copy_string(&v[i]));
        i = i + 1;
    }
    assert(r.deep_view() =~= v.deep_view());
    r
}

/// The first line at or after `i` that starts with `Catch` (see `catch_from`).
fn catch_index(lines: &Vec<String>, i: usize) -> (r: Option<usize>)
    ensures
        r matches Some(j) ==> catch_from(lines.deep_view(), i as int) == Some(j as int) && i <= j < lines@.len(),
        r is None ==> catch_from(lines.deep_view(), i as int) is None,
{
    let n = lines.len();
    let kw = to_chars("Catch");
    let mut j = i;
    while j < n
        invariant
            n == lines@.len(),
            i <= j,
            kw@ == "Catch"@,
            catch_from(lines.deep_view(), i as int) == catch_from(lines.deep_view(), j as int),
        decreases n - j,
    {
        let l = to_chars(lines[j].as_str());
        if chars_start_with(l.as_slice(), kw.as_slice()) {
            return Some(j);
        }
        j = j + 1;
    }
    None
}

/// The variables that a class body defines (see `class_vars`).
fn class_variables(ctx: &ExecutionContext, body: &[char]) -> (r: Result<Table<QuernValue>, Failure>)
    requires
        ctx.wf(),
    ensures
        r matches Ok(t) ==> t.wf() && class_vars(ctx, spec_lines(body@)) == Ok::<Map<Seq<char>, ValueV>, FailureV>(t@),
        r matches Err(f) ==> class_vars(ctx, spec_lines(body@)) == Err::<Map<Seq<char>, ValueV>, FailureV>(f@),
{
    let lines = split_lines(body);
    let ghost lv = spec_lines(body@);
    let mut vars: Table<QuernValue> = Table::new();
    let mut i: usize = 0;
    assert(lv.take(0) =~= Seq::<Seq<char>>::empty());
    while i < lines.len()
        invariant
            ctx.wf(),
            vars.wf(),
            i <= lines@.len(),
            lines@.len() == lv.len(),
            lv == spec_lines(body@),
            forall|k: int| 0 <= k < lv.len() ==> #[trigger] lines@[k]@ == lv[k],
            class_vars(ctx, lv.take(i as int)) == Ok::<Map<Seq<char>, ValueV>, FailureV>(vars@),
        decreases lines@.len() - i,
    {
        proof {
            assert(lv.take(i + 1).drop_last() =~= lv.take(i as int));
            assert(lv.take(i + 1).last() == lv[i as int]);
        }
        let t = trim_chars(lines[i].as_slice());
        if chars_start_with(t.as_slice(), to_chars("Data.Var").as_slice()) {
            let parts = split_chars(t.as_slice(), '=');
            if parts.len() >= 2 {
                let ws = split_words(t.as_slice());
                if ws.len() >= 4 {
                    let val = trim_chars(parts[1].as_slice());
                    match parse_literal(ctx, val.as_slice()) {
                        Err(f) => {
                            proof {
                                assert(class_vars(ctx, lv.take(i + 1)) == Err::<Map<Seq<char>, ValueV>, FailureV>(f@));
                                lemma_class_vars_failed(ctx, lv, i + 1);
                            }
                            return Err(f);
                        },
                        Ok(v) => {
                            vars.insert(string_of(ws[2].as_slice()), v);
                        },
                    }
                }
            }
        }
        i = i + 1;
    }
    assert(lv.take(lines@.len() as int) =~= lv);
    Ok(vars)
}

/// The `Main` function of a script (see `main_function`); a script without one is an error.
pub fn extract_main_function(content: &[char]) -> (r: Result<FunctionDef, String>)
    ensures
        r matches Ok(f) ==> main_function(content@) == Some(f.deep_view()),
        r matches Err(e) ==> main_function(content@) is None && e@ == "No Main function found"@,
{
    match find_main(content) {
        None => Err(lit("No Main function found")),
        Some((a, b, c, d)) => {
            let params_c = slice_chars(content, a, b);
            let params = trimmed_fields(&split_chars(params_c.as_slice(), ','), Ghost(split_on(params_c@, ',')));
            let body_c = slice_chars(content, c, d);
            let body = trimmed_fields(&split_lines(body_c.as_slice()), Ghost(spec_lines(body_c@)));
            let f = FunctionDef { name: lit("Main"), params, body, access: AccessLevel::Public };
            assert(f.params.deep_view() =~= nonempty_trimmed(split_on(params_c@, ',')));
            assert(f.body.deep_view() =~= nonempty_trimmed(spec_lines(body_c@)));
            Ok(f)
        },
    }
}

impl Interpreter {
    /// The running functions seen as values, innermost last.
    pub closed spec fn frames_view(&self) -> Seq<FrameV> {
        Seq::new(self.frames@.len(), |i: int| self.frames@[i]@)
    }

    /// The scope the script runs in.
    pub closed spec fn context(&self) -> ExecutionContext {
        self.ctx
    }

    /// The scope is well formed, the call stack names the running functions, and each
    /// running function stands at a line of its own, the innermost possibly just past its
    /// last line.
    pub closed spec fn wf(&self) -> bool {
        &&& self.ctx.wf()
        &&& self.ctx.call_stack@.len() == self.frames@.len()
        &&& forall|i: int| 0 <= i < self.frames@.len() ==> #[trigger] self.ctx.call_stack@[i]@ == self.frames@[i].name@
        &&& forall|i: int| 0 <= i < self.frames@.len() ==> #[trigger] self.frames@[i].next <= self.frames@[i].lines@.len()
        &&& forall|i: int| 0 <= i < self.frames@.len() - 1 ==> #[trigger] self.frames@[i].next < self.frames@[i].lines@.len()
    }

    /// An interpreter with a fresh scope, logging as `config` says, and nothing running.
    pub fn new(config: Arc<QuernConfig>) -> (r: Self)
        ensures
            r.wf(),
            r.frames_view().len() == 0,
            r.context().variables@ == Map::<Seq<char>, crate::runtime::context::VarV>::empty(),
            r.context().lists@ == Map::<Seq<char>, Seq<ValueV>>::empty(),
            r.context().dicts@ == Map::<Seq<char>, Map<Seq<char>, ValueV>>::empty(),
            r.context().classes@ == Map::<Seq<char>, ClassV>::empty(),
            r.context().functions@ == Map::<Seq<char>, FunctionV>::empty(),
            r.context().functions.size() == 0,
            r.context().aliases@ == Map::<Seq<char>, Seq<char>>::empty(),
            r.context().call_stack@.len() == 0,
            r.context().config == config,
            r.context().logger.shows_trace() == config.logging.output_trace_id,
            crate::logging::is_v4_uuid_text(r.context().trace.trace_id@),
            crate::logging::is_timestamp_text(r.context().trace.timestamp@),
    {
        let logger = Arc::new(Logger::new(config.logging.duplicate()));
        let ctx = ExecutionContext::new(logger, config);
        let r = Interpreter { ctx, frames: Vec::new() };
        r
    }

    /// The scope the script runs in.
    pub fn ctx(&self) -> (r: &ExecutionContext)
        ensures
            *r == self.context(),
    {
        &self.ctx
    }
}

impl Interpreter {
    /// Registers the classes of `content` (see `class_defs`), then, when none failed, its
    /// functions (see `function_defs`).
    fn register_global_definitions(&mut self, content: &[char]) -> (r: Result<(), Failure>)
        requires
            old(self).wf(),
        ensures
            final(self).wf(),
            final(self).frames == old(self).frames,
            final(self).ctx.call_stack == old(self).ctx.call_stack,
            same_but_definitions(&old(self).ctx, &final(self).ctx),
            ({
                let (cm, cf) = class_defs(&old(self).ctx, content@, 0, old(self).ctx.classes@);
                &&& final(self).ctx.classes@ == cm
                &&& r is Ok <==> cf is None
                &&& r matches Err(f) ==> cf == Some(f@) && final(self).ctx.functions == old(self).ctx.functions
                &&& r is Ok ==> final(self).ctx.functions@ == function_defs(content@, 0, old(self).ctx.functions@)
            }),
    {
        let ghost ctx0 = self.ctx;
        let ghost frames0 = self.frames;
        let n = content.len();
        let mut from: usize = 0;
        let mut next = next_class(content, 0);
        while next.is_some()
            invariant
                self.wf(),
                from <= n == content@.len(),
                frames0 == old(self).frames,
                ctx0 == old(self).ctx,
                self.frames == frames0,
                self.ctx.call_stack == ctx0.call_stack,
                self.ctx.functions == ctx0.functions,
                same_but_definitions(&ctx0, &self.ctx),
                class_defs(&ctx0, content@, 0, ctx0.classes@) == class_defs(&ctx0, content@, from as int, self.ctx.classes@),
                next matches Some((a, b, c, d)) ==> leftmost(content@, from as int, |p: int| class_at(content@, p)) matches Some((
                    _,
                    x,
                )) && x == (a as int, b as int, c as int, d as int) && from <= a <= b < c <= d < content@.len(),
                next is None ==> leftmost(content@, from as int, |p: int| class_at(content@, p)) is None,
            decreases n - from,
        {
            let (a, b, c, d) = match next {
                Some(x) => x,
                None => (0, 0, 0, 0),
            };
            let body = slice_chars(content, c, d);
            proof {
                lemma_class_vars_same(&self.ctx, &ctx0, spec_lines(body@));
            }
            match class_variables(&self.ctx, body.as_slice()) {
                Err(f) => {
                    return Err(f);
                },
                Ok(vars) => {
                    let name = string_of(slice_chars(content, a, b).as_slice());
                    let key = copy_string(&name);
                    let tpl = ClassTemplate { name, variables: vars, lists: Table::new(), dicts: Table::new() };
                    assert(tpl.deep_view().lists =~= Map::<Seq<char>, Seq<ValueV>>::empty());
                    assert(tpl.deep_view().dicts =~= Map::<Seq<char>, Map<Seq<char>, ValueV>>::empty());
                    let ghost tv = tpl;
                    self.ctx.classes.insert(key, tpl);
                    proof {
                        assert forall|i: int| 0 <= i < self.ctx.classes.size() implies (#[trigger] self.ctx.classes.item_at(i)).wf() by {
                            if self.ctx.classes.item_at(i) != tv {
                                let j = choose|j: int| 0 <= j < old(self).ctx.classes.size() && self.ctx.classes.item_at(i) == old(self).ctx.classes.item_at(j);
                            }
                        }
                    }
                },
            }
            from = d + 1;
            next = next_class(content, from);
        }
        let ghost cm = self.ctx.classes@;
        let mut from: usize = 0;
        let mut next = next_function(content, 0);
        while next.is_some()
            invariant
                self.wf(),
                from <= n == content@.len(),
                frames0 == old(self).frames,
                ctx0 == old(self).ctx,
                self.frames == frames0,
                self.ctx.call_stack == ctx0.call_stack,
                self.ctx.classes@ == cm,
                same_but_definitions(&ctx0, &self.ctx),
                function_defs(content@, 0, ctx0.functions@) == function_defs(content@, from as int, self.ctx.functions@),
                next matches Some((a, b, c, d, e, f)) ==> leftmost(content@, from as int, |p: int| function_at(content@, p)) matches Some((
                    _,
                    x,
                )) && x == (a as int, b as int, c as int, d as int, e as int, f as int) && from <= a <= b < c <= d
                    <= e < f <= content@.len() && e + 2 <= f,
                next is None ==> leftmost(content@, from as int, |p: int| function_at(content@, p)) is None,
            decreases n - from,
        {
            let (a, b, c, d, e, f) = match next {
                Some(x) => x,
                None => (0, 0, 0, 0, 0, 2),
            };
            let name_c = slice_chars(content, a, b);
            let name = string_of(name_c.as_slice());
            if !crate::text::string_is(&name, "Main") {
                let params_c = slice_chars(content, c, d);
                let params = trimmed_fields(&split_chars(params_c.as_slice(), ','), Ghost(split_on(params_c@, ',')));
                let block = slice_chars(content, e, f);
                let inner = slice_chars(content, e + 1, f - 1);
                let body = trimmed_fields(&split_lines(inner.as_slice()), Ghost(spec_lines(inner@)));
                let private = contains_text(block.as_slice(), to_chars("(Private)").as_slice())
                    || contains_text(block.as_slice(), to_chars("Private").as_slice());
                let access = if private { AccessLevel::Private } else { AccessLevel::Public };
                let key = copy_string(&name);
                let def = FunctionDef { name, params, body, access };
                proof {
                    let x = (a as int, b as int, c as int, d as int, e as int, f as int);
                    assert(def.params.deep_view() =~= function_of(content@, x).params);
                    assert(def.body.deep_view() =~= function_of(content@, x).body);
                    assert(def.deep_view() == function_of(content@, x));
                }
                self.ctx.functions.insert(key, def);
            }
            from = f;
            next = next_function(content, from);
        }
        Ok(())
    }

    /// Loads a script whose imports were already put in place: finds its `Main` function,
    /// registers its classes and functions, and gets `Main` ready to run. A script without
    /// `Main` is an error and changes nothing; a failure while registering stops there.
    pub fn start(&mut self, content: &str) -> (r: Result<(), Failure>)
        requires
            old(self).wf(),
            old(self).frames_view().len() == 0,
        ensures
            final(self).wf(),
            main_function(content@) is None ==> (r matches Err(f) && f@ == FailureV::Error("No Main function found"@)
                && *final(self) == *old(self)),
            main_function(content@) matches Some(m) ==> ({
                let (cm, cf) = class_defs(&old(self).context(), content@, 0, old(self).context().classes@);
                &&& same_but_definitions(&old(self).context(), &final(self).context())
                &&& final(self).context().classes@ == cm
                &&& r is Ok <==> cf is None
                &&& r matches Err(f) ==> cf == Some(f@) && final(self).context().functions == old(self).context().functions
                    && final(self).frames_view().len() == 0
                &&& r is Ok ==> final(self).context().functions@ == function_defs(content@, 0, old(self).context().functions@)
                    && final(self).frames_view() == seq![FrameV { name: "Main"@, lines: m.body, next: 0 }]
            }),
    {
        let s = to_chars(content);
        let main = match extract_main_function(s.as_slice()) {
            Ok(f) => f,
            Err(e) => {
                return Err(Failure::Error(e));
            },
        };
        match self.register_global_definitions(s.as_slice()) {
            Err(f) => {
                assert(self.frames_view() =~= old(self).frames_view());
                return Err(f);
            },
            Ok(()) => {},
        }
        self.ctx.call_stack.push(lit("Main"));
        let frame = Frame { name: lit("Main"), lines: main.body, next: 0 };
        self.frames.push(frame);
        proof {
            assert(self.frames_view() =~= seq![FrameV { name: "Main"@, lines: main.deep_view().body, next: 0 }]);
        }
        Ok(())
    }

    /// Handles the error `msg` raised in the innermost running function (see `unwind`).
    fn raise(&mut self, msg: String) -> (r: Step)
        requires
            old(self).wf(),
            old(self).frames@.len() > 0,
            forall|i: int| 0 <= i < old(self).frames@.len() ==> #[trigger] old(self).frames@[i].next < old(self).frames@[i].lines@.len(),
        ensures
            final(self).wf(),
            same_but_stack(&old(self).ctx, &final(self).ctx),
            final(self).frames_view() == unwind(old(self).frames_view(), msg@).0,
            unwind(old(self).frames_view(), msg@).1 matches Some(m) ==> output_view(r.output) == Some(
                OutputV::Warn(warn_line(&old(self).ctx, m)),
            ) && r.status@ == StatusV::Running,
            unwind(old(self).frames_view(), msg@).1 is None ==> r.output is None && r.status@ == StatusV::Failed(
                unwind(old(self).frames_view(), msg@).2->0,
            ),
    {
        let ghost fs0 = self.frames_view();
        let ghost ctx0 = self.ctx;
        let ghost msg0 = msg@;
        let mut msg = msg;
        #[verifier::loop_isolation(false)]
        loop
            invariant
                self.wf(),
                self.frames@.len() > 0,
                forall|i: int| 0 <= i < self.frames@.len() ==> #[trigger] self.frames@[i].next < self.frames@[i].lines@.len(),
                ctx0 == old(self).ctx,
                fs0 == old(self).frames_view(),
                same_but_stack(&ctx0, &self.ctx),
                unwind(fs0, msg0) == unwind(self.frames_view(), msg@),
            decreases self.frames@.len(),
        {
            let top = self.frames.len() - 1;
            let len = self.frames[top].lines.len();
            let ghost before = self.frames_view();
            match catch_index(&self.frames[top].lines, self.frames[top].next) {
                Some(j) => {
                    assert(j < len);
                    let mut text = lit("Caught error in ");
                    text.append(self.frames[top].name.as_str());
                    text.append(": ");
                    text.append(msg.as_str());
                    let out = Output::Warn(self.ctx.logger.warn(text.as_str(), &self.ctx.trace));
                    let mut f = self.frames.pop().unwrap();
                    f.next = j + 1;
                    self.frames.push(f);
                    proof {
                        let g = before.last();
                        assert(text@ == caught_message(g.name, msg@));
                        assert(self.frames_view() =~= unwind(before, msg@).0);
                    }
                    return Step { output: Some(out), status: Status::Running };
                },
                None => {
                    let f = self.frames.pop().unwrap();
                    let _ = self.ctx.call_stack.pop();
                    let mut m = lit("Panic in ");
                    m.append(f.name.as_str());
                    m.append(" at line ");
                    let line = decimal_string((f.next + 1) as u64);
                    m.append(line.as_str());
                    m.append(": ");
                    m.append(msg.as_str());
                    if self.frames.len() == 0 {
                        proof {
                            let g = before.last();
                            assert(m@ == panic_message(g.name, g.next, msg@));
                            assert(self.frames_view() =~= unwind(before, msg@).0);
                        }
                        return Step { output: None, status: Status::Failed(m) };
                    }
                    proof {
                        let g = before.last();
                        assert(m@ == panic_message(g.name, g.next, msg@));
                        assert(self.frames_view() =~= before.drop_last());
                    }
                    msg = m;
                },
            }
        }
    }

    /// Runs one step of the script (see `step_effect`).
    pub fn step(&mut self) -> (r: Step)
        requires
            old(self).wf(),
        ensures
            final(self).wf(),
            step_effect(old(self), final(self), output_view(r.output), r.status@),
    {
        let n = self.frames.len();
        if n == 0 {
            return Step { output: None, status: Status::Finished };
        }
        let top = n - 1;
        let next = self.frames[top].next;
        if next >= self.frames[top].lines.len() {
            let _ = self.frames.pop();
            let _ = self.ctx.call_stack.pop();
            if self.frames.len() == 0 {
                assert(self.frames_view() =~= old(self).frames_view().drop_last());
                return Step { output: None, status: Status::Finished };
            }
            let mut parent = self.frames.pop().unwrap();
            let plen = parent.lines.len();
            assert(parent.next < plen);
            parent.next = parent.next + 1;
            self.frames.push(parent);
            proof {
                let rest = old(self).frames_view().drop_last();
                assert(self.frames_view() =~= rest.update(
                    rest.len() - 1,
                    FrameV { name: rest.last().name, lines: rest.last().lines, next: rest.last().next + 1 },
                ));
            }
            return Step { output: None, status: Status::Running };
        }
        let line = to_chars(self.frames[top].lines[next].as_str());
        let o = self.ctx.execute_line(line.as_slice());
        let ghost mid = self.ctx;
        let ghost ov = o@;
        let ghost fs = old(self).frames_view();
        assert(line@ == fs.last().lines[fs.last().next]);
        match o {
            LineOutcome::Done(x) => {
                let mut f = self.frames.pop().unwrap();
                f.next = f.next + 1;
                self.frames.push(f);
                let r = Step { output: x, status: Status::Running };
                proof {
                    let g = fs.last();
                    assert(self.frames_view() =~= fs.update(fs.len() - 1, FrameV { name: g.name, lines: g.lines, next: g.next + 1 }));
                    assert(line_effect(&old(self).context(), &mid, g.lines[g.next], ov));
                    assert(after_line(&mid, fs, ov, self, output_view(r.output), r.status@));
                }
                r
            },
            LineOutcome::Call(i) => {
                proof {
                    crate::runtime::statement::lemma_first_fn(&old(self).ctx, trim(line@), 0);
                }
                let name = copy_string(self.ctx.functions.key(i));
                let body = copy_strings(&self.ctx.functions.value(i).body);
                self.ctx.call_stack.push(copy_string(&name));
                self.frames.push(Frame { name, lines: body, next: 0 });
                let r = Step { output: None, status: Status::Running };
                proof {
                    assert(self.frames_view() =~= fs.push(
                        FrameV { name: mid.functions.key_at(i as int), lines: mid.functions.value_at(i as int).body, next: 0 },
                    ));
                    assert(line_effect(&old(self).context(), &mid, fs.last().lines[fs.last().next], ov));
                    assert(after_line(&mid, fs, ov, self, output_view(r.output), r.status@));
                }
                r
            },
            LineOutcome::Error(e) => {
                let r = self.raise(e);
                proof {
                    assert(line_effect(&old(self).context(), &mid, fs.last().lines[fs.last().next], ov));
                    assert(after_line(&mid, fs, ov, self, output_view(r.output), r.status@));
                }
                r
            },
            LineOutcome::Fault(e) => {
                let r = Step { output: None, status: Status::Fault(e) };
                proof {
                    assert(line_effect(&old(self).context(), &mid, fs.last().lines[fs.last().next], ov));
                    assert(after_line(&mid, fs, ov, self, output_view(r.output), r.status@));
                }
                r
            },
        }
    }
}

} // verus!
