//! One line of a script: what each statement does to the scope and what it logs.
use vstd::prelude::*;
use crate::logging::log_text;
use crate::table::Table;
use crate::text::{
    to_chars, trim, trim_chars, starts_with, chars_start_with, string_of, slice_chars, lit,
};
use crate::qvm::interpolate::{first_index, find_char, lemma_first_index};
use crate::runtime::scan::{last_of, find_last, lemma_last_of};
use crate::runtime::value::{QuernValue, ValueV, AccessLevel, Failure, FailureV, shown};
use crate::runtime::context::{ExecutionContext, system_denied};
use crate::runtime::literal::{literal_spec, parse_literal};
use crate::runtime::grammar::{var_spec, find_var, struct_spec, find_struct};
use crate::runtime::words::{
    split_on, split_chars, has_text, contains_text, without, remove_text,
    strip, strip_chars, unquoted, unquote,
};

verus! {

broadcast use vstd::string::group_string_axioms;

/// A line that a statement logs.
pub enum Output {
    /// A line for standard output.
    Info(String),
    /// A line for standard error.
    Warn(String),
    /// `Console.Info` of a floating-point value: the number's text; where it is printed,
    /// the number is formatted and logged with `Logger::info`.
    InfoNumber(String),
}

/// A logged line seen as text.
pub enum OutputV {
    Info(Seq<char>),
    Warn(Seq<char>),
    InfoNumber(Seq<char>),
}

impl View for Output {
    type V = OutputV;

    open spec fn view(&self) -> OutputV {
        match self {
            Output::Info(s) => OutputV::Info(s@),
            Output::Warn(s) => OutputV::Warn(s@),
            Output::InfoNumber(s) => OutputV::InfoNumber(s@),
        }
    }
}

/// What running one line came to.
pub enum LineOutcome {
    /// The line ran, logging at most one line.
    Done(Option<Output>),
    /// The line calls the function at this position of the function table.
    Call(usize),
    /// The line failed with this message.
    Error(String),
    /// The interpreter panics here.
    Fault(String),
}

/// What running one line came to, seen as values.
pub enum LineOutcomeV {
    Done(Option<OutputV>),
    Call(int),
    Error(Seq<char>),
    Fault(Seq<char>),
}

impl View for LineOutcome {
    type V = LineOutcomeV;

    open spec fn view(&self) -> LineOutcomeV {
        match self {
            LineOutcome::Done(None) => LineOutcomeV::Done(None),
            LineOutcome::Done(Some(o)) => LineOutcomeV::Done(Some(o@)),
            LineOutcome::Call(i) => LineOutcomeV::Call(*i as int),
            LineOutcome::Error(e) => LineOutcomeV::Error(e@),
            LineOutcome::Fault(e) => LineOutcomeV::Fault(e@),
        }
    }
}

/// The outcome of a failure.
pub open spec fn failed(f: FailureV) -> LineOutcomeV {
    match f {
        FailureV::Error(e) => LineOutcomeV::Error(e),
        FailureV::Fault(e) => LineOutcomeV::Fault(e),
    }
}

/// The outcome of a failure.
fn fail(f: Failure) -> (r: LineOutcome)
    ensures
        r@ == failed(f@),
{
    match f {
        Failure::Error(e) => LineOutcome::Error(e),
        Failure::Fault(e) => LineOutcome::Fault(e),
    }
}

/// The standard-output line that `Logger::info` makes of `msg` in this scope.
pub open spec fn info_line(ctx: &ExecutionContext, msg: Seq<char>) -> Seq<char> {
    "\x1b[34m"@ + log_text(ctx.logger.shows_trace(), "INFO"@, msg, ctx.trace.timestamp@, ctx.trace.trace_id@)
        + "\x1b[0m"@
}

/// The standard-error line that `Logger::warn` makes of `msg` in this scope.
pub open spec fn warn_line(ctx: &ExecutionContext, msg: Seq<char>) -> Seq<char> {
    "\x1b[33m"@ + log_text(ctx.logger.shows_trace(), "WARN"@, msg, ctx.trace.timestamp@, ctx.trace.trace_id@)
        + "\x1b[0m"@
}

/// What `Console.Info` logs of a value.
pub open spec fn info_output(ctx: &ExecutionContext, v: ValueV) -> OutputV {
    match v {
        ValueV::Float(t) => OutputV::InfoNumber(t),
        _ => OutputV::Info(info_line(ctx, shown(v))),
    }
}

/// The panic of slicing between a `(` and a `)` that comes before it.
pub open spec fn paren_fault() -> Seq<char> {
    "slice index starts after its end in Console.Info"@
}

/// `Console.Info(...)`: the text between the first `(` and the last `)`, trimmed, names a
/// variable readable from the scope `Output`, whose value is logged; else the text itself
/// is logged, without its surrounding quotes.
pub open spec fn info_effect(ctx: &ExecutionContext, t: Seq<char>) -> LineOutcomeV {
    match first_index(t, '(') {
        None => LineOutcomeV::Error("Missing ("@),
        Some(a) => match last_of(t, 0, t.len() as int, ')') {
            None => LineOutcomeV::Error("Missing )"@),
            Some(b) => if b < a {
                LineOutcomeV::Fault(paren_fault())
            } else {
                let s = trim(t.subrange((a + 1) as int, b));
                match ctx.lookup(s, "Output"@) {
                    Ok(v) => LineOutcomeV::Done(Some(info_output(ctx, v))),
                    Err(_) => LineOutcomeV::Done(Some(OutputV::Info(info_line(ctx, strip(s, '"'))))),
                }
            },
        },
    }
}

/// The access level that a variable definition names: `Private` when the line holds that
/// word, else `Public` when it holds that one, else `Default`.
pub open spec fn access_of(t: Seq<char>) -> AccessLevel {
    if has_text(t, "Private"@) {
        AccessLevel::Private
    } else if has_text(t, "Public"@) {
        AccessLevel::Public
    } else {
        AccessLevel::Default
    }
}

/// `Data.Var [Type] Name = Value`: defines the variable with the value of the literal.
pub open spec fn var_effect(pre: &ExecutionContext, post: &ExecutionContext, t: Seq<char>, out: LineOutcomeV) -> bool {
    match var_spec(t) {
        None => out == LineOutcomeV::Error("Invalid Var definition: "@ + t) && *post == *pre,
        Some(((a, b), (c, d))) => {
            let name = t.subrange(a, b);
            match literal_spec(pre, t.subrange(c, d)) {
                Err(f) => out == failed(f) && *post == *pre,
                Ok(v) => if pre.refuses(name) {
                    out == LineOutcomeV::Error(system_denied()) && *post == *pre
                } else {
                    out == LineOutcomeV::Done(None) && ExecutionContext::defines(pre, post, name, v, access_of(t))
                },
            }
        },
    }
}

/// The values of the literals in the pieces `ps`, trimmed, read left to right up to the
/// first failure; an empty piece is passed over.
pub open spec fn literal_list(ctx: &ExecutionContext, ps: Seq<Seq<char>>) -> Result<Seq<ValueV>, FailureV>
    decreases ps.len(),
{
    if ps.len() == 0 {
        Ok(Seq::empty())
    } else {
        match literal_list(ctx, ps.drop_last()) {
            Err(f) => Err(f),
            Ok(vs) => {
                let t = trim(ps.last());
                if t.len() == 0 {
                    Ok(vs)
                } else {
                    match literal_spec(ctx, t) {
                        Err(f) => Err(f),
                        Ok(v) => Ok(vs.push(v)),
                    }
                }
            },
        }
    }
}

/// Once the pieces read so far failed, reading more pieces fails the same way.
proof fn lemma_list_failed(ctx: &ExecutionContext, ps: Seq<Seq<char>>, i: int)
    requires
        0 <= i <= ps.len(),
        literal_list(ctx, ps.take(i)) is Err,
    ensures
        literal_list(ctx, ps) == literal_list(ctx, ps.take(i)),
    decreases ps.len() - i,
{
    if i < ps.len() {
        assert(ps.take(i + 1).drop_last() =~= ps.take(i));
        lemma_list_failed(ctx, ps, i + 1);
    } else {
        assert(ps.take(i) =~= ps);
    }
}

/// Once the pieces read so far failed, reading more pieces fails the same way.
proof fn lemma_dict_failed(ctx: &ExecutionContext, ps: Seq<Seq<char>>, i: int)
    requires
        0 <= i <= ps.len(),
        literal_dict(ctx, ps.take(i)) is Err,
    ensures
        literal_dict(ctx, ps) == literal_dict(ctx, ps.take(i)),
    decreases ps.len() - i,
{
    if i < ps.len() {
        assert(ps.take(i + 1).drop_last() =~= ps.take(i));
        lemma_dict_failed(ctx, ps, i + 1);
    } else {
        assert(ps.take(i) =~= ps);
    }
}

/// The entries `Key = Value` of the pieces `ps`, read left to right up to the first failure;
/// a piece without exactly one `=` is passed over, and a later key replaces an earlier one.
pub open spec fn literal_dict(ctx: &ExecutionContext, ps: Seq<Seq<char>>) -> Result<Map<Seq<char>, ValueV>, FailureV>
    decreases ps.len(),
{
    if ps.len() == 0 {
        Ok(Map::empty())
    } else {
        match literal_dict(ctx, ps.drop_last()) {
            Err(f) => Err(f),
            Ok(m) => {
                let parts = split_on(ps.last(), '=');
                if parts.len() == 2 {
                    match literal_spec(ctx, trim(parts[1])) {
                        Err(f) => Err(f),
                        Ok(v) => Ok(m.insert(trim(parts[0]), v)),
                    }
                } else {
                    Ok(m)
                }
            },
        }
    }
}

/// `post` is `pre` with only its lists changed.
pub open spec fn only_lists(pre: &ExecutionContext, post: &ExecutionContext) -> bool {
    &&& post.variables == pre.variables
    &&& post.dicts == pre.dicts
    &&& post.classes == pre.classes
    &&& post.functions == pre.functions
    &&& post.aliases == pre.aliases
    &&& post.logger == pre.logger
    &&& post.trace == pre.trace
    &&& post.config == pre.config
    &&& post.call_stack == pre.call_stack
}

/// `post` is `pre` with only its dictionaries changed.
pub open spec fn only_dicts(pre: &ExecutionContext, post: &ExecutionContext) -> bool {
    &&& post.variables == pre.variables
    &&& post.lists == pre.lists
    &&& post.classes == pre.classes
    &&& post.functions == pre.functions
    &&& post.aliases == pre.aliases
    &&& post.logger == pre.logger
    &&& post.trace == pre.trace
    &&& post.config == pre.config
    &&& post.call_stack == pre.call_stack
}

/// `post` is `pre` with only its aliases changed.
pub open spec fn only_aliases(pre: &ExecutionContext, post: &ExecutionContext) -> bool {
    &&& post.variables == pre.variables
    &&& post.lists == pre.lists
    &&& post.dicts == pre.dicts
    &&& post.classes == pre.classes
    &&& post.functions == pre.functions
    &&& post.logger == pre.logger
    &&& post.trace == pre.trace
    &&& post.config == pre.config
    &&& post.call_stack == pre.call_stack
}

/// `DataStruct.List "Name" = [Item, ...]`: defines the list of the items' values.
pub open spec fn list_effect(pre: &ExecutionContext, post: &ExecutionContext, t: Seq<char>, out: LineOutcomeV) -> bool {
    match struct_spec(t, "DataStruct.List"@) {
        None => out == LineOutcomeV::Error("Invalid List definition: "@ + t) && *post == *pre,
        Some(((a, b), (c, d))) => match literal_list(pre, split_on(t.subrange(c, d), ',')) {
            Err(f) => out == failed(f) && *post == *pre,
            Ok(vs) => out == LineOutcomeV::Done(None) && post.lists@ == pre.lists@.insert(t.subrange(a, b), vs)
                && only_lists(pre, post),
        },
    }
}

/// `DataStruct.Dict "Name" = [Key = Value, ...]`: defines the dictionary of the entries.
pub open spec fn dict_effect(pre: &ExecutionContext, post: &ExecutionContext, t: Seq<char>, out: LineOutcomeV) -> bool {
    match struct_spec(t, "DataStruct.Dict"@) {
        None => out == LineOutcomeV::Error("Invalid Dict definition: "@ + t) && *post == *pre,
        Some(((a, b), (c, d))) => match literal_dict(pre, split_on(t.subrange(c, d), ',')) {
            Err(f) => out == failed(f) && *post == *pre,
            Ok(m) => out == LineOutcomeV::Done(None) && post.dicts@ == pre.dicts@.insert(t.subrange(a, b), m)
                && only_dicts(pre, post),
        },
    }
}

/// `Template "Class"`: applies the class template named after the word `Template`.
pub open spec fn template_effect(pre: &ExecutionContext, post: &ExecutionContext, t: Seq<char>, out: LineOutcomeV) -> bool {
    let name = unquoted(without(t, "Template"@));
    match out {
        LineOutcomeV::Done(None) => ExecutionContext::applies_template(pre, post, name, Ok(())),
        LineOutcomeV::Error(e) => ExecutionContext::applies_template(pre, post, name, Err(e)),
        _ => false,
    }
}

/// `Alias "Name" = "Target"`: with exactly one `=`, records the alias; else does nothing.
pub open spec fn alias_effect(pre: &ExecutionContext, post: &ExecutionContext, t: Seq<char>, out: LineOutcomeV) -> bool {
    let parts = split_on(t, '=');
    &&& out == LineOutcomeV::Done(None)
    &&& if parts.len() == 2 {
        post.aliases@ == pre.aliases@.insert(unquoted(without(parts[0], "Alias"@)), unquoted(parts[1]))
            && only_aliases(pre, post)
    } else {
        *post == *pre
    }
}

/// The first function, from position `i` of the function table on, whose name starts `t`.
pub open spec fn first_fn(ctx: &ExecutionContext, t: Seq<char>, i: int) -> Option<int>
    decreases ctx.functions.size() - i,
{
    if i < 0 || i >= ctx.functions.size() {
        None
    } else if starts_with(t, ctx.functions.key_at(i)) {
        Some(i)
    } else {
        first_fn(ctx, t, i + 1)
    }
}

/// A function found is in the table, at or after `i`.
pub proof fn lemma_first_fn(ctx: &ExecutionContext, t: Seq<char>, i: int)
    ensures
        first_fn(ctx, t, i) matches Some(k) ==> i <= k < ctx.functions.size(),
    decreases ctx.functions.size() - i,
{
    if 0 <= i < ctx.functions.size() && !starts_with(t, ctx.functions.key_at(i)) {
        lemma_first_fn(ctx, t, i + 1);
    }
}

/// A statement that logs a warning that it is only simulated.
pub open spec fn simulated(ctx: &ExecutionContext, msg: Seq<char>) -> LineOutcomeV {
    LineOutcomeV::Done(Some(OutputV::Warn(warn_line(ctx, msg))))
}

/// What running the line `line` does: `post` is the scope after it and `out` what it came
/// to. The trimmed line is told apart by how it starts, in this order: `Console.Info`,
/// `Data.Var`, `DataStruct.List`, `DataStruct.Dict`, `Loop`, `If`, `Entrust`, `Template`,
/// `Alias`, then the name of a function, which calls it.
pub open spec fn line_effect(pre: &ExecutionContext, post: &ExecutionContext, line: Seq<char>, out: LineOutcomeV) -> bool {
    let t = trim(line);
    if t.len() == 0 {
        out == LineOutcomeV::Done(None) && *post == *pre
    } else if starts_with(t, "Console.Info"@) {
        out == info_effect(pre, t) && *post == *pre
    } else if starts_with(t, "Data.Var"@) {
        var_effect(pre, post, t, out)
    } else if starts_with(t, "DataStruct.List"@) {
        list_effect(pre, post, t, out)
    } else if starts_with(t, "DataStruct.Dict"@) {
        dict_effect(pre, post, t, out)
    } else if starts_with(t, "Loop"@) {
        out == simulated(pre, "Loop structure requires AST block support (Simulated)"@) && *post == *pre
    } else if starts_with(t, "If"@) {
        out == simulated(pre, "If structure requires AST block support (Simulated)"@) && *post == *pre
    } else if starts_with(t, "Entrust"@) {
        out == simulated(pre, "Entrust structure requires AST block support (Simulated)"@) && *post == *pre
    } else if starts_with(t, "Template"@) {
        template_effect(pre, post, t, out)
    } else if starts_with(t, "Alias"@) {
        alias_effect(pre, post, t, out)
    } else {
        *post == *pre && match first_fn(pre, t, 0) {
            Some(i) => out == LineOutcomeV::Call(i),
            None => out == LineOutcomeV::Error("Unknown or unsupported statement: "@ + t),
        }
    }
}

/// The text `t` after the literal `prefix`.
fn message(prefix: &str, t: &[char]) -> (r: String)
    ensures
        r@ == prefix@ + t@,
{
    let mut m = lit(prefix);
    let s = string_of(t);
    m.append(s.as_str());
    m
}

impl ExecutionContext {
    /// The `INFO` line of `msg` (see `info_line`).
    fn info_out(&self, msg: &str) -> (r: Output)
        ensures
            r@ == OutputV::Info(info_line(self, msg@)),
    {
        Output::Info(self.logger.info(msg, &self.trace))
    }

    /// Runs `Console.Info(...)` (see `info_effect`).
    fn run_info(&self, t: &[char]) -> (r: LineOutcome)
        requires
            self.wf(),
        ensures
            r@ == info_effect(self, t@),
    {
        match find_char(t, '(') {
            None => LineOutcome::Error(lit("Missing (")),
            Some(a) => match find_last(t, 0, t.len(), ')') {
                None => LineOutcome::Error(lit("Missing )")),
                Some(b) => {
                    proof {
                        lemma_first_index(t@, '(');
                        lemma_last_of(t@, 0, t@.len() as int, ')');
                    }
                    if b < a {
                        return LineOutcome::Fault(lit("slice index starts after its end in Console.Info"));
                    }
                    let inner = slice_chars(t, a + 1, b);
                    let s = trim_chars(inner.as_slice());
                    let name = string_of(s.as_slice());
                    match self.get_var(name.as_str(), "Output") {
                        Ok(v) => match v {
                            QuernValue::Float(text) => LineOutcome::Done(Some(Output::InfoNumber(text.clone()))),
                            _ => match v.display() {
                                Some(text) => LineOutcome::Done(Some(self.info_out(text.as_str()))),
                                None => LineOutcome::Done(None),
                            },
                        },
                        Err(_) => {
                            let q = strip_chars(s.as_slice(), '"');
                            let qs = string_of(q.as_slice());
                            LineOutcome::Done(Some(self.info_out(qs.as_str())))
                        },
                    }
                },
            },
        }
    }

    /// Runs `Data.Var ...` (see `var_effect`).
    fn run_var(&mut self, t: &[char]) -> (r: LineOutcome)
        requires
            old(self).wf(),
        ensures
            final(self).wf(),
            var_effect(old(self), final(self), t@, r@),
    {
        match find_var(t) {
            None => LineOutcome::Error(message("Invalid Var definition: ", t)),
            Some((a, b, c, d)) => {
                let name_c = slice_chars(t, a, b);
                let val_c = slice_chars(t, c, d);
                match parse_literal(self, val_c.as_slice()) {
                    Err(f) => fail(f),
                    Ok(v) => {
                        let access = if contains_text(t, to_chars("Private").as_slice()) {
                            AccessLevel::Private
                        } else if contains_text(t, to_chars("Public").as_slice()) {
                            AccessLevel::Public
                        } else {
                            AccessLevel::Default
                        };
                        let name = string_of(name_c.as_slice());
                        match self.define_var(name.as_str(), v, access) {
                            Ok(()) => LineOutcome::Done(None),
                            Err(e) => LineOutcome::Error(e),
                        }
                    },
                }
            },
        }
    }

    /// Runs `DataStruct.List ...` (see `list_effect`).
    fn run_list(&mut self, t: &[char]) -> (r: LineOutcome)
        requires
            old(self).wf(),
        ensures
            final(self).wf(),
            list_effect(old(self), final(self), t@, r@),
    {
        match find_struct(t, to_chars("DataStruct.List").as_slice()) {
            None => LineOutcome::Error(message("Invalid List definition: ", t)),
            Some((a, b, c, d)) => {
                let items_c = slice_chars(t, c, d);
                let pieces = split_chars(items_c.as_slice(), ',');
                let ghost pv = split_on(items_c@, ',');
                let mut items: Vec<QuernValue> = Vec::new();
                assert(pv.take(0) =~= Seq::<Seq<char>>::empty());
                assert(items.deep_view() =~= Seq::<ValueV>::empty());
                let mut i: usize = 0;
                while i < pieces.len()
                    invariant
                        self.wf(),
                        i <= pieces@.len(),
                        pieces@.len() == pv.len(),
                        forall|k: int| 0 <= k < pv.len() ==> #[trigger] pieces@[k]@ == pv[k],
                        literal_list(self, pv.take(i as int)) == Ok::<Seq<ValueV>, FailureV>(items.deep_view()),
                        *self == *old(self),
                        pv == split_on(t@.subrange(c as int, d as int), ','),
                        struct_spec(t@, "DataStruct.List"@) == Some(((a as int, b as int), (c as int, d as int))),
                    decreases pieces@.len() - i,
                {
                    let p = trim_chars(pieces[i].as_slice());
                    proof {
                        assert(pv.take(i + 1).drop_last() =~= pv.take(i as int));
                        assert(pv.take(i + 1).last() == pv[i as int]);
                    }
                    if p.len() > 0 {
                        match parse_literal(self, p.as_slice()) {
                            Err(f) => {
                                proof {
                                    lemma_list_failed(self, pv, i + 1);
                                }
                                return fail(f);
                            },
                            Ok(v) => {
                                items.push(v);
                                proof {
                                    assert(items.deep_view() =~= literal_list(self, pv.take(i + 1))->Ok_0);
                                }
                            },
                        }
                    }
                    i = i + 1;
                }
                assert(pv.take(pieces@.len() as int) =~= pv);
                let name = string_of(slice_chars(t, a, b).as_slice());
                self.define_list(name.as_str(), items);
                LineOutcome::Done(None)
            },
        }
    }

    /// Runs `DataStruct.Dict ...` (see `dict_effect`).
    fn run_dict(&mut self, t: &[char]) -> (r: LineOutcome)
        requires
            old(self).wf(),
        ensures
            final(self).wf(),
            dict_effect(old(self), final(self), t@, r@),
    {
        match find_struct(t, to_chars("DataStruct.Dict").as_slice()) {
            None => LineOutcome::Error(message("Invalid Dict definition: ", t)),
            Some((a, b, c, d)) => {
                let items_c = slice_chars(t, c, d);
                let pieces = split_chars(items_c.as_slice(), ',');
                let ghost pv = split_on(items_c@, ',');
                let mut dict: Table<QuernValue> = Table::new();
                assert(pv.take(0) =~= Seq::<Seq<char>>::empty());
                let mut i: usize = 0;
                while i < pieces.len()
                    invariant
                        self.wf(),
                        dict.wf(),
                        i <= pieces@.len(),
                        pieces@.len() == pv.len(),
                        forall|k: int| 0 <= k < pv.len() ==> #[trigger] pieces@[k]@ == pv[k],
                        literal_dict(self, pv.take(i as int)) == Ok::<Map<Seq<char>, ValueV>, FailureV>(dict@),
                        *self == *old(self),
                        pv == split_on(t@.subrange(c as int, d as int), ','),
                        struct_spec(t@, "DataStruct.Dict"@) == Some(((a as int, b as int), (c as int, d as int))),
                    decreases pieces@.len() - i,
                {
                    let parts = split_chars(pieces[i].as_slice(), '=');
                    proof {
                        assert(pv.take(i + 1).drop_last() =~= pv.take(i as int));
                        assert(pv.take(i + 1).last() == pv[i as int]);
                    }
                    if parts.len() == 2 {
                        let val = trim_chars(parts[1].as_slice());
                        match parse_literal(self, val.as_slice()) {
                            Err(f) => {
                                proof {
                                    lemma_dict_failed(self, pv, i + 1);
                                }
                                return fail(f);
                            },
                            Ok(v) => {
                                let key = trim_chars(parts[0].as_slice());
                                dict.insert(string_of(key.as_slice()), v);
                            },
                        }
                    }
                    i = i + 1;
                }
                assert(pv.take(pieces@.len() as int) =~= pv);
                let name = string_of(slice_chars(t, a, b).as_slice());
                self.define_dict(name.as_str(), dict);
                LineOutcome::Done(None)
            },
        }
    }

    /// Runs `Template ...` (see `template_effect`).
    fn run_template(&mut self, t: &[char]) -> (r: LineOutcome)
        requires
            old(self).wf(),
        ensures
            final(self).wf(),
            template_effect(old(self), final(self), t@, r@),
    {
        let kw = to_chars("Template");
        proof {
            reveal_strlit("Template");
        }
        let rest = remove_text(t, kw.as_slice());
        let name = string_of(unquote(rest.as_slice()).as_slice());
        match self.apply_template(name.as_str()) {
            Ok(()) => LineOutcome::Done(None),
            Err(e) => LineOutcome::Error(e),
        }
    }

    /// Runs `Alias ...` (see `alias_effect`).
    fn run_alias(&mut self, t: &[char]) -> (r: LineOutcome)
        requires
            old(self).wf(),
        ensures
            final(self).wf(),
            alias_effect(old(self), final(self), t@, r@),
    {
        let parts = split_chars(t, '=');
        if parts.len() == 2 {
            let kw = to_chars("Alias");
            proof {
                reveal_strlit("Alias");
            }
            let left = remove_text(parts[0].as_slice(), kw.as_slice());
            let name = string_of(unquote(left.as_slice()).as_slice());
            let target = string_of(unquote(parts[1].as_slice()).as_slice());
            self.aliases.insert(name, target);
        }
        LineOutcome::Done(None)
    }

    /// The position of the first function whose name starts `t` (see `first_fn`).
    fn find_function(&self, t: &[char]) -> (r: Option<usize>)
        ensures
            r matches Some(i) ==> first_fn(self, t@, 0) == Some(i as int) && i < self.functions.size(),
            r is None ==> first_fn(self, t@, 0) is None,
    {
        let n = self.functions.len();
        let mut i: usize = 0;
        while i < n
            invariant
                n == self.functions.size(),
                i <= n,
                first_fn(self, t@, 0) == first_fn(self, t@, i as int),
            decreases n - i,
        {
            let name = to_chars(self.functions.key(i).as_str());
            if chars_start_with(t, name.as_slice()) {
                return Some(i);
            }
            i = i + 1;
        }
        None
    }

    /// Runs one line of a script (see `line_effect`).
    pub fn execute_line(&mut self, line: &[char]) -> (r: LineOutcome)
        requires
            old(self).wf(),
        ensures
            final(self).wf(),
            line_effect(old(self), final(self), line@, r@),
    {
        let t = trim_chars(line);
        let t = t.as_slice();
        if t.len() == 0 {
            return LineOutcome::Done(None);
        }
        if chars_start_with(t, to_chars("Console.Info").as_slice()) {
            return self.run_info(t);
        }
        if chars_start_with(t, to_chars("Data.Var").as_slice()) {
            return self.run_var(t);
        }
        if chars_start_with(t, to_chars("DataStruct.List").as_slice()) {
            return self.run_list(t);
        }
        if chars_start_with(t, to_chars("DataStruct.Dict").as_slice()) {
            return self.run_dict(t);
        }
        if chars_start_with(t, to_chars("Loop").as_slice()) {
            return LineOutcome::Done(Some(self.warn_out("Loop structure requires AST block support (Simulated)")));
        }
        if chars_start_with(t, to_chars("If").as_slice()) {
            return LineOutcome::Done(Some(self.warn_out("If structure requires AST block support (Simulated)")));
        }
        if chars_start_with(t, to_chars("Entrust").as_slice()) {
            return LineOutcome::Done(Some(self.warn_out("Entrust structure requires AST block support (Simulated)")));
        }
        if chars_start_with(t, to_chars("Template").as_slice()) {
            return self.run_template(t);
        }
        if chars_start_with(t, to_chars("Alias").as_slice()) {
            return self.run_alias(t);
        }
        match self.find_function(t) {
            Some(i) => LineOutcome::Call(i),
            None => LineOutcome::Error(message("Unknown or unsupported statement: ", t)),
        }
    }

    /// The `WARN` line of `msg` (see `warn_line`).
    fn warn_out(&self, msg: &str) -> (r: Output)
        ensures
            r@ == OutputV::Warn(warn_line(self, msg@)),
    {
        Output::Warn(self.logger.warn(msg, &self.trace))
    }
}

} // verus!
