//! Parsing QVM tokens into a program.
//!
//! A program is a sequence of commands; `fnc <name> { ... }` defines a function whose
//! body may itself define functions. Errors at the top level carry their own name and
//! code; any error inside a function body is reported as `BlockParseError` (1005) at
//! the position where the body's parse stopped.
use vstd::prelude::*;
use crate::qvm::syntax::{Dialect, ComparisonOp, ArithmeticOp, Instruction, InstrV, Program, ProgramV, spec_comparison_op, spec_arithmetic_op};
use crate::qvm::error::SyntaxError;
use crate::qvm::lexer::{spec_tokens, tokenize, well_tokenized, law_source_is_well_tokenized};
use crate::table::Table;
use crate::text::{spec_lines, to_chars, string_is, lit, concat, concat_lit, copy_string, slice_chars, chars_to_string};

verus! {

broadcast use vstd::string::group_string_axioms;

/// A parser seen as values: the tokens, their line numbers, the source lines, the
/// position of the next token and the dialect.
pub struct ParserV {
    pub toks: Seq<Seq<char>>,
    pub line_map: Seq<nat>,
    pub source: Seq<Seq<char>>,
    pub pos: nat,
    pub dialect: Dialect,
}

/// What `Parser::new(src, d).parse()` gives: the program of the source text `src`, or
/// its syntax error.
pub open spec fn source_parse(src: Seq<char>, d: Dialect) -> Result<ProgramV, SyntaxErrorV> {
    spec_parse(
        ParserV {
            toks: spec_tokens(src, d).map_values(|p: (Seq<char>, nat)| p.0),
            line_map: spec_tokens(src, d).map_values(|p: (Seq<char>, nat)| p.1),
            source: spec_lines(src),
            pos: 0,
            dialect: d,
        },
    )
}

/// A syntax error seen as values.
pub struct SyntaxErrorV {
    pub name: Seq<char>,
    pub code: u32,
    pub line: nat,
    pub source: Seq<char>,
    pub token: Seq<char>,
}

/// Whether a token names a stack to read: `@name@` with a non-empty name.
pub open spec fn is_var_token(t: Seq<char>) -> bool {
    t.len() > 2 && t[0] == '@' && t.last() == '@'
}

/// An operand as written: `@name@` reads stack `name`, anything else is literal text.
pub open spec fn operand(t: Seq<char>) -> (Seq<char>, bool) {
    if is_var_token(t) {
        (t.subrange(1, t.len() - 1), true)
    } else {
        (t, false)
    }
}

/// Whether a token is an arithmetic operator.
pub open spec fn is_arith_token(t: Seq<char>) -> bool {
    t == "+"@ || t == "-"@ || t == "*"@ || t == "/"@
}

/// The outcome of reading one command at position `p`: an instruction, the start of a
/// function body, the end of a body, or a failure (name, code, token, and the position
/// at which it was detected). Each carries the position after the command.
pub enum StepV {
    Instr(InstrV, nat),
    Open(Seq<char>, nat),
    Close(nat),
    Fail(Seq<char>, u32, Seq<char>, nat),
}

/// Reads the command at position `p` (inside a function body when `in_block`).
pub open spec fn step_spec(toks: Seq<Seq<char>>, p: nat, d: Dialect, in_block: bool) -> StepV {
    let n = toks.len();
    let cmd = toks[p as int];
    let ue = "UnexpectedEnd"@;
    if cmd == "crt"@ {
        if p + 1 < n {
            StepV::Instr(InstrV::CreateStack(toks[p as int + 1]), p + 2)
        } else {
            StepV::Fail(ue, 1002, cmd, p + 1)
        }
    } else if cmd == "psh"@ {
        if p + 1 >= n {
            StepV::Fail(ue, 1002, cmd, p + 1)
        } else if d == Dialect::V5 && p + 2 < n && is_arith_token(toks[p as int + 2]) {
            if p + 3 >= n {
                StepV::Fail(ue, 1002, cmd, p + 3)
            } else {
                StepV::Instr(
                    InstrV::Arithmetic {
                        stack: operand(toks[p as int + 1]).0,
                        operator: spec_arithmetic_op(toks[p as int + 2]).unwrap(),
                        value: toks[p as int + 3],
                    },
                    p + 4,
                )
            }
        } else if p + 2 >= n {
            StepV::Fail(ue, 1002, cmd, p + 2)
        } else {
            StepV::Instr(InstrV::Push(toks[p as int + 1], operand(toks[p as int + 2])), p + 3)
        }
    } else if cmd == "pop"@ {
        if p + 1 < n {
            StepV::Instr(InstrV::Pop(toks[p as int + 1]), p + 2)
        } else {
            StepV::Fail(ue, 1002, cmd, p + 1)
        }
    } else if cmd == "out"@ {
        if p + 1 < n {
            StepV::Instr(InstrV::Out(operand(toks[p as int + 1])), p + 2)
        } else {
            StepV::Fail(ue, 1002, cmd, p + 1)
        }
    } else if cmd == "otn"@ {
        StepV::Instr(InstrV::PrintNewLine, p + 1)
    } else if cmd == "del"@ {
        if p + 1 < n {
            StepV::Instr(InstrV::DeleteStack(toks[p as int + 1]), p + 2)
        } else {
            StepV::Fail(ue, 1002, cmd, p + 1)
        }
    } else if cmd == "fnc"@ {
        if p + 1 >= n {
            StepV::Fail(ue, 1002, cmd, p + 1)
        } else if p + 2 >= n || toks[p as int + 2] != "{"@ {
            StepV::Fail("MissingBrace"@, 1004, cmd, p + 2)
        } else {
            StepV::Open(toks[p as int + 1], p + 3)
        }
    } else if cmd == "cal"@ {
        if p + 1 < n {
            StepV::Instr(InstrV::CallFunction(toks[p as int + 1]), p + 2)
        } else {
            StepV::Fail(ue, 1002, cmd, p + 1)
        }
    } else if cmd == "jmp"@ {
        if p + 1 >= n {
            StepV::Fail(ue, 1002, cmd, p + 1)
        } else if p + 2 >= n {
            StepV::Fail(ue, 1002, cmd, p + 2)
        } else if p + 3 >= n {
            StepV::Fail(ue, 1002, cmd, p + 3)
        } else if spec_comparison_op(toks[p as int + 3]) is None {
            StepV::Fail("InvalidOperator"@, 1006, toks[p as int + 3], p + 4)
        } else if p + 4 >= n || toks[p as int + 4] != "cal"@ {
            StepV::Fail("MissingCalKeyword"@, 1007, cmd, p + 4)
        } else if p + 5 >= n {
            StepV::Fail(ue, 1002, cmd, p + 5)
        } else {
            StepV::Instr(
                InstrV::ConditionalJump {
                    left_stack: operand(toks[p as int + 1]),
                    right_stack: operand(toks[p as int + 2]),
                    op: spec_comparison_op(toks[p as int + 3]).unwrap(),
                    target_func: toks[p as int + 5],
                },
                p + 6,
            )
        }
    } else if in_block && cmd == "}"@ {
        StepV::Close(p + 1)
    } else {
        StepV::Fail("UnknownCommand"@, 1000, cmd, p)
    }
}

/// Reading a command always moves past at least one token.
pub proof fn lemma_step_advances(toks: Seq<Seq<char>>, p: nat, d: Dialect, in_block: bool)
    requires
        p < toks.len(),
    ensures
        match step_spec(toks, p, d, in_block) {
            StepV::Instr(_, q) => q > p,
            StepV::Open(_, q) => q > p,
            StepV::Close(q) => q > p,
            StepV::Fail(..) => true,
        },
{
}

/// Parses from position `p` on, with the open function bodies `frames` (innermost
/// last), the top-level instructions `top` and the functions `funcs` read so far.
/// A failure is (name, code, token, position).
pub open spec fn drive(
    toks: Seq<Seq<char>>,
    d: Dialect,
    p: nat,
    frames: Seq<(Seq<char>, Seq<InstrV>)>,
    top: Seq<InstrV>,
    funcs: Map<Seq<char>, Seq<InstrV>>,
) -> Result<ProgramV, (Seq<char>, u32, Seq<char>, nat)>
    decreases toks.len() - p,
{
    if p >= toks.len() {
        if frames.len() == 0 {
            Ok(ProgramV { instructions: top, functions: funcs })
        } else {
            Err(("BlockParseError"@, 1005u32, "fnc"@, p))
        }
    } else {
        proof {
            lemma_step_advances(toks, p, d, frames.len() > 0);
        }
        match step_spec(toks, p, d, frames.len() > 0) {
            StepV::Instr(i, q) => if frames.len() == 0 {
                drive(toks, d, q, frames, top.push(i), funcs)
            } else {
                let last = frames.last();
                drive(toks, d, q, frames.update(frames.len() - 1, (last.0, last.1.push(i))), top, funcs)
            },
            StepV::Open(name, q) => drive(toks, d, q, frames.push((name, Seq::empty())), top, funcs),
            StepV::Close(q) => {
                let last = frames.last();
                drive(toks, d, q, frames.drop_last(), top, funcs.insert(last.0, last.1))
            },
            StepV::Fail(name, code, tok, at) => if frames.len() == 0 {
                Err((name, code, tok, at))
            } else {
                Err(("BlockParseError"@, 1005u32, "fnc"@, at))
            },
        }
    }
}

/// The line number and source line reported for position `at`: those of the token
/// there, or the last line number and `EOF` past the end.
pub open spec fn line_info(pv: ParserV, at: nat) -> (nat, Seq<char>) {
    if at < pv.line_map.len() {
        let ln = pv.line_map[at as int];
        (ln, if 0 < ln <= pv.source.len() { pv.source[ln - 1] } else { "Unknown Line"@ })
    } else {
        (pv.source.len(), "EOF"@)
    }
}

/// The program that `pv` parses to, or the syntax error it reports.
pub open spec fn spec_parse(pv: ParserV) -> Result<ProgramV, SyntaxErrorV> {
    match drive(pv.toks, pv.dialect, pv.pos, Seq::empty(), Seq::empty(), Map::empty()) {
        Ok(prog) => Ok(prog),
        Err((name, code, tok, at)) => Err(
            SyntaxErrorV {
                name,
                code,
                line: line_info(pv, at).0,
                source: line_info(pv, at).1,
                token: tok,
            },
        ),
    }
}

/// A syntax error as values.
pub open spec fn error_view(e: SyntaxError) -> SyntaxErrorV {
    SyntaxErrorV {
        name: e.error_name@,
        code: e.error_code,
        line: e.line_number as nat,
        source: e.source_line@,
        token: e.token_content@,
    }
}

/// The outcome of reading one command.
enum Step {
    Instr(Instruction),
    Open(String),
    Close,
    Fail(String, u32, String),
}

/// Whether the executed step `s`, ending at position `q`, is the step `v`.
spec fn step_is(s: Step, q: nat, v: StepV) -> bool {
    match v {
        StepV::Instr(i, p2) => s matches Step::Instr(x) && x.deep_view() == i && q == p2,
        StepV::Open(name, p2) => s matches Step::Open(x) && x@ == name && q == p2,
        StepV::Close(p2) => s is Close && q == p2,
        StepV::Fail(name, code, tok, at) => s matches Step::Fail(n, c, t) && n@ == name && c
            == code && t@ == tok && q == at,
    }
}

/// Whether `s` is `@name@` with a non-empty name.
pub fn is_variable(s: &str) -> (r: bool)
    ensures
        r == is_var_token(s@),
{
    let c = to_chars(s);
    c.len() > 2 && c[0] == '@' && c[c.len() - 1] == '@'
}

/// The operand written as `t` (see `operand`).
fn read_operand(t: String) -> (r: (String, bool))
    ensures
        (r.0@, r.1) == operand(t@),
{
    if is_variable(t.as_str()) {
        let c = to_chars(t.as_str());
        let inner = slice_chars(c.as_slice(), 1, c.len() - 1);
        (chars_to_string(&inner), true)
    } else {
        (t, false)
    }
}

/// Reads QVM source text.
pub struct Parser {
    tokens: Vec<String>,
    pos: usize,
    line_map: Vec<usize>,
    source_lines: Vec<String>,
    dialect: Dialect,
}

impl Parser {
    /// The parser as values.
    pub closed spec fn view(&self) -> ParserV {
        ParserV {
            toks: self.tokens@.map_values(|t: String| t@),
            line_map: self.line_map@.map_values(|u: usize| u as nat),
            source: self.source_lines@.map_values(|t: String| t@),
            pos: self.pos as nat,
            dialect: self.dialect,
        }
    }

    /// Every token has a line number.
    pub closed spec fn wf(&self) -> bool {
        self.tokens@.len() == self.line_map@.len()
    }

    /// A parser at the start of `input`: its tokens and their line numbers (see
    /// `spec_tokens`) and its lines.
    pub fn new(input: &str, dialect: Dialect) -> (r: Self)
        ensures
            r.wf(),
            r@.pos == 0,
            r@.dialect == dialect,
            r@.toks == spec_tokens(input@, dialect).map_values(|p: (Seq<char>, nat)| p.0),
            r@.line_map == spec_tokens(input@, dialect).map_values(|p: (Seq<char>, nat)| p.1),
            r@.source == spec_lines(input@),
            spec_parse(r@) == source_parse(input@, dialect),
            well_tokenized(r@.toks, r@.line_map, r@.source),
    {
        let (tokens, line_map, source_lines) = tokenize(input, dialect);
        let r = Parser { tokens, pos: 0, line_map, source_lines, dialect };
        assert forall|i: int| 0 <= i < r.line_map@.len() implies r@.line_map[i] == spec_tokens(
            input@,
            dialect,
        ).map_values(|p: (Seq<char>, nat)| p.1)[i] by {
            assert(r.tokens@[i]@ == spec_tokens(input@, dialect)[i].0);
        }
        assert(r@.toks =~= spec_tokens(input@, dialect).map_values(|p: (Seq<char>, nat)| p.0));
        assert(r@.line_map =~= spec_tokens(input@, dialect).map_values(|p: (Seq<char>, nat)| p.1));
        assert(r@.source =~= spec_lines(input@));
        proof {
            law_source_is_well_tokenized(input@, dialect);
        }
        r
    }

    /// The tokens.
    pub fn tokens(&self) -> (r: &Vec<String>)
        ensures
            r@.map_values(|t: String| t@) == self@.toks,
    {
        &self.tokens
    }

    /// The line number of each token.
    pub fn line_map(&self) -> (r: &Vec<usize>)
        ensures
            r@.map_values(|u: usize| u as nat) == self@.line_map,
    {
        &self.line_map
    }

    /// The source lines.
    pub fn source_lines(&self) -> (r: &Vec<String>)
        ensures
            r@.map_values(|t: String| t@) == self@.source,
    {
        &self.source_lines
    }

    /// The line number and source line of the current position (see `line_info`).
    pub fn get_current_line_info(&self) -> (r: (usize, String))
        ensures
            (r.0 as nat, r.1@) == line_info(self@, self@.pos),
    {
        if self.pos < self.line_map.len() {
            let line_num = self.line_map[self.pos];
            let line_content = if line_num > 0 && line_num <= self.source_lines.len() {
                copy_string(&self.source_lines[line_num - 1])
            } else {
                lit("Unknown Line")
            };
            (line_num, line_content)
        } else {
            (self.source_lines.len(), lit("EOF"))
        }
    }

    /// A syntax error named `name` with `code` about `token`, located at the current
    /// position.
    pub fn create_error(&self, name: &str, code: u32, token: &str) -> (r: SyntaxError)
        ensures
            error_view(r) == (SyntaxErrorV {
                name: name@,
                code,
                line: line_info(self@, self@.pos).0,
                source: line_info(self@, self@.pos).1,
                token: token@,
            }),
    {
        let (line_num, source_line) = self.get_current_line_info();
        SyntaxError {
            error_name: lit(name),
            error_code: code,
            line_number: line_num,
            source_line,
            token_content: lit(token),
        }
    }

    /// Moves past the next token when it is `expected`; otherwise stays and says why:
    /// `Unexpected end of input`, or `Expected '<expected>', got '<token>'`.
    pub fn consume(&mut self, expected: &str) -> (r: Result<(), String>)
        ensures
            final(self)@.toks == old(self)@.toks,
            final(self)@.line_map == old(self)@.line_map,
            final(self)@.source == old(self)@.source,
            final(self)@.dialect == old(self)@.dialect,
            final(self).wf() == old(self).wf(),
            old(self)@.pos < old(self)@.toks.len() && old(self)@.toks[old(self)@.pos as int] == expected@
                ==> r is Ok && final(self)@.pos == old(self)@.pos + 1,
            !(old(self)@.pos < old(self)@.toks.len() && old(self)@.toks[old(self)@.pos as int] == expected@)
                ==> r is Err && final(self)@.pos == old(self)@.pos,
            r matches Err(m) ==> m@ == (if old(self)@.pos >= old(self)@.toks.len() {
                "Unexpected end of input"@
            } else {
                "Expected '"@ + expected@ + "', got '"@ + old(self)@.toks[old(self)@.pos as int] + "'"@
            }),
    {
        if self.pos >= self.tokens.len() {
            return Err(lit("Unexpected end of input"));
        }
        if !string_is(&self.tokens[self.pos], expected) {
            let m = concat_lit(&lit("Expected '"), expected);
            let m = concat_lit(&m, "', got '");
            let m = concat(&m, &self.tokens[self.pos]);
            return Err(concat_lit(&m, "'"));
        }
        self.pos = self.pos + 1;
        Ok(())
    }

    /// The next token, moving past it; `Unexpected end of input, expected argument` at
    /// the end.
    pub fn next_arg(&mut self) -> (r: Result<String, String>)
        ensures
            final(self)@.toks == old(self)@.toks,
            final(self)@.line_map == old(self)@.line_map,
            final(self)@.source == old(self)@.source,
            final(self)@.dialect == old(self)@.dialect,
            final(self).wf() == old(self).wf(),
            old(self)@.pos < old(self)@.toks.len() ==> (r matches Ok(t) && t@ == old(self)@.toks[old(self)@.pos as int]
                && final(self)@.pos == old(self)@.pos + 1),
            old(self)@.pos >= old(self)@.toks.len() ==> (r matches Err(m)
                && m@ == "Unexpected end of input, expected argument"@ && final(self)@.pos == old(self)@.pos),
    {
        if self.pos >= self.tokens.len() {
            return Err(lit("Unexpected end of input, expected argument"));
        }
        let arg = copy_string(&self.tokens[self.pos]);
        self.pos = self.pos + 1;
        Ok(arg)
    }

    /// Moves past the next token when it is `token` (as `consume`).
    pub fn expect(&mut self, token: &str) -> (r: Result<(), String>)
        ensures
            final(self)@.toks == old(self)@.toks,
            final(self)@.line_map == old(self)@.line_map,
            final(self)@.source == old(self)@.source,
            final(self)@.dialect == old(self)@.dialect,
            final(self).wf() == old(self).wf(),
            old(self)@.pos < old(self)@.toks.len() && old(self)@.toks[old(self)@.pos as int] == token@
                ==> r is Ok && final(self)@.pos == old(self)@.pos + 1,
            !(old(self)@.pos < old(self)@.toks.len() && old(self)@.toks[old(self)@.pos as int] == token@)
                ==> r is Err && final(self)@.pos == old(self)@.pos,
    {
        self.consume(token)
    }

    /// The token at the current position, if any.
    fn peek(&self) -> (r: Option<String>)
        ensures
            self@.pos < self@.toks.len() ==> (r matches Some(t) && t@ == self@.toks[self@.pos as int]),
            self@.pos >= self@.toks.len() ==> r is None,
    {
        if self.pos < self.tokens.len() {
            Some(copy_string(&self.tokens[self.pos]))
        } else {
            None
        }
    }

    /// Reads one command (see `step_spec`).
    fn step(&mut self, in_block: bool) -> (r: Step)
        requires
            old(self).wf(),
            old(self)@.pos < old(self)@.toks.len(),
        ensures
            final(self).wf(),
            final(self)@.toks == old(self)@.toks,
            final(self)@.line_map == old(self)@.line_map,
            final(self)@.source == old(self)@.source,
            final(self)@.dialect == old(self)@.dialect,
            step_is(r, final(self)@.pos, step_spec(old(self)@.toks, old(self)@.pos, old(self)@.dialect, in_block)),
    {
        assert(self.pos < self.tokens@.len());
        let cmd = copy_string(&self.tokens[self.pos]);
        let ue = "UnexpectedEnd";
        if string_is(&cmd, "crt") {
            let _ = self.consume("crt");
            match self.next_arg() {
                Ok(name) => Step::Instr(Instruction::CreateStack(name)),
                Err(_) => Step::Fail(lit(ue), 1002, cmd),
            }
        } else if string_is(&cmd, "psh") {
            let _ = self.consume("psh");
            let stack_ref = match self.next_arg() {
                Ok(s) => s,
                Err(_) => {
                    return Step::Fail(lit(ue), 1002, cmd);
                },
            };
            let next = self.peek();
            let arith = match &next {
                Some(t) => self.dialect == Dialect::V5 && (string_is(t, "+") || string_is(t, "-")
                    || string_is(t, "*") || string_is(t, "/")),
                None => false,
            };
            if arith {
                let op_str = match self.next_arg() {
                    Ok(s) => s,
                    Err(_) => {
                        return Step::Fail(lit(ue), 1002, cmd);
                    },
                };
                let val_token = match self.next_arg() {
                    Ok(s) => s,
                    Err(_) => {
                        return Step::Fail(lit(ue), 1002, cmd);
                    },
                };
                match ArithmeticOp::from_str(op_str.as_str()) {
                    Ok(op) => {
                        let (stack_name, _) = read_operand(stack_ref);
                        Step::Instr(Instruction::Arithmetic { stack: stack_name, operator: op, value: val_token })
                    },
                    Err(_) => Step::Fail(lit("InvalidOperator"), 1006, op_str),
                }
            } else {
                match self.next_arg() {
                    Ok(val_token) => Step::Instr(Instruction::Push(stack_ref, read_operand(val_token))),
                    Err(_) => Step::Fail(lit(ue), 1002, cmd),
                }
            }
        } else if string_is(&cmd, "pop") {
            let _ = self.consume("pop");
            match self.next_arg() {
                Ok(s) => Step::Instr(Instruction::Pop(s)),
                Err(_) => Step::Fail(lit(ue), 1002, cmd),
            }
        } else if string_is(&cmd, "out") {
            let _ = self.consume("out");
            match self.next_arg() {
                Ok(s) => Step::Instr(Instruction::Out(read_operand(s))),
                Err(_) => Step::Fail(lit(ue), 1002, cmd),
            }
        } else if string_is(&cmd, "otn") {
            let _ = self.consume("otn");
            Step::Instr(Instruction::PrintNewLine)
        } else if string_is(&cmd, "del") {
            let _ = self.consume("del");
            match self.next_arg() {
                Ok(s) => Step::Instr(Instruction::DeleteStack(s)),
                Err(_) => Step::Fail(lit(ue), 1002, cmd),
            }
        } else if string_is(&cmd, "fnc") {
            let _ = self.consume("fnc");
            let func_name = match self.next_arg() {
                Ok(s) => s,
                Err(_) => {
                    return Step::Fail(lit(ue), 1002, cmd);
                },
            };
            match self.expect("{") {
                Ok(()) => Step::Open(func_name),
                Err(_) => Step::Fail(lit("MissingBrace"), 1004, cmd),
            }
        } else if string_is(&cmd, "cal") {
            let _ = self.consume("cal");
            match self.next_arg() {
                Ok(s) => Step::Instr(Instruction::CallFunction(s)),
                Err(_) => Step::Fail(lit(ue), 1002, cmd),
            }
        } else if string_is(&cmd, "jmp") {
            let _ = self.consume("jmp");
            let left_token = match self.next_arg() {
                Ok(s) => s,
                Err(_) => {
                    return Step::Fail(lit(ue), 1002, cmd);
                },
            };
            let right_token = match self.next_arg() {
                Ok(s) => s,
                Err(_) => {
                    return Step::Fail(lit(ue), 1002, cmd);
                },
            };
            let op_str = match self.next_arg() {
                Ok(s) => s,
                Err(_) => {
                    return Step::Fail(lit(ue), 1002, cmd);
                },
            };
            let op = match ComparisonOp::from_str(op_str.as_str()) {
                Ok(op) => op,
                Err(_) => {
                    return Step::Fail(lit("InvalidOperator"), 1006, op_str);
                },
            };
            match self.consume("cal") {
                Ok(()) => {},
                Err(_) => {
                    return Step::Fail(lit("MissingCalKeyword"), 1007, cmd);
                },
            }
            let target_func = match self.next_arg() {
                Ok(s) => s,
                Err(_) => {
                    return Step::Fail(lit(ue), 1002, cmd);
                },
            };
            Step::Instr(
                Instruction::ConditionalJump {
                    left_stack: read_operand(left_token),
                    right_stack: read_operand(right_token),
                    op,
                    target_func,
                },
            )
        } else if in_block && string_is(&cmd, "}") {
            let n = self.tokens.len();
            assert(self.pos < n);
            self.pos = self.pos + 1;
            Step::Close
        } else {
            Step::Fail(lit("UnknownCommand"), 1000, cmd)
        }
    }

    /// Parses the rest of the tokens into a program (see `spec_parse`): the top-level
    /// instructions and every function defined, nested bodies included; or the first
    /// syntax error.
    pub fn parse(self) -> (r: Result<Program, SyntaxError>)
        requires
            self.wf(),
        ensures
            r matches Ok(p) ==> p.wf() && spec_parse(self@) == Ok::<ProgramV, SyntaxErrorV>(p@),
            r matches Err(e) ==> spec_parse(self@) == Err::<ProgramV, SyntaxErrorV>(error_view(e)),
    {
        let ghost pv0 = self@;
        let mut parser = self;
        let d = parser.dialect;
        let mut frames: Vec<(String, Vec<Instruction>)> = Vec::new();
        let mut top: Vec<Instruction> = Vec::new();
        let mut funcs: Table<Vec<Instruction>> = Table::new();
        assert(frames.deep_view() =~= Seq::<(Seq<char>, Seq<InstrV>)>::empty());
        assert(top.deep_view() =~= Seq::<InstrV>::empty());
        while parser.pos < parser.tokens.len()
            invariant
                parser.wf(),
                pv0 == self@,
                parser@.toks == pv0.toks,
                parser@.line_map == pv0.line_map,
                parser@.source == pv0.source,
                parser@.dialect == pv0.dialect,
                d == pv0.dialect,
                funcs.wf(),
                drive(pv0.toks, d, parser@.pos, frames.deep_view(), top.deep_view(), funcs.view())
                    == drive(pv0.toks, d, pv0.pos, Seq::empty(), Seq::empty(), Map::empty()),
            decreases parser.tokens@.len() - parser.pos,
        {
            let ghost p0 = parser@.pos;
            let ghost fv = frames.deep_view();
            let ghost tv = top.deep_view();
            let ghost mv = funcs.view();
            let in_block = frames.len() > 0;
            let step = parser.step(in_block);
            proof {
                lemma_step_advances(pv0.toks, p0, d, in_block);
            }
            match step {
                Step::Instr(i) => {
                    if frames.len() == 0 {
                        top.push(i);
                        assert(top.deep_view() =~= tv.push(i.deep_view()));
                    } else {
                        let (name, mut body) = frames.pop().unwrap();
                        let ghost bv = body.deep_view();
                        let ghost iv = i.deep_view();
                        body.push(i);
                        assert(body.deep_view() =~= bv.push(iv));
                        frames.push((name, body));
                        assert(frames.deep_view() =~= fv.update(
                            fv.len() - 1,
                            (fv.last().0, fv.last().1.push(iv)),
                        ));
                    }
                },
                Step::Open(name) => {
                    let body: Vec<Instruction> = Vec::new();
                    assert(body.deep_view() =~= Seq::<InstrV>::empty());
                    let ghost nv = name@;
                    frames.push((name, body));
                    assert(frames.deep_view() =~= fv.push((nv, Seq::<InstrV>::empty())));
                },
                Step::Close => {
                    let (name, body) = frames.pop().unwrap();
                    assert(frames.deep_view() =~= fv.drop_last());
                    funcs.insert(name, body);
                },
                Step::Fail(name, code, tok) => {
                    proof {
                        let at = parser@.pos;
                        if fv.len() == 0 {
                            assert(drive(pv0.toks, d, p0, fv, tv, mv) == Err::<ProgramV, (Seq<char>, u32, Seq<char>, nat)>((name@, code, tok@, at)));
                        } else {
                            assert(drive(pv0.toks, d, p0, fv, tv, mv) == Err::<ProgramV, (Seq<char>, u32, Seq<char>, nat)>(("BlockParseError"@, 1005u32, "fnc"@, at)));
                        }
                        assert(line_info(parser@, at) == line_info(pv0, at));
                    }
                    if frames.len() == 0 {
                        let e = parser.create_error(name.as_str(), code, tok.as_str());
                        assert(spec_parse(pv0) == Err::<ProgramV, SyntaxErrorV>(error_view(e)));
                        return Err(e);
                    } else {
                        let e = parser.create_error("BlockParseError", 1005, "fnc");
                        assert(spec_parse(pv0) == Err::<ProgramV, SyntaxErrorV>(error_view(e)));
                        return Err(e);
                    }
                },
            }
        }
        if frames.len() > 0 {
            Err(parser.create_error("BlockParseError", 1005, "fnc"))
        } else {
            Ok(Program { instructions: top, functions: funcs })
        }
    }
}

} // verus!
