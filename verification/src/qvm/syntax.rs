//! Instructions and programs of the QVM.
use vstd::prelude::*;
use crate::table::Table;
use crate::text::{string_is, lit, concat};

verus! {

broadcast use vstd::string::group_string_axioms;

/// Which revision of the QVM language a program is written in.
#[derive(Clone, Copy, Debug, PartialEq, Eq, Structural)]
pub enum Dialect {
    /// Braces are ordinary characters of tokens; no arithmetic.
    V4,
    /// Braces are tokens of their own; arithmetic pushes; a taken jump ends the block.
    V5,
}

/// The relation tested by a conditional jump.
#[derive(Clone, Copy, Debug, PartialEq, Eq, Structural)]
pub enum ComparisonOp {
    /// `=`
    Equal,
    /// `!=`
    NotEqual,
    /// `<`
    LessThan,
    /// `>`
    GreaterThan,
    /// `=<`
    LessEqual,
    /// `>=`
    GreaterEqual,
}

/// The operator of an arithmetic push.
#[derive(Clone, Copy, Debug, PartialEq, Eq, Structural)]
pub enum ArithmeticOp {
    /// `+`
    Add,
    /// `-`
    Subtract,
    /// `*`
    Multiply,
    /// `/`
    Divide,
}

/// The comparison operator spelled `s`, if any.
pub open spec fn spec_comparison_op(s: Seq<char>) -> Option<ComparisonOp> {
    if s == "="@ {
        Some(ComparisonOp::Equal)
    } else if s == "!="@ {
        Some(ComparisonOp::NotEqual)
    } else if s == "<"@ {
        Some(ComparisonOp::LessThan)
    } else if s == ">"@ {
        Some(ComparisonOp::GreaterThan)
    } else if s == "=<"@ {
        Some(ComparisonOp::LessEqual)
    } else if s == ">="@ {
        Some(ComparisonOp::GreaterEqual)
    } else {
        None
    }
}

/// The arithmetic operator spelled `s`, if any.
pub open spec fn spec_arithmetic_op(s: Seq<char>) -> Option<ArithmeticOp> {
    if s == "+"@ {
        Some(ArithmeticOp::Add)
    } else if s == "-"@ {
        Some(ArithmeticOp::Subtract)
    } else if s == "*"@ {
        Some(ArithmeticOp::Multiply)
    } else if s == "/"@ {
        Some(ArithmeticOp::Divide)
    } else {
        None
    }
}

impl ComparisonOp {
    /// Reads an operator: `=`, `!=`, `<`, `>`, `=<` or `>=`; anything else is refused with
    /// `Unknown comparison operator: <s>`.
    pub fn from_str(s: &str) -> (r: Result<ComparisonOp, String>)
        ensures
            r matches Ok(op) ==> spec_comparison_op(s@) == Some(op),
            r matches Err(m) ==> spec_comparison_op(s@) is None && m@ == "Unknown comparison operator: "@ + s@,
            r is Ok <==> spec_comparison_op(s@) is Some,
    {
        let t = s.to_string();
        if string_is(&t, "=") {
            Ok(ComparisonOp::Equal)
        } else if string_is(&t, "!=") {
            Ok(ComparisonOp::NotEqual)
        } else if string_is(&t, "<") {
            Ok(ComparisonOp::LessThan)
        } else if string_is(&t, ">") {
            Ok(ComparisonOp::GreaterThan)
        } else if string_is(&t, "=<") {
            Ok(ComparisonOp::LessEqual)
        } else if string_is(&t, ">=") {
            Ok(ComparisonOp::GreaterEqual)
        } else {
            let m = lit("Unknown comparison operator: ");
            Err(concat(&m, &t))
        }
    }
}

impl ArithmeticOp {
    /// Reads an operator: `+`, `-`, `*` or `/`; anything else is refused with
    /// `Unknown arithmetic operator: <s>`.
    pub fn from_str(s: &str) -> (r: Result<ArithmeticOp, String>)
        ensures
            r matches Ok(op) ==> spec_arithmetic_op(s@) == Some(op),
            r matches Err(m) ==> spec_arithmetic_op(s@) is None && m@ == "Unknown arithmetic operator: "@ + s@,
            r is Ok <==> spec_arithmetic_op(s@) is Some,
    {
        let t = s.to_string();
        if string_is(&t, "+") {
            Ok(ArithmeticOp::Add)
        } else if string_is(&t, "-") {
            Ok(ArithmeticOp::Subtract)
        } else if string_is(&t, "*") {
            Ok(ArithmeticOp::Multiply)
        } else if string_is(&t, "/") {
            Ok(ArithmeticOp::Divide)
        } else {
            let m = lit("Unknown arithmetic operator: ");
            Err(concat(&m, &t))
        }
    }
}

/// One QVM instruction. An operand `(text, is_var)` names a stack whose top is read
/// when `is_var` holds (it was written `@text@`), and is the literal `text` otherwise.
pub enum Instruction {
    /// `crt <name>`
    CreateStack(String),
    /// `psh <stack> <value>`
    Push(String, (String, bool)),
    /// `pop <stack>`
    Pop(String),
    /// `out <operand>`
    Out((String, bool)),
    /// `otn`
    PrintNewLine,
    /// `del <name>`
    DeleteStack(String),
    /// `cal <function>`
    CallFunction(String),
    /// `psh <stack> <op> <value>` (V5)
    Arithmetic { stack: String, operator: ArithmeticOp, value: String },
    /// `jmp <left> <right> <op> cal <function>`
    ConditionalJump {
        left_stack: (String, bool),
        right_stack: (String, bool),
        op: ComparisonOp,
        target_func: String,
    },
}

/// An instruction with its texts seen as character sequences.
pub enum InstrV {
    CreateStack(Seq<char>),
    Push(Seq<char>, (Seq<char>, bool)),
    Pop(Seq<char>),
    Out((Seq<char>, bool)),
    PrintNewLine,
    DeleteStack(Seq<char>),
    CallFunction(Seq<char>),
    Arithmetic { stack: Seq<char>, operator: ArithmeticOp, value: Seq<char> },
    ConditionalJump {
        left_stack: (Seq<char>, bool),
        right_stack: (Seq<char>, bool),
        op: ComparisonOp,
        target_func: Seq<char>,
    },
}

impl DeepView for Instruction {
    type V = InstrV;

    open spec fn deep_view(&self) -> InstrV {
        match self {
            Instruction::CreateStack(n) => InstrV::CreateStack(n@),
            Instruction::Push(s, (v, b)) => InstrV::Push(s@, (v@, *b)),
            Instruction::Pop(s) => InstrV::Pop(s@),
            Instruction::Out((v, b)) => InstrV::Out((v@, *b)),
            Instruction::PrintNewLine => InstrV::PrintNewLine,
            Instruction::DeleteStack(n) => InstrV::DeleteStack(n@),
            Instruction::CallFunction(f) => InstrV::CallFunction(f@),
            Instruction::Arithmetic { stack, operator, value } => InstrV::Arithmetic {
                stack: stack@,
                operator: *operator,
                value: value@,
            },
            Instruction::ConditionalJump { left_stack, right_stack, op, target_func } =>
                InstrV::ConditionalJump {
                    left_stack: (left_stack.0@, left_stack.1),
                    right_stack: (right_stack.0@, right_stack.1),
                    op: *op,
                    target_func: target_func@,
                },
        }
    }
}

/// A parsed program: the top-level instructions and the functions by name.
pub struct Program {
    pub instructions: Vec<Instruction>,
    pub functions: Table<Vec<Instruction>>,
}

/// A program seen as values.
pub struct ProgramV {
    pub instructions: Seq<InstrV>,
    pub functions: Map<Seq<char>, Seq<InstrV>>,
}

impl Program {
    /// The program as values.
    pub open spec fn view(&self) -> ProgramV {
        ProgramV { instructions: self.instructions.deep_view(), functions: self.functions.view() }
    }

    /// The function table is well formed.
    pub open spec fn wf(&self) -> bool {
        self.functions.wf()
    }
}

} // verus!
