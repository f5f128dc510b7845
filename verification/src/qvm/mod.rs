//! QVM: the stack-machine bytecode language of Quern, its lexer, parser and VM.
//!
//! Two dialects are supported: `V4`, the original instruction set, and `V5`, which
//! splits braces into their own tokens, adds arithmetic (`psh <stack> <op> <value>`)
//! and ends the current block after a taken jump.
pub mod syntax;
pub mod error;
pub mod lexer;
pub mod parser;
pub mod interpolate;
pub mod vm;
pub mod laws;
pub mod blocks;
