//! The Quern script runtime: values, scopes and the line interpreter.
pub mod value;
pub mod context;
pub mod literal;
pub mod scan;
pub mod grammar;
pub mod imports;
pub mod words;
pub mod statement;
pub mod interpreter;
pub mod laws;
