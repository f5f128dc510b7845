//! Quern: the script interpreter, the QVM bytecode toolchain, configuration and logging, verified with Verus.
use vstd::prelude::*;

pub mod text;
pub mod config;
pub mod logging;
pub mod table;
pub mod qvm;
pub mod launcher;
pub mod runtime;

verus! {
} // verus!
