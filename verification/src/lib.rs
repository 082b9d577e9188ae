//! Runtime for a small line-oriented imperative scripting language: a
//! compiler that lowers parsed statements into a linear instruction stream
//! while tracking lexical variable lifetime, a stack/frame-based virtual
//! machine that executes that stream, and the orchestration that keeps
//! compile-time scope state and run-time frame state consistent.

use vstd::prelude::*;

pub mod error;
pub mod function;
pub mod instruction;
pub mod laws;
pub mod compiler;
pub mod context;
pub mod scope;
pub mod session;
pub mod vm;
pub mod value;

verus! {

/// Name reserved for the program's entry-point function.
pub const MAIN_FUNCTION_NAME: &'static str = "SHOW";

/// Function id reserved for the entry point.
pub const MAIN_FUNCTION_ID: u64 = 1;

/// Function id reserved for the implicit top-level ("global") function.
pub const GLOBAL_FUNCTION_ID: u64 = 0;

/// Variable id reserved, in every function, for its return-value slot.
pub const RET_VAL_VAR_ID: u64 = 0;

/// Prints usage help for one interpreter command. No per-command help text
/// exists yet, so this does nothing.
pub fn command_help(_command: &str) {
}

} // verus!
