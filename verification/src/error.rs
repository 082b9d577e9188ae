//! The closed set of errors the compiler, the virtual machine and the
//! orchestrator report. Errors are values: the verified code never panics.

use vstd::prelude::*;
use crate::value::TypeKind;

verus! {

#[derive(Debug, PartialEq)]
pub enum Error {
    /// A variable with this name is already declared in the function.
    DuplicateVariable { name: String },
    /// No live variable with this name, neither in the current function
    /// nor at global scope.
    UnresolvedIdentifier { name: String },
    /// The named variable is a constant and cannot be assigned to.
    NotWriteable { name: String },
    /// No registered function with this name.
    UnknownFunction { name: String },
    /// No registered function with this id.
    UnknownFunctionId { id: u64 },
    /// A call supplied `given` arguments to a function of `expected` parameters.
    ArityMismatch { name: String, expected: usize, given: usize },
    /// A second function was declared under the reserved entry-point name.
    DuplicateEntryPoint,
    /// The entry point was declared with one or more parameters.
    EntryPointTakesParameters,
    /// A function declaration appeared while another was still open.
    FunctionStartInsideFunction,
    /// A function-end marker appeared outside a function declaration.
    FunctionEndOutsideFunction,
    /// A function-end marker appeared while nested blocks were still open.
    OpenScopesAtFunctionEnd,
    /// A scope tracker was needed but the tracker stack was empty.
    EmptyScopeStack,
    /// A block-closing statement appeared with no open block to close.
    NoScopeToClose,
    /// A frame operation ran with no frame on the call stack.
    NoFrame,
    /// An instruction was fetched with no frame marked as execution target.
    NoActiveFrame,
    /// A value was needed from an empty evaluation stack.
    EmptyEvalStack,
    /// The top of the evaluation stack failed a type assertion.
    TypeMismatch { expected: TypeKind, found: TypeKind },
    /// The per-function variable id counter is exhausted.
    TooManyVariables,
    /// The function id counter is exhausted.
    TooManyFunctions,
    /// A program counter cannot be advanced further.
    PcOverflow,
    /// The driver's step budget ran out before the program terminated.
    StepLimitExceeded,
    /// A return executed while a begun frame above the execution target was
    /// still awaiting activation.
    ReturnUnderPendingFrame,
}

} // verus!
