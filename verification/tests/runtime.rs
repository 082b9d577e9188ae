use birl::compiler::Statement;
use birl::context::{Context, ParsedLine};
use birl::error::Error;
use birl::function::{FunctionDeclaration, FunctionParameter};
use birl::instruction::Instruction;
use birl::session::Session;
use birl::value::{RawValue, TypeKind};
use birl::vm::ExecutionStatus;
use birl::{GLOBAL_FUNCTION_ID, MAIN_FUNCTION_ID};

fn decl(name: &str, args: Vec<FunctionParameter>) -> ParsedLine {
    ParsedLine::FunctionStart(FunctionDeclaration {
        name: name.to_owned(),
        arguments: args,
    })
}

fn param(name: &str, kind: TypeKind) -> FunctionParameter {
    FunctionParameter {
        name: name.to_owned(),
        kind,
    }
}

fn let_stmt(name: &str, value: RawValue) -> ParsedLine {
    ParsedLine::Command(Statement::Declare {
        name: name.to_owned(),
        writeable: true,
        value,
    })
}

fn const_stmt(name: &str, value: RawValue) -> ParsedLine {
    ParsedLine::Command(Statement::Declare {
        name: name.to_owned(),
        writeable: false,
        value,
    })
}

fn set_stmt(name: &str, value: RawValue) -> ParsedLine {
    ParsedLine::Command(Statement::Assign {
        name: name.to_owned(),
        value,
    })
}

fn call_stmt(name: &str, arguments: Vec<RawValue>) -> ParsedLine {
    ParsedLine::Command(Statement::Call {
        name: name.to_owned(),
        arguments,
    })
}

/// Batch scenario: a zero-parameter `SHOW` whose body writes a literal into
/// a declared variable; the empty top-level runs, then `SHOW`, and the
/// program terminates normally.
#[test]
fn show_scenario_runs_to_completion() {
    let mut ctx = Context::new();
    ctx.process_line(decl("SHOW", vec![])).unwrap();
    ctx.process_line(let_stmt("X", RawValue::Integer(13))).unwrap();
    ctx.process_line(ParsedLine::FunctionEnd).unwrap();
    assert!(ctx.has_main);
    ctx.start_program().unwrap();
    assert!(ctx.vm.quit);
    assert!(ctx.vm.frames.is_empty());
}

/// Driving `SHOW` step by step: after its two body instructions the declared
/// variable holds the literal, and the synthesized return terminates.
#[test]
fn show_variable_holds_literal_before_return() {
    let mut ctx = Context::new();
    ctx.process_line(decl("SHOW", vec![])).unwrap();
    ctx.process_line(let_stmt("X", RawValue::Integer(13))).unwrap();
    ctx.process_line(ParsedLine::FunctionEnd).unwrap();
    ctx.call_function_by_id(MAIN_FUNCTION_ID, vec![]).unwrap();
    assert_eq!(ctx.execute_next_instruction().unwrap(), ExecutionStatus::Normal);
    assert_eq!(ctx.execute_next_instruction().unwrap(), ExecutionStatus::Normal);
    assert_eq!(ctx.vm.current_var_value(1), Some(RawValue::Integer(13)));
    assert_eq!(ctx.execute_next_instruction().unwrap(), ExecutionStatus::Quit);
    assert!(ctx.vm.frames.is_empty());
}

/// With no entry point declared and nothing at top level, the implicit
/// top-level function runs to completion and the program ends without error.
#[test]
fn empty_program_terminates_without_error() {
    let mut ctx = Context::new();
    assert!(!ctx.has_main);
    assert_eq!(ctx.start_program(), Ok(()));
}

/// Two declarations of one name in the same block fail compilation.
#[test]
fn duplicate_declaration_same_block() {
    let mut ctx = Context::new();
    ctx.process_line(let_stmt("A", RawValue::Integer(1))).unwrap();
    let err = ctx.process_line(let_stmt("A", RawValue::Integer(2))).unwrap_err();
    assert_eq!(err, Error::DuplicateVariable { name: "A".to_owned() });
}

/// Uniqueness is function-wide, not per block: redeclaring in a nested block
/// fails the same way.
#[test]
fn duplicate_declaration_nested_block() {
    let mut ctx = Context::new();
    ctx.process_line(decl("F", vec![])).unwrap();
    ctx.process_line(let_stmt("A", RawValue::Integer(1))).unwrap();
    ctx.process_line(ParsedLine::Command(Statement::BlockOpen)).unwrap();
    let err = ctx.process_line(let_stmt("A", RawValue::Integer(2))).unwrap_err();
    assert_eq!(err, Error::DuplicateVariable { name: "A".to_owned() });
}

/// A parameter name doubles as a declared variable, so reusing it fails too.
#[test]
fn parameter_name_is_taken() {
    let mut ctx = Context::new();
    ctx.process_line(decl("F", vec![param("P", TypeKind::Integer)])).unwrap();
    let err = ctx.process_line(let_stmt("P", RawValue::Integer(2))).unwrap_err();
    assert_eq!(err, Error::DuplicateVariable { name: "P".to_owned() });
}

/// Scope exit in batch mode: a variable declared inside a block of a
/// function is unresolvable after the block closes.
#[test]
fn block_variable_unresolvable_after_close() {
    let mut ctx = Context::new();
    ctx.process_line(decl("F", vec![])).unwrap();
    ctx.process_line(ParsedLine::Command(Statement::BlockOpen)).unwrap();
    ctx.process_line(let_stmt("Y", RawValue::Integer(4))).unwrap();
    ctx.process_line(set_stmt("Y", RawValue::Integer(5))).unwrap();
    ctx.process_line(ParsedLine::Command(Statement::BlockClose)).unwrap();
    let err = ctx.process_line(set_stmt("Y", RawValue::Integer(6))).unwrap_err();
    assert_eq!(err, Error::UnresolvedIdentifier { name: "Y".to_owned() });
}

/// A second entry-point declaration fails.
#[test]
fn second_entry_point_rejected() {
    let mut ctx = Context::new();
    ctx.process_line(decl("SHOW", vec![])).unwrap();
    ctx.process_line(ParsedLine::FunctionEnd).unwrap();
    let err = ctx.process_line(decl("SHOW", vec![])).unwrap_err();
    assert_eq!(err, Error::DuplicateEntryPoint);
}

/// An entry point declared with parameters fails.
#[test]
fn entry_point_with_parameters_rejected() {
    let mut ctx = Context::new();
    let err = ctx
        .process_line(decl("SHOW", vec![param("P", TypeKind::Integer)]))
        .unwrap_err();
    assert_eq!(err, Error::EntryPointTakesParameters);
}

/// Wrong arity fails at compile time, before anything reaches the machine.
#[test]
fn compiled_call_wrong_arity() {
    let mut ctx = Context::new();
    ctx.process_line(decl("F", vec![param("P", TypeKind::Integer)])).unwrap();
    ctx.process_line(ParsedLine::FunctionEnd).unwrap();
    let err = ctx.process_line(call_stmt("F", vec![])).unwrap_err();
    assert_eq!(
        err,
        Error::ArityMismatch { name: "F".to_owned(), expected: 1, given: 0 }
    );
}

/// Wrong arity on a direct invocation fails before any instruction of the
/// call executes: the machine still has no frame.
#[test]
fn direct_call_wrong_arity_runs_nothing() {
    let mut ctx = Context::new();
    ctx.process_line(decl("F", vec![param("P", TypeKind::Integer)])).unwrap();
    ctx.process_line(ParsedLine::FunctionEnd).unwrap();
    let err = ctx
        .call_function_by_name(&"F".to_owned(), vec![RawValue::Integer(1), RawValue::Integer(2)])
        .unwrap_err();
    assert_eq!(
        err,
        Error::ArityMismatch { name: "F".to_owned(), expected: 1, given: 2 }
    );
    assert!(ctx.vm.frames.is_empty());
}

/// An argument of an incompatible type fails at the type-assertion step:
/// the value was pushed onto the begun frame's evaluation stack but stored
/// nowhere, and the frame never became the execution target.
#[test]
fn direct_call_incompatible_type_stops_at_assert() {
    let mut ctx = Context::new();
    ctx.process_line(decl("F", vec![param("P", TypeKind::Integer)])).unwrap();
    ctx.process_line(ParsedLine::FunctionEnd).unwrap();
    let err = ctx
        .call_function_by_name(&"F".to_owned(), vec![RawValue::Text("oops".to_owned())])
        .unwrap_err();
    assert_eq!(
        err,
        Error::TypeMismatch { expected: TypeKind::Integer, found: TypeKind::Text }
    );
    assert_eq!(ctx.vm.frames.len(), 1);
    assert_eq!(ctx.vm.frames[0].stack, vec![RawValue::Text("oops".to_owned())]);
    assert!(ctx.vm.frames[0].vars.is_empty());
    assert_eq!(ctx.vm.current, None);
}

/// An integer argument binds a floating-point parameter: the one permitted
/// coercion.
#[test]
fn integer_coerces_to_number() {
    let mut ctx = Context::new();
    ctx.process_line(decl("F", vec![param("P", TypeKind::Number)])).unwrap();
    ctx.process_line(ParsedLine::FunctionEnd).unwrap();
    ctx.call_function_by_name(&"F".to_owned(), vec![RawValue::Integer(3)])
        .unwrap();
    assert_eq!(ctx.vm.frames.len(), 1);
    assert_eq!(ctx.vm.frames[0].vars, vec![(1, RawValue::Integer(3))]);
}

/// Assigning to a constant fails; assigning to an unknown name fails.
#[test]
fn assignment_errors() {
    let mut ctx = Context::new();
    ctx.process_line(const_stmt("K", RawValue::Integer(1))).unwrap();
    let err = ctx.process_line(set_stmt("K", RawValue::Integer(2))).unwrap_err();
    assert_eq!(err, Error::NotWriteable { name: "K".to_owned() });
    let err = ctx.process_line(set_stmt("NOPE", RawValue::Integer(2))).unwrap_err();
    assert_eq!(err, Error::UnresolvedIdentifier { name: "NOPE".to_owned() });
}

/// Calling an unregistered function fails, by statement and by name.
#[test]
fn unknown_function_errors() {
    let mut ctx = Context::new();
    let err = ctx.process_line(call_stmt("MISSING", vec![])).unwrap_err();
    assert_eq!(err, Error::UnknownFunction { name: "MISSING".to_owned() });
    let err = ctx.call_function_by_name(&"MISSING".to_owned(), vec![]).unwrap_err();
    assert_eq!(err, Error::UnknownFunction { name: "MISSING".to_owned() });
    let err = ctx.call_function_by_id(77, vec![]).unwrap_err();
    assert_eq!(err, Error::UnknownFunctionId { id: 77 });
}

/// Structural errors around function declarations.
#[test]
fn declaration_structure_errors() {
    let mut ctx = Context::new();
    let err = ctx.process_line(ParsedLine::FunctionEnd).unwrap_err();
    assert_eq!(err, Error::FunctionEndOutsideFunction);
    ctx.process_line(decl("F", vec![])).unwrap();
    let err = ctx.process_line(decl("G", vec![])).unwrap_err();
    assert_eq!(err, Error::FunctionStartInsideFunction);
    ctx.process_line(ParsedLine::Command(Statement::BlockOpen)).unwrap();
    let err = ctx.process_line(ParsedLine::FunctionEnd).unwrap_err();
    assert_eq!(err, Error::OpenScopesAtFunctionEnd);
}

/// The type assertion peeks and never pops: after a failed assertion the
/// offending value still tops the evaluation stack.
#[test]
fn assert_instruction_peeks() {
    let mut ctx = Context::new();
    ctx.vm.run(&Instruction::MakeNewFrame(GLOBAL_FUNCTION_ID)).unwrap();
    ctx.vm.run(&Instruction::PushMainStr("T".to_owned())).unwrap();
    let err = ctx
        .vm
        .run(&Instruction::AssertMainTopTypeCompatible(TypeKind::Integer))
        .unwrap_err();
    assert_eq!(
        err,
        Error::TypeMismatch { expected: TypeKind::Integer, found: TypeKind::Text }
    );
    assert_eq!(ctx.vm.frames[0].stack, vec![RawValue::Text("T".to_owned())]);
}

/// Interactive scenario: open a block at global scope, declare a variable
/// inside it, close the block, then reference the variable — the reference
/// fails as unresolved.
#[test]
fn interactive_block_variable_unresolvable() {
    let mut s = Session::new(Context::new());
    s.process(ParsedLine::Command(Statement::BlockOpen)).unwrap();
    s.process(let_stmt("V", RawValue::Integer(8))).unwrap();
    s.process(ParsedLine::Command(Statement::BlockClose)).unwrap();
    let err = s.process(set_stmt("V", RawValue::Integer(9))).unwrap_err();
    assert_eq!(err, Error::UnresolvedIdentifier { name: "V".to_owned() });
}

/// Interactive statements at global scope with no open block take effect
/// immediately: the declared value is visible in the global store.
#[test]
fn interactive_immediate_execution() {
    let mut s = Session::new(Context::new());
    s.process(let_stmt("X", RawValue::Integer(7))).unwrap();
    assert_eq!(s.context.vm.global_value(1), Some(RawValue::Integer(7)));
    s.process(set_stmt("X", RawValue::Number(2.5f64.to_bits()))).unwrap();
    assert_eq!(
        s.context.vm.global_value(1),
        Some(RawValue::Number(2.5f64.to_bits()))
    );
}

/// Inside an open block, interactive statements are deferred: closing the
/// block does not execute them; they run before the next prompt once no
/// block is open.
#[test]
fn interactive_block_defers_execution() {
    let mut s = Session::new(Context::new());
    s.process(ParsedLine::Command(Statement::BlockOpen)).unwrap();
    s.process(let_stmt("D", RawValue::Integer(3))).unwrap();
    assert_eq!(s.context.vm.global_value(1), None);
    s.process(ParsedLine::Command(Statement::BlockClose)).unwrap();
    assert_eq!(s.context.vm.global_value(1), None);
    s.run_pending().unwrap();
    assert_eq!(s.context.vm.global_value(1), Some(RawValue::Integer(3)));
}

/// An interactive function declaration defers its body until a call; the
/// call runs to completion before the next prompt.
#[test]
fn interactive_function_call_runs_before_prompt() {
    let mut s = Session::new(Context::new());
    s.process(decl("G", vec![param("A", TypeKind::Integer)])).unwrap();
    assert!(s.in_function());
    s.process(let_stmt("B", RawValue::Integer(2))).unwrap();
    s.process(ParsedLine::FunctionEnd).unwrap();
    assert!(!s.in_function());
    s.process(call_stmt("G", vec![RawValue::Integer(41)])).unwrap();
    s.run_pending().unwrap();
    assert!(!s.has_quit());
    assert_eq!(s.context.vm.frames.len(), 1);
    assert_eq!(s.context.vm.frames[0].id, GLOBAL_FUNCTION_ID);
}

/// Closing a block at the interactive prompt with none open is rejected and
/// the session goes on.
#[test]
fn interactive_no_scope_to_close() {
    let mut s = Session::new(Context::new());
    let err = s.process(ParsedLine::Command(Statement::BlockClose)).unwrap_err();
    assert_eq!(err, Error::NoScopeToClose);
    s.process(let_stmt("OK", RawValue::Integer(1))).unwrap();
}

/// The prompt depth follows block nesting.
#[test]
fn interactive_depth_tracks_nesting() {
    let mut s = Session::new(Context::new());
    assert_eq!(s.depth(), 0);
    s.process(ParsedLine::Command(Statement::BlockOpen)).unwrap();
    assert_eq!(s.depth(), 1);
    s.process(ParsedLine::Command(Statement::BlockOpen)).unwrap();
    assert_eq!(s.depth(), 2);
    s.process(ParsedLine::Command(Statement::BlockClose)).unwrap();
    assert_eq!(s.depth(), 1);
}

/// Blank or comment lines change nothing anywhere.
#[test]
fn nothing_lines_are_ignored() {
    let mut ctx = Context::new();
    ctx.process_line(ParsedLine::Nothing).unwrap();
    assert_eq!(ctx.functions.len(), 1);
    let mut s = Session::new(Context::new());
    s.process(ParsedLine::Nothing).unwrap();
}

/// Function ids are allocated in order: 0 for the top level, 1 reserved for
/// the entry point, ordinary functions from 2 on.
#[test]
fn function_ids_are_sequential() {
    let mut ctx = Context::new();
    ctx.process_line(decl("F", vec![])).unwrap();
    ctx.process_line(ParsedLine::FunctionEnd).unwrap();
    ctx.process_line(decl("SHOW", vec![])).unwrap();
    ctx.process_line(ParsedLine::FunctionEnd).unwrap();
    ctx.process_line(decl("G", vec![])).unwrap();
    ctx.process_line(ParsedLine::FunctionEnd).unwrap();
    let ids: Vec<u64> = ctx.functions.iter().map(|f| f.id).collect();
    assert_eq!(ids, vec![0, 2, 1, 3]);
    assert_eq!(ctx.get_entry_by_id(MAIN_FUNCTION_ID).unwrap().name, "SHOW");
}

/// A block-closing statement with no tracker left on the batch stack fails.
#[test]
fn batch_empty_scope_stack() {
    let mut ctx = Context::new();
    // The batch base tracker can be popped by a stray close; the next one
    // finds the stack empty.
    ctx.process_line(ParsedLine::Command(Statement::BlockClose)).unwrap();
    let err = ctx
        .process_line(ParsedLine::Command(Statement::BlockClose))
        .unwrap_err();
    assert_eq!(err, Error::EmptyScopeStack);
}

/// Machine-level failures: operations that need a frame, a value, or an
/// execution target report exactly which piece is missing.
#[test]
fn vm_failure_modes() {
    let mut ctx = Context::new();
    let err = ctx.vm.run(&Instruction::PushMainInt(1)).unwrap_err();
    assert_eq!(err, Error::NoFrame);
    let err = ctx.execute_next_instruction().unwrap_err();
    assert_eq!(err, Error::NoActiveFrame);
    ctx.vm.run(&Instruction::MakeNewFrame(GLOBAL_FUNCTION_ID)).unwrap();
    let err = ctx.vm.run(&Instruction::WriteToVarWithId(0)).unwrap_err();
    assert_eq!(err, Error::EmptyEvalStack);
    let err = ctx.vm.run(&Instruction::MakeNewFrame(99)).unwrap_err();
    assert_eq!(err, Error::UnknownFunctionId { id: 99 });
}

/// Exhausted id counters are reported, not wrapped around.
#[test]
fn id_counters_saturate() {
    let mut ctx = Context::new();
    ctx.next_function_id = u64::MAX;
    let err = ctx.process_line(decl("F", vec![])).unwrap_err();
    assert_eq!(err, Error::TooManyFunctions);
    let mut ctx = Context::new();
    ctx.functions[0].next_var_id = u64::MAX;
    let err = ctx.process_line(let_stmt("A", RawValue::Integer(1))).unwrap_err();
    assert_eq!(err, Error::TooManyVariables);
}

/// A text argument binds a text parameter and sits in the callee's slot.
#[test]
fn text_argument_binds() {
    let mut ctx = Context::new();
    ctx.process_line(decl("F", vec![param("T", TypeKind::Text)])).unwrap();
    ctx.process_line(ParsedLine::FunctionEnd).unwrap();
    ctx.call_function_by_name(&"F".to_owned(), vec![RawValue::Text("hi".to_owned())])
        .unwrap();
    assert_eq!(
        ctx.vm.frames[0].vars,
        vec![(1, RawValue::Text("hi".to_owned()))]
    );
    assert_eq!(ctx.vm.current, Some(0));
}

/// End to end in batch mode: a top-level call statement drives the callee
/// through the frame protocol and returns to the top level.
#[test]
fn batch_top_level_call_executes() {
    let mut ctx = Context::new();
    ctx.process_line(decl("G", vec![param("A", TypeKind::Integer)])).unwrap();
    ctx.process_line(let_stmt("B", RawValue::Integer(2))).unwrap();
    ctx.process_line(ParsedLine::FunctionEnd).unwrap();
    ctx.process_line(call_stmt("G", vec![RawValue::Integer(41)])).unwrap();
    assert_eq!(ctx.start_program(), Ok(()));
    assert!(ctx.vm.frames.is_empty());
    assert!(!ctx.vm.quit);
}

/// Top-level declarations and assignments land in the persistent global
/// store, which outlives the bootstrap frame: the last write wins.
#[test]
fn batch_global_store_holds_final_value() {
    let mut ctx = Context::new();
    ctx.process_line(let_stmt("X", RawValue::Integer(1))).unwrap();
    ctx.process_line(set_stmt("X", RawValue::Integer(2))).unwrap();
    assert_eq!(ctx.start_program(), Ok(()));
    assert_eq!(ctx.vm.global_value(1), Some(RawValue::Integer(2)));
}
