//! The compiler: lowers one parsed statement into zero or more instructions,
//! given the currently open function's symbol table, optionally the global
//! function's table for cross-scope lookups, and the function registry for
//! call resolution. It mutates no table itself: scope- and declaration-
//! affecting events are handed back as hints for the orchestrator to apply.

use vstd::prelude::*;
use vstd::pervasive::unreached;
use crate::error::Error;
use crate::function::{FunctionEntry, has_var_named, var_named};
use crate::instruction::{Instruction, push_instruction_for, push_of};
use crate::value::RawValue;

verus! {

/// One statement to compile. The lexical grammar that produces these is an
/// external concern; the compiler starts from this structured form.
#[derive(Debug, PartialEq)]
pub enum Statement {
    /// Declare a new variable in the innermost open block, with an initial
    /// value. A non-writeable variable is a constant.
    Declare { name: String, writeable: bool, value: RawValue },
    /// Assign a value to an already-declared, writeable variable.
    Assign { name: String, value: RawValue },
    /// Invoke a registered function with literal arguments.
    Call { name: String, arguments: Vec<RawValue> },
    /// Open a nested lexical block.
    BlockOpen,
    /// Close the innermost lexical block.
    BlockClose,
}

/// A compiler output signaling a scope- or declaration-affecting event that
/// the orchestrator, not the compiler, must apply to the persistent tables.
#[derive(Debug, PartialEq)]
pub enum CompilerHint {
    /// Register this variable in the open function and record its id in the
    /// innermost open scope tracker.
    DeclareVar { name: String, writeable: bool },
    /// Push a fresh scope tracker.
    ScopeStart,
    /// Pop the innermost scope tracker and drain its ids.
    ScopeEnd,
}

/// The index of the first registry entry named `name`, scanning from `k`.
pub open spec fn find_named(funcs: Seq<FunctionEntry>, name: Seq<char>, k: int) -> Option<int>
    decreases funcs.len() - k,
{
    if k < 0 || k >= funcs.len() {
        None
    } else if funcs[k].name@ == name {
        Some(k)
    } else {
        find_named(funcs, name, k + 1)
    }
}

/// The index of the first registry entry named `name`, if any: calls resolve
/// to the earliest registered function of that name.
pub open spec fn function_named_index(funcs: Seq<FunctionEntry>, name: Seq<char>) -> Option<int> {
    find_named(funcs, name, 0)
}

/// A found index lies within the registry and bears the name.
pub proof fn lemma_find_named_in_range(
    funcs: Seq<FunctionEntry>,
    name: Seq<char>,
    k: int,
    j: int,
)
    requires
        0 <= k,
        find_named(funcs, name, k) == Some(j),
    ensures
        k <= j < funcs.len(),
        funcs[j].name@ == name,
    decreases funcs.len() - k,
{
    if k < funcs.len() && funcs[k].name@ != name {
        lemma_find_named_in_range(funcs, name, k + 1, j);
    }
}

/// The instructions that bind the first `n` arguments of a call, in
/// declaration order: for argument `k`, push its value, assert it is
/// type-compatible with parameter `k`, and store it into the callee's
/// parameter slot (the variable with id `k + 1`).
pub open spec fn arg_binding_seq(f: FunctionEntry, args: Seq<RawValue>, n: int) -> Seq<Instruction>
    decreases n,
{
    if n <= 0 {
        Seq::<Instruction>::empty()
    } else {
        arg_binding_seq(f, args, n - 1) + seq![
            push_of(args[n - 1]),
            Instruction::AssertMainTopTypeCompatible(f.params@[n - 1].kind),
            Instruction::WriteToVarWithId(n as u64),
        ]
    }
}

/// The complete sequence a call compiles to: begin a frame for the callee,
/// bind every argument, then mark the new frame as the execution target.
pub open spec fn call_sequence(f: FunctionEntry, args: Seq<RawValue>) -> Seq<Instruction> {
    seq![Instruction::MakeNewFrame(f.id)] + arg_binding_seq(f, args, args.len() as int) + seq![
        Instruction::SetLastFrameReady,
    ]
}

/// The store a write should target: the global function's variables live in
/// the machine's persistent global store, which outlives frames; any other
/// function's variables live in its frame.
pub open spec fn write_instr_for(f: FunctionEntry, var_id: u64) -> Instruction {
    if f.id == crate::GLOBAL_FUNCTION_ID {
        Instruction::WriteToGlobalVarWithId(var_id)
    } else {
        Instruction::WriteToVarWithId(var_id)
    }
}

/// The value behind an optional borrowed global entry.
pub open spec fn global_model(global: Option<&FunctionEntry>) -> Option<FunctionEntry> {
    match global {
        Some(g) => Some(*g),
        None => None,
    }
}

/// What compiling one statement emits and reports: the instructions appended
/// to the caller's buffer, and the hint or error. This is the compiler's
/// whole semantics; `Compiler::compile_command` is proved to follow it.
pub open spec fn compile_spec(
    cmd: Statement,
    current: FunctionEntry,
    global: Option<FunctionEntry>,
    funcs: Seq<FunctionEntry>,
) -> (Seq<Instruction>, Result<Option<CompilerHint>, Error>) {
    match cmd {
        Statement::Declare { name, writeable, value } => (
            seq![push_of(value), write_instr_for(current, current.next_var_id)],
            Ok(Some(CompilerHint::DeclareVar { name, writeable })),
        ),
        Statement::Assign { name, value } => {
            if has_var_named(current.vars@, name@) {
                let v = var_named(current.vars@, name@);
                if v.writeable {
                    (seq![push_of(value), write_instr_for(current, v.id)], Ok(None::<CompilerHint>))
                } else {
                    (Seq::<Instruction>::empty(), Err(Error::NotWriteable { name }))
                }
            } else if global is Some && has_var_named(global->Some_0.vars@, name@) {
                let v = var_named(global->Some_0.vars@, name@);
                if v.writeable {
                    (
                        seq![push_of(value), Instruction::WriteToGlobalVarWithId(v.id)],
                        Ok(None::<CompilerHint>),
                    )
                } else {
                    (Seq::<Instruction>::empty(), Err(Error::NotWriteable { name }))
                }
            } else {
                (Seq::<Instruction>::empty(), Err(Error::UnresolvedIdentifier { name }))
            }
        },
        Statement::Call { name, arguments } => {
            match function_named_index(funcs, name@) {
                None => (Seq::<Instruction>::empty(), Err(Error::UnknownFunction { name })),
                Some(k) => {
                    let f = funcs[k];
                    if f.params@.len() != arguments@.len() {
                        (
                            Seq::<Instruction>::empty(),
                            Err(
                                Error::ArityMismatch {
                                    name,
                                    expected: f.params@.len() as usize,
                                    given: arguments@.len() as usize,
                                },
                            ),
                        )
                    } else {
                        (call_sequence(f, arguments@), Ok(None::<CompilerHint>))
                    }
                },
            }
        },
        Statement::BlockOpen => (
            Seq::<Instruction>::empty(),
            Ok(Some(CompilerHint::ScopeStart)),
        ),
        Statement::BlockClose => (
            Seq::<Instruction>::empty(),
            Ok(Some(CompilerHint::ScopeEnd)),
        ),
    }
}

/// The compiler. It holds no state: the same entry point serves batch
/// compilation, where hints feed persistent tables, and interactive
/// compilation, where hints feed a session's transient tables.
pub struct Compiler {}

impl Compiler {
    /// Compiles one statement against the open function `current`, with the
    /// global function's table for fallback lookups (absent when `current`
    /// is itself the global function) and the registry for call resolution.
    /// Appends the emitted instructions to `instructions` (strictly
    /// append-only) and returns the scope hint, if the statement produced
    /// one. Emits and reports exactly what `compile_spec` says.
    pub fn compile_command(
        cmd: Statement,
        current: &FunctionEntry,
        global: Option<&FunctionEntry>,
        funcs: &Vec<FunctionEntry>,
        instructions: &mut Vec<Instruction>,
    ) -> (r: Result<Option<CompilerHint>, Error>)
        requires
            current.names_unique(),
            (match global {
                Some(g) => g.names_unique(),
                None => true,
            }),
            forall|i: int| 0 <= i < funcs@.len() ==> (#[trigger] funcs@[i]).wf(),
        ensures
            ({
                let (emitted, result) = compile_spec(cmd, *current, global_model(global), funcs@);
                final(instructions)@ == old(instructions)@ + emitted && r == result
            }),
    {
        let ghost pre = instructions@;
        match cmd {
            Statement::Declare { name, writeable, value } => {
                instructions.push(push_instruction_for(value));
                if current.id == crate::GLOBAL_FUNCTION_ID {
                    instructions.push(Instruction::WriteToGlobalVarWithId(current.next_var_id));
                } else {
                    instructions.push(Instruction::WriteToVarWithId(current.next_var_id));
                }
                proof {
                    assert(instructions@ =~= pre + compile_spec(
                        Statement::Declare { name, writeable, value },
                        *current,
                        global_model(global),
                        funcs@,
                    ).0);
                }
                Ok(Some(CompilerHint::DeclareVar { name, writeable }))
            },
            Statement::Assign { name, value } => {
                match current.get_writeable_for(&name) {
                    Some(w) => {
                        if !w {
                            proof {
                                assert(instructions@ =~= pre + Seq::<Instruction>::empty());
                            }
                            return Err(Error::NotWriteable { name });
                        }
                        let id = match current.get_id_for(&name) {
                            Some(id) => id,
                            None => unreached(),
                        };
                        instructions.push(push_instruction_for(value));
                        if current.id == crate::GLOBAL_FUNCTION_ID {
                            instructions.push(Instruction::WriteToGlobalVarWithId(id));
                        } else {
                            instructions.push(Instruction::WriteToVarWithId(id));
                        }
                        proof {
                            assert(instructions@ =~= pre + seq![
                                push_of(value),
                                write_instr_for(*current, id),
                            ]);
                        }
                        Ok(None)
                    },
                    None => {
                        match global {
                            Some(g) => {
                                match g.get_writeable_for(&name) {
                                    Some(w) => {
                                        if !w {
                                            proof {
                                                assert(instructions@ =~= pre
                                                    + Seq::<Instruction>::empty());
                                            }
                                            return Err(Error::NotWriteable { name });
                                        }
                                        let id = match g.get_id_for(&name) {
                                            Some(id) => id,
                                            None => unreached(),
                                        };
                                        instructions.push(push_instruction_for(value));
                                        instructions.push(
                                            Instruction::WriteToGlobalVarWithId(id),
                                        );
                                        proof {
                                            assert(instructions@ =~= pre + seq![
                                                push_of(value),
                                                Instruction::WriteToGlobalVarWithId(id),
                                            ]);
                                        }
                                        Ok(None)
                                    },
                                    None => {
                                        proof {
                                            assert(instructions@ =~= pre
                                                + Seq::<Instruction>::empty());
                                        }
                                        Err(Error::UnresolvedIdentifier { name })
                                    },
                                }
                            },
                            None => {
                                proof {
                                    assert(instructions@ =~= pre + Seq::<Instruction>::empty());
                                }
                                Err(Error::UnresolvedIdentifier { name })
                            },
                        }
                    },
                }
            },
            Statement::Call { name, arguments } => {
                let n = funcs.len();
                let mut fi: usize = 0;
                let mut found = false;
                while fi < n && !found
                    invariant
                        n == funcs@.len(),
                        0 <= fi <= n,
                        found ==> fi < n && funcs@[fi as int].name@ == name@
                            && function_named_index(funcs@, name@) == Some(fi as int),
                        !found ==> find_named(funcs@, name@, 0) == find_named(
                            funcs@,
                            name@,
                            fi as int,
                        ),
                    decreases n - fi + (if found { 0int } else { 1int }),
                {
                    if funcs[fi].name == name {
                        found = true;
                    } else {
                        fi = fi + 1;
                    }
                }
                if !found {
                    proof {
                        assert(find_named(funcs@, name@, n as int) is None);
                        assert(instructions@ =~= pre + Seq::<Instruction>::empty());
                    }
                    return Err(Error::UnknownFunction { name });
                }
                let f = &funcs[fi];
                let ghost fspec = funcs@[fi as int];
                if f.params.len() != arguments.len() {
                    proof {
                        assert(instructions@ =~= pre + Seq::<Instruction>::empty());
                    }
                    return Err(
                        Error::ArityMismatch {
                            name,
                            expected: f.params.len(),
                            given: arguments.len(),
                        },
                    );
                }
                instructions.push(Instruction::MakeNewFrame(f.id));
                let arg_count = arguments.len();
                let mut k: usize = 0;
                while k < arg_count
                    invariant
                        pre == old(instructions)@,
                        arg_count == arguments@.len(),
                        0 <= k <= arg_count,
                        fi < funcs@.len(),
                        fspec == funcs@[fi as int],
                        f == &funcs@[fi as int],
                        fspec.wf(),
                        fspec.params@.len() == arguments@.len(),
                        instructions@ == pre + seq![Instruction::MakeNewFrame(fspec.id)]
                            + arg_binding_seq(fspec, arguments@, k as int),
                    decreases arg_count - k,
                {
                    let val = arguments[k].clone();
                    instructions.push(push_instruction_for(val));
                    instructions.push(
                        Instruction::AssertMainTopTypeCompatible(f.params[k].kind),
                    );
                    let slot = match f.get_id_for(&f.params[k].name) {
                        Some(id) => id,
                        None => {
                            proof {
                                assert(fspec.params_registered());
                                let i = choose|i: int|
                                    0 <= i < fspec.vars@.len() && (#[trigger] fspec.vars@[i]).id
                                        == k + 1 && fspec.vars@[i].name@
                                        == fspec.params@[k as int].name@
                                        && fspec.vars@[i].writeable;
                                assert(has_var_named(fspec.vars@, fspec.params@[k as int].name@));
                            }
                            unreached()
                        },
                    };
                    proof {
                        // The variable bearing parameter `k`'s name is the
                        // parameter slot itself, whose id is `k + 1`.
                        assert(fspec.params_registered());
                        let i = choose|i: int|
                            0 <= i < fspec.vars@.len() && (#[trigger] fspec.vars@[i]).id == k + 1
                                && fspec.vars@[i].name@ == fspec.params@[k as int].name@
                                && fspec.vars@[i].writeable;
                        assert(has_var_named(fspec.vars@, fspec.params@[k as int].name@));
                        let w = choose|w: int|
                            0 <= w < fspec.vars@.len() && fspec.vars@[w].name@
                                == fspec.params@[k as int].name@;
                        assert(w == i);
                        assert(slot == (k + 1) as u64);
                    }
                    instructions.push(Instruction::WriteToVarWithId(slot));
                    proof {
                        assert(instructions@ =~= pre + seq![Instruction::MakeNewFrame(fspec.id)]
                            + arg_binding_seq(fspec, arguments@, k + 1));
                    }
                    k = k + 1;
                }
                instructions.push(Instruction::SetLastFrameReady);
                proof {
                    assert(instructions@ =~= pre + call_sequence(fspec, arguments@));
                }
                Ok(None)
            },
            Statement::BlockOpen => {
                proof {
                    assert(instructions@ =~= pre + Seq::<Instruction>::empty());
                }
                Ok(Some(CompilerHint::ScopeStart))
            },
            Statement::BlockClose => {
                proof {
                    assert(instructions@ =~= pre + Seq::<Instruction>::empty());
                }
                Ok(Some(CompilerHint::ScopeEnd))
            },
        }
    }
}

} // verus!
