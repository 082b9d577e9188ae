//! The interactive read-compile-execute session: processes one parsed line
//! at a time against transient session tables. While at global scope with no
//! open block, freshly compiled statements execute immediately against the
//! live machine; inside an open block or an in-progress function declaration
//! they are only appended to the relevant body and deferred (closing a block
//! does not itself execute them).

use vstd::prelude::*;
use vstd::pervasive::unreached;
use crate::compiler::{Compiler, CompilerHint, Statement, compile_spec};
use crate::context::{
    Context, ParsedLine, Scope, entry_index, entry_with_id, has_entry_with_id, trackers_above,
    first_bad_arg, tables_unchanged,
};
use crate::error::Error;
use crate::function::{FunctionDeclaration, FunctionEntry, Variable, has_var_named};
use crate::instruction::Instruction;
use crate::scope::ScopeManager;
use crate::value::RawValue;
use crate::vm::VmModel;
use crate::GLOBAL_FUNCTION_ID;

verus! {

/// The machine after running a compiled sequence from position `i` on,
/// stopping at the first failing instruction, paired with that failure.
pub open spec fn run_all(m: VmModel, instrs: Seq<Instruction>, i: int) -> (VmModel, Option<Error>)
    decreases instrs.len() - i,
{
    if i < 0 || i >= instrs.len() {
        (m, None)
    } else {
        let stepped = m.step(instrs[i]);
        match stepped.1 {
            Err(e) => (stepped.0, Some(e)),
            Ok(_) => run_all(stepped.0, instrs, i + 1),
        }
    }
}

/// What processing a statement does to an interactive session. Compilation
/// targets the global function or the one being declared; the hint feeds the
/// session's transient tables; then, at global scope with no open block, the
/// emitted instructions run immediately against the live machine, and
/// otherwise they are appended to the relevant body and deferred.
pub open spec fn sess_command_post(
    pre: Session,
    post: Session,
    stmt: Statement,
    r: Result<(), Error>,
) -> bool {
    let tidx = sess_target_index(pre);
    let cur = pre.context.functions@[tidx];
    let glob = if pre.scope == Scope::Global {
        None
    } else {
        Some(pre.context.functions@[0])
    };
    let outcome = compile_spec(stmt, cur, glob, pre.context.functions@);
    let emitted = outcome.0;
    match outcome.1 {
        Err(e) => r == Err::<(), Error>(e) && sess_unchanged(pre, post),
        Ok(hint) => match hint {
            None => {
                &&& post.context.functions@[tidx].vars == cur.vars
                &&& post.context.functions@[tidx].next_var_id == cur.next_var_id
                &&& sess_stack(post) == sess_stack(pre)
                &&& sess_dispose(pre, post, tidx, emitted, r, pre.stack_len())
            },
            Some(CompilerHint::ScopeStart) => {
                &&& post.context.functions@[tidx].vars == cur.vars
                &&& post.context.functions@[tidx].next_var_id == cur.next_var_id
                &&& sess_stack(post).len() == pre.stack_len() + 1
                &&& sess_stack(post) == sess_stack(pre).push(sess_stack(post).last())
                &&& sess_stack(post).last().ids@.len() == 0
                &&& sess_dispose(pre, post, tidx, emitted, r, pre.stack_len() + 1)
            },
            Some(CompilerHint::ScopeEnd) => {
                if pre.stack_len() <= 1 {
                    r == Err::<(), Error>(Error::NoScopeToClose {  }) && sess_unchanged(pre, post)
                } else {
                    &&& sess_stack(post) == sess_stack(pre).drop_last()
                    &&& post.context.functions@[tidx].vars@ == sess_stack(pre).last().drained(
                        cur.vars@,
                    )
                    &&& post.context.functions@[tidx].next_var_id == cur.next_var_id
                    &&& sess_dispose(pre, post, tidx, emitted, r, pre.stack_len() - 1)
                }
            },
            Some(CompilerHint::DeclareVar { name, writeable }) => {
                if has_var_named(cur.vars@, name@) {
                    r == Err::<(), Error>(Error::DuplicateVariable { name }) && sess_unchanged(
                        pre,
                        post,
                    )
                } else if cur.next_var_id == u64::MAX {
                    r == Err::<(), Error>(Error::TooManyVariables {  }) && sess_unchanged(
                        pre,
                        post,
                    )
                } else {
                    &&& post.context.functions@[tidx].vars@ == cur.vars@.push(
                        Variable { name: name, id: cur.next_var_id, writeable: writeable },
                    )
                    &&& post.context.functions@[tidx].next_var_id == cur.next_var_id + 1
                    &&& sess_stack(post).len() == pre.stack_len()
                    &&& sess_stack(post) == sess_stack(pre).update(
                        pre.stack_len() - 1,
                        sess_stack(post).last(),
                    )
                    &&& sess_stack(post).last().ids@ == sess_stack(pre).last().ids@.push(
                        cur.next_var_id,
                    )
                    &&& sess_dispose(pre, post, tidx, emitted, r, pre.stack_len())
                }
            },
        },
    }
}

/// The registry index the session's statements currently target.
pub open spec fn sess_target_index(s: Session) -> int {
    if s.scope == Scope::Global {
        0int
    } else {
        entry_index(s.context.functions@, s.open_function_id)
    }
}

/// The session's active tracker stack.
pub open spec fn sess_stack(s: Session) -> Seq<ScopeManager> {
    if s.scope == Scope::Global {
        s.trackers@
    } else {
        s.function_trackers@
    }
}

impl Session {
    /// The length of the active tracker stack.
    pub open spec fn stack_len(self) -> int {
        sess_stack(self).len() as int
    }
}

/// Nothing of the session changed.
pub open spec fn sess_unchanged(pre: Session, post: Session) -> bool {
    &&& post.context.vm@ == pre.context.vm@
    &&& post.context.functions@ == pre.context.functions@
    &&& post.context.scope == pre.context.scope
    &&& post.trackers@ == pre.trackers@
    &&& post.function_trackers@ == pre.function_trackers@
    &&& post.scope == pre.scope
    &&& post.open_function_id == pre.open_function_id
}

/// Where a statement's compiled instructions went, given the depth after its
/// hint was applied: appended to the open function's body in a declaration;
/// run immediately at global scope with no block open (the result and the
/// machine are exactly `run_all`'s); appended to the global body, deferred,
/// inside an open block. The session's scope bookkeeping never moves.
pub open spec fn sess_dispose(
    pre: Session,
    post: Session,
    tidx: int,
    emitted: Seq<Instruction>,
    r: Result<(), Error>,
    depth_after: int,
) -> bool {
    &&& post.scope == pre.scope
    &&& post.open_function_id == pre.open_function_id
    &&& post.context.scope == pre.context.scope
    &&& post.context.has_main == pre.context.has_main
    &&& post.context.next_function_id == pre.context.next_function_id
    &&& post.context.last_function_id == pre.context.last_function_id
    &&& post.context.global_scope@ == pre.context.global_scope@
    &&& post.context.function_scope@ == pre.context.function_scope@
    &&& post.context.functions@ == pre.context.functions@.update(
        tidx,
        post.context.functions@[tidx],
    )
    &&& post.context.functions@[tidx].name == pre.context.functions@[tidx].name
    &&& post.context.functions@[tidx].id == pre.context.functions@[tidx].id
    &&& post.context.functions@[tidx].params == pre.context.functions@[tidx].params
    &&& (pre.scope == Scope::Function ==> post.function_trackers@.len() >= 1 && post.trackers@
        == pre.trackers@)
    &&& (pre.scope == Scope::Global ==> post.function_trackers@ == pre.function_trackers@
        && post.trackers@.len() >= 1)
    &&& (if pre.scope == Scope::Function || depth_after >= 2 {
        // Deferred: appended to the targeted body, machine untouched.
        &&& post.context.functions@[tidx].body@ == pre.context.functions@[tidx].body@ + emitted
        &&& post.context.vm@ == pre.context.vm@
        &&& r == Ok::<(), Error>(())
    } else {
        // Immediate: executed against the live machine, body untouched.
        &&& post.context.functions@[tidx].body@ == pre.context.functions@[tidx].body@
        &&& post.context.vm@ == run_all(pre.context.vm@, emitted, 0).0
        &&& (match run_all(pre.context.vm@, emitted, 0).1 {
            Some(e) => r == Err::<(), Error>(e),
            None => r == Ok::<(), Error>(()),
        })
    })
}

/// What declaring a function at the prompt does: only valid at global scope;
/// registers it under the entry-point constraints and opens it with one
/// fresh tracker.
pub open spec fn sess_function_start_post(
    pre: Session,
    post: Session,
    decl: FunctionDeclaration,
    r: Result<(), Error>,
) -> bool {
    if pre.scope == Scope::Function {
        r == Err::<(), Error>(Error::FunctionStartInsideFunction {  }) && sess_unchanged(pre, post)
    } else {
        let is_main = decl.name@ == crate::MAIN_FUNCTION_NAME@;
        let ok_id: u64 = if is_main {
            crate::MAIN_FUNCTION_ID
        } else {
            pre.context.next_function_id
        };
        &&& (is_main && pre.context.has_main ==> r == Err::<(), Error>(
            Error::DuplicateEntryPoint {  },
        ) && sess_unchanged(pre, post))
        &&& (is_main && !pre.context.has_main && decl.arguments@.len() > 0 ==> r == Err::<
            (),
            Error,
        >(Error::EntryPointTakesParameters {  }) && sess_unchanged(pre, post))
        &&& (r is Err ==> sess_unchanged(pre, post))
        &&& (r is Ok <==> (is_main ==> !pre.context.has_main && decl.arguments@.len() == 0) && (
        !is_main ==> pre.context.next_function_id < u64::MAX) && crate::context::decl_params_ok(
            decl.arguments@,
        ) && decl.arguments@.len() + 1 <= u64::MAX)
        &&& (r is Ok ==> post.context.functions@ == pre.context.functions@.push(
            post.context.functions@.last(),
        ) && crate::context::is_fresh_entry(
            post.context.functions@.last(),
            decl.name@,
            ok_id,
            decl.arguments@,
        ) && post.scope == Scope::Function && post.open_function_id == ok_id
            && post.function_trackers@.len() == 1 && post.function_trackers@[0].ids@.len() == 0
            && post.trackers@ == pre.trackers@ && post.context.vm@ == (VmModel {
            known: pre.context.vm@.known.push(ok_id),
            ..pre.context.vm@
        }))
    }
}

/// What the function-end marker does at the prompt: only valid with a
/// function open and no nested blocks left; drains the function-level
/// tracker and returns the prompt to global scope. The deferred body stays
/// compiled; a later call triggers its execution.
pub open spec fn sess_function_end_post(pre: Session, post: Session, r: Result<(), Error>) -> bool {
    if pre.scope != Scope::Function {
        r == Err::<(), Error>(Error::FunctionEndOutsideFunction {  }) && sess_unchanged(pre, post)
    } else if pre.function_trackers@.len() > 1 {
        r == Err::<(), Error>(Error::OpenScopesAtFunctionEnd {  }) && sess_unchanged(pre, post)
    } else {
        let tidx = entry_index(pre.context.functions@, pre.open_function_id);
        let cur = pre.context.functions@[tidx];
        &&& r == Ok::<(), Error>(())
        &&& post.context.functions@ == pre.context.functions@.update(
            tidx,
            post.context.functions@[tidx],
        )
        &&& post.context.functions@[tidx].vars@ == pre.function_trackers@[0].drained(cur.vars@)
        &&& post.context.functions@[tidx].body == cur.body
        &&& post.context.functions@[tidx].name == cur.name
        &&& post.context.functions@[tidx].id == cur.id
        &&& post.context.functions@[tidx].params == cur.params
        &&& post.context.functions@[tidx].next_var_id == cur.next_var_id
        &&& post.scope == Scope::Global
        &&& post.function_trackers@.len() == 0
        &&& post.trackers@ == pre.trackers@
        &&& post.context.vm@ == pre.context.vm@
        &&& post.open_function_id == pre.open_function_id
    }
}

/// Whether the pre-prompt drive has nothing left to do: the program has
/// terminated, no frame is the execution target, or control is back in the
/// global frame — with its deferred body instructions already consumed when
/// no block is open.
pub open spec fn pending_done(m: VmModel, funcs: Seq<FunctionEntry>, at_top: bool) -> bool {
    ||| m.quit
    ||| m.current is None
    ||| (m.frames[m.current->Some_0 as int].id == crate::GLOBAL_FUNCTION_ID && (at_top
        ==> m.frames[m.current->Some_0 as int].pc >= entry_with_id(
        funcs,
        crate::GLOBAL_FUNCTION_ID,
    ).body@.len()))
}

/// What the pre-prompt drive does: step the machine until `pending_done`
/// holds, stop with the error of a failing step, and give up only when the
/// step budget runs out. This is `run_pending`'s whole semantics.
pub open spec fn drain_pending(
    m: VmModel,
    funcs: Seq<FunctionEntry>,
    at_top: bool,
    fuel: nat,
) -> (VmModel, Result<(), Error>)
    decreases fuel,
{
    if fuel == 0 {
        (m, Err(Error::StepLimitExceeded {  }))
    } else if pending_done(m, funcs, at_top) {
        (m, Ok(()))
    } else {
        let stepped = crate::context::driver_step(m, funcs);
        match stepped.1 {
            Err(e) => (stepped.0, Err(e)),
            Ok(_) => drain_pending(stepped.0, funcs, at_top, (fuel - 1) as nat),
        }
    }
}

/// One interactive session: the orchestrator it drives, plus the session's
/// own transient scope-tracker stacks, mirroring the batch ones.
#[derive(Debug)]
pub struct Session {
    pub context: Context,
    /// Block trackers at global scope; the base tracker is never popped.
    pub trackers: Vec<ScopeManager>,
    /// Block trackers inside the function being declared.
    pub function_trackers: Vec<ScopeManager>,
    /// Whether lines currently target global scope or an open function.
    pub scope: Scope,
    /// The id of the function currently being declared.
    pub open_function_id: u64,
}

impl Session {
    /// The session invariant: the orchestrator is sound and agrees with the
    /// session about which scope is open; the base global tracker is always
    /// present; trackers never record parameter or return slots.
    pub open spec fn wf(self) -> bool {
        &&& self.context.wf()
        &&& self.context.scope == self.scope
        &&& self.context.function_scope@.len() == 0
        &&& trackers_above(self.trackers@, 0)
        &&& self.trackers@.len() >= 1
        &&& (self.scope == Scope::Global ==> self.function_trackers@.len() == 0)
        &&& (self.scope == Scope::Function ==> {
            &&& has_entry_with_id(self.context.functions@, self.open_function_id)
            &&& self.context.last_function_id == self.open_function_id
            &&& self.function_trackers@.len() >= 1
            &&& trackers_above(
                self.function_trackers@,
                entry_with_id(
                    self.context.functions@,
                    self.open_function_id,
                ).params@.len() as int,
            )
        })
    }

    /// How deep the open blocks nest at the prompt: 0 with none open.
    pub fn depth(&self) -> (r: usize)
        requires
            self.wf(),
        ensures
            self.scope == Scope::Global ==> r as int == self.trackers@.len() - 1,
            self.scope == Scope::Function ==> r as int == self.function_trackers@.len() - 1,
    {
        match self.scope {
            Scope::Global => self.trackers.len() - 1,
            Scope::Function => self.function_trackers.len() - 1,
        }
    }

    /// Whether a function declaration is open at the prompt.
    pub fn in_function(&self) -> (r: bool)
        ensures
            r == (self.scope == Scope::Function),
    {
        self.scope == Scope::Function
    }

    /// Whether the machine has signalled program termination.
    pub fn has_quit(&self) -> (r: bool)
        ensures
            r == self.context.vm@.quit,
    {
        self.context.vm.has_quit()
    }

    /// Opens a session over a fresh orchestrator: begins and activates the
    /// global function's frame, which stays live for the whole session, and
    /// opens global scope with the base tracker.
    pub fn new(context: Context) -> (r: Session)
        requires
            context.wf(),
            context.scope == Scope::Global,
            context.vm@.frames.len() == 0,
        ensures
            r.wf(),
            r.scope == Scope::Global,
            r.context.functions@ == context.functions@,
            r.context.vm@.frames.len() == 1,
            r.context.vm@.frames[0].id == GLOBAL_FUNCTION_ID,
            r.context.vm@.current == Some(0usize),
            r.context.vm@.quit == context.vm@.quit,
            r.context.vm@.globals == context.vm@.globals,
    {
        let ghost pre_ctx = context;
        let mut context = context;
        match context.call_function_by_id(GLOBAL_FUNCTION_ID, Vec::new()) {
            Ok(_) => {},
            Err(_) => {
                proof {
                    assert(has_entry_with_id(pre_ctx.functions@, GLOBAL_FUNCTION_ID)) by {
                        assert(pre_ctx.functions@[0].id == GLOBAL_FUNCTION_ID);
                    }
                    assert(entry_with_id(pre_ctx.functions@, GLOBAL_FUNCTION_ID).params@.len()
                        == 0) by {
                        let w = entry_index(pre_ctx.functions@, GLOBAL_FUNCTION_ID);
                        if w != 0 {
                            assert(pre_ctx.functions@[0].id != pre_ctx.functions@[w].id);
                        }
                    }
                    assert(first_bad_arg(
                        entry_with_id(pre_ctx.functions@, GLOBAL_FUNCTION_ID).params@,
                        Seq::<RawValue>::empty(),
                        0,
                    ) is None);
                }
                unreached()
            },
        }
        let mut trackers: Vec<ScopeManager> = Vec::new();
        trackers.push(ScopeManager::empty());
        Session {
            context,
            trackers,
            function_trackers: Vec::new(),
            scope: Scope::Global,
            open_function_id: GLOBAL_FUNCTION_ID,
        }
    }

    /// Processes one parsed line at the prompt: compiles a statement against
    /// the open scope and applies its hint to the session tables, opens a
    /// declared function, or closes the open one. Errors report and leave
    /// the tables untouched; the session goes on with the next line.
    pub fn process(&mut self, line: ParsedLine) -> (r: Result<(), Error>)
        requires
            old(self).wf(),
        ensures
            final(self).wf(),
            (match line {
                ParsedLine::Nothing => r == Ok::<(), Error>(()) && *final(self) == *old(self),
                ParsedLine::Command(stmt) => sess_command_post(*old(self), *final(self), stmt, r),
                ParsedLine::FunctionStart(decl) => sess_function_start_post(
                    *old(self),
                    *final(self),
                    decl,
                    r,
                ),
                ParsedLine::FunctionEnd => sess_function_end_post(*old(self), *final(self), r),
            }),
    {
        let ghost pre = *self;
        match line {
            ParsedLine::Nothing => Ok(()),
            ParsedLine::FunctionStart(decl) => {
                if self.scope == Scope::Function {
                    return Err(Error::FunctionStartInsideFunction {  });
                }
                let id = match self.context.add_function(decl) {
                    Ok(id) => id,
                    Err(e) => {
                        return Err(e);
                    },
                };
                self.scope = Scope::Function;
                self.open_function_id = id;
                self.function_trackers.push(ScopeManager::empty());
                Ok(())
            },
            ParsedLine::FunctionEnd => {
                if self.scope != Scope::Function {
                    return Err(Error::FunctionEndOutsideFunction {  });
                }
                if self.function_trackers.len() > 1 {
                    return Err(Error::OpenScopesAtFunctionEnd {  });
                }
                let tracker = match self.function_trackers.pop() {
                    Some(t) => t,
                    None => unreached(),
                };
                let fpos = match self.context.entry_pos(self.open_function_id) {
                    Some(p) => p,
                    None => unreached(),
                };
                let ghost cur = self.context.functions@[fpos as int];
                tracker.at_end(&mut self.context.functions[fpos]);
                self.scope = Scope::Global;
                self.context.scope = Scope::Global;
                proof {
                    assert(self.function_trackers@ =~= Seq::<ScopeManager>::empty());
                    assert(self.context.functions@ =~= pre.context.functions@.update(
                        fpos as int,
                        self.context.functions@[fpos as int],
                    ));
                    crate::context::lemma_drain_preserves_entry_wf(
                        cur,
                        self.context.functions@[fpos as int],
                        tracker,
                    );
                    crate::context::lemma_registry_update_same_id(
                        pre.context.functions@,
                        self.context.functions@,
                        fpos as int,
                    );
                }
                Ok(())
            },
            ParsedLine::Command(stmt) => self.process_command(stmt),
        }
    }

    /// Compiles one statement against the open scope, applies its hint to
    /// the session's transient tables, and executes or defers the emitted
    /// instructions.
    #[verifier::rlimit(100)]
    #[verifier::spinoff_prover]
    fn process_command(&mut self, stmt: Statement) -> (r: Result<(), Error>)
        requires
            old(self).wf(),
        ensures
            final(self).wf(),
            sess_command_post(*old(self), *final(self), stmt, r),
    {
        let ghost pre = *self;
        let tpos: usize = if self.scope == Scope::Global {
            proof {
                let w = entry_index(self.context.functions@, GLOBAL_FUNCTION_ID);
                assert(has_entry_with_id(self.context.functions@, GLOBAL_FUNCTION_ID)) by {
                    assert(self.context.functions@[0].id == GLOBAL_FUNCTION_ID);
                }
                assert(self.context.functions@[w].id == GLOBAL_FUNCTION_ID);
                if w != 0 {
                    assert(self.context.functions@[0].id != self.context.functions@[w].id);
                }
            }
            0
        } else {
            match self.context.entry_pos(self.open_function_id) {
                Some(p) => p,
                None => unreached(),
            }
        };
        let ghost cur = pre.context.functions@[tpos as int];
        let mut instructions: Vec<Instruction> = Vec::new();
        let compiled = {
            let current = &self.context.functions[tpos];
            let global_ref: Option<&FunctionEntry> = if self.scope == Scope::Global {
                None
            } else {
                Some(&self.context.functions[0])
            };
            Compiler::compile_command(
                stmt,
                current,
                global_ref,
                &self.context.functions,
                &mut instructions,
            )
        };
        let ghost glob = if pre.scope == Scope::Global {
            None
        } else {
            Some(pre.context.functions@[0])
        };
        let ghost emitted = compile_spec(stmt, cur, glob, pre.context.functions@).0;
        proof {
            assert(instructions@ =~= emitted);
        }
        let hint = match compiled {
            Ok(h) => h,
            Err(e) => {
                return Err(e);
            },
        };
        match hint {
            None => {},
            Some(CompilerHint::ScopeStart) => {
                if self.scope == Scope::Global {
                    self.trackers.push(ScopeManager::empty());
                } else {
                    self.function_trackers.push(ScopeManager::empty());
                }
            },
            Some(CompilerHint::ScopeEnd) => {
                if self.scope == Scope::Global {
                    if self.trackers.len() <= 1 {
                        return Err(Error::NoScopeToClose {  });
                    }
                    let tracker = match self.trackers.pop() {
                        Some(t) => t,
                        None => unreached(),
                    };
                    let ghost pre_entry = self.context.functions@[tpos as int];
                    tracker.at_end(&mut self.context.functions[tpos]);
                    proof {
                        assert(self.trackers@ =~= pre.trackers@.drop_last());
                        crate::context::lemma_drain_preserves_entry_wf(
                            pre_entry,
                            self.context.functions@[tpos as int],
                            tracker,
                        );
                    }
                } else {
                    if self.function_trackers.len() <= 1 {
                        return Err(Error::NoScopeToClose {  });
                    }
                    let tracker = match self.function_trackers.pop() {
                        Some(t) => t,
                        None => unreached(),
                    };
                    let ghost pre_entry = self.context.functions@[tpos as int];
                    tracker.at_end(&mut self.context.functions[tpos]);
                    proof {
                        assert(self.function_trackers@ =~= pre.function_trackers@.drop_last());
                        crate::context::lemma_drain_preserves_entry_wf(
                            pre_entry,
                            self.context.functions@[tpos as int],
                            tracker,
                        );
                    }
                }
            },
            Some(CompilerHint::DeclareVar { name, writeable }) => {
                let ghost pre_entry = self.context.functions@[tpos as int];
                let vid = match self.context.functions[tpos].add_var(name, writeable) {
                    Ok(id) => id,
                    Err(e) => {
                        proof {
                            assert(self.context.functions@ =~= pre.context.functions@);
                        }
                        return Err(e);
                    },
                };
                proof {
                    crate::function::lemma_add_var_preserves_wf(
                        pre_entry,
                        self.context.functions@[tpos as int],
                        self.context.functions@[tpos as int].vars@.last(),
                    );
                }
                if self.scope == Scope::Global {
                    let li = self.trackers.len() - 1;
                    self.trackers[li].ids.push(vid);
                    proof {
                        assert(self.trackers@ =~= pre.trackers@.update(
                            pre.trackers@.len() - 1,
                            self.trackers@.last(),
                        ));
                    }
                } else {
                    let li = self.function_trackers.len() - 1;
                    self.function_trackers[li].ids.push(vid);
                    proof {
                        assert(self.function_trackers@ =~= pre.function_trackers@.update(
                            pre.function_trackers@.len() - 1,
                            self.function_trackers@.last(),
                        ));
                    }
                }
            },
        }
        let ghost mid = *self;
        proof {
            assert(self.context.functions@ =~= pre.context.functions@.update(
                tpos as int,
                self.context.functions@[tpos as int],
            ));
            crate::context::lemma_registry_update_same_id(
                pre.context.functions@,
                self.context.functions@,
                tpos as int,
            );
        }
        let r = self.dispose_instructions(tpos, &instructions);
        proof {
            // Bridge the hint phase (pre to mid) with the disposition phase
            // (mid onward): the hint never touches the machine or the body,
            // and the disposition never touches the symbol tables.
            assert(self.context.functions@ =~= pre.context.functions@.update(
                tpos as int,
                self.context.functions@[tpos as int],
            ));
            assert(mid.context.vm@ == pre.context.vm@);
            assert(mid.scope == pre.scope);
            assert(mid.open_function_id == pre.open_function_id);
            assert(mid.context.scope == pre.context.scope);
            assert(mid.context.functions@[tpos as int].body@ == pre.context.functions@[tpos as int].body@);
            assert(mid.context.functions@[tpos as int].name == pre.context.functions@[tpos as int].name);
            assert(mid.context.functions@[tpos as int].id == pre.context.functions@[tpos as int].id);
            assert(mid.context.functions@[tpos as int].params == pre.context.functions@[tpos as int].params);
        }
        r
    }

    /// Hands a statement's freshly compiled instructions to their
    /// destination: appended to the open function's body in a declaration,
    /// run immediately at global scope with no block open, or appended to
    /// the global body (deferred) inside one.
    #[verifier::rlimit(60)]
    fn dispose_instructions(&mut self, tpos: usize, instructions: &Vec<Instruction>) -> (r: Result<
        (),
        Error,
    >)
        requires
            old(self).wf(),
            tpos as int == (if old(self).scope == Scope::Global {
                0int
            } else {
                entry_index(old(self).context.functions@, old(self).open_function_id)
            }),
        ensures
            final(self).wf(),
            sess_dispose(
                *old(self),
                *final(self),
                tpos as int,
                instructions@,
                r,
                old(self).stack_len(),
            ),
            final(self).context.functions@[tpos as int].vars == old(self).context.functions@[tpos as int].vars,
            final(self).context.functions@[tpos as int].next_var_id == old(self).context.functions@[tpos as int].next_var_id,
            final(self).trackers == old(self).trackers,
            final(self).function_trackers == old(self).function_trackers,
    {
        let ghost mid = *self;
        proof {
            if mid.scope == Scope::Function {
                assert(has_entry_with_id(mid.context.functions@, mid.open_function_id));
                let w = entry_index(mid.context.functions@, mid.open_function_id);
                assert(mid.context.functions@[w].id == mid.open_function_id);
            } else {
                assert(mid.context.functions@[0].id == GLOBAL_FUNCTION_ID);
            }
        }
        let run_now = match self.scope {
            Scope::Global => self.trackers.len() < 2,
            Scope::Function => false,
        };
        if !run_now {
            crate::context::append_to_body(&mut self.context.functions[tpos], instructions);
            proof {
                assert(self.context.functions@ =~= mid.context.functions@.update(
                    tpos as int,
                    self.context.functions@[tpos as int],
                ));
                crate::context::lemma_registry_update_same_id(
                    mid.context.functions@,
                    self.context.functions@,
                    tpos as int,
                );
            }
            Ok(())
        } else {
            let n = instructions.len();
            let mut k: usize = 0;
            #[verifier::loop_isolation(false)]
            while k < n
                invariant
                    n == instructions@.len(),
                    0 <= k <= n,
                    self.trackers == mid.trackers,
                    self.function_trackers == mid.function_trackers,
                    self.scope == mid.scope,
                    self.open_function_id == mid.open_function_id,
                    self.context.functions == mid.context.functions,
                    self.context.scope == mid.context.scope,
                    self.context.has_main == mid.context.has_main,
                    self.context.next_function_id == mid.context.next_function_id,
                    self.context.global_scope == mid.context.global_scope,
                    self.context.function_scope == mid.context.function_scope,
                    self.context.last_function_id == mid.context.last_function_id,
                    self.context.vm@.wf(),
                    self.context.vm@.known == mid.context.vm@.known,
                    run_all(mid.context.vm@, instructions@, 0) == run_all(
                        self.context.vm@,
                        instructions@,
                        k as int,
                    ),
                decreases n - k,
            {
                let ghost vm_before = self.context.vm@;
                match self.context.vm.run(&instructions[k]) {
                    Ok(_) => {
                        proof {
                            assert(self.context.vm@.known == vm_before.known) by {
                                assert(self.context.vm@ == vm_before.step(
                                    instructions@[k as int],
                                ).0);
                            }
                        }
                    },
                    Err(e) => {
                        proof {
                            assert(run_all(mid.context.vm@, instructions@, 0) == (
                                self.context.vm@,
                                Some(e),
                            ));
                            assert(self.context.vm@.known == vm_before.known) by {
                                assert(self.context.vm@ == vm_before.step(
                                    instructions@[k as int],
                                ).0);
                            }
                            assert(self.context.functions@ =~= mid.context.functions@.update(
                                tpos as int,
                                self.context.functions@[tpos as int],
                            ));
                        }
                        return Err(e);
                    },
                }
                k = k + 1;
            }
            proof {
                assert(run_all(mid.context.vm@, instructions@, 0) == (
                    self.context.vm@,
                    None::<Error>,
                ));
                assert(self.context.functions@ =~= mid.context.functions@.update(
                    tpos as int,
                    self.context.functions@[tpos as int],
                ));
            }
            Ok(())
        }
    }

    /// Runs whatever the machine still has to do before the next prompt: a
    /// function invoked by the previous line is stepped until control is
    /// back in the global frame, and global-body instructions deferred by a
    /// closed block are stepped once no block is open. The result and the
    /// final machine are exactly `drain_pending`'s, on every path; every
    /// compile-time table is left untouched.
    pub fn run_pending(&mut self) -> (r: Result<(), Error>)
        requires
            old(self).wf(),
        ensures
            final(self).wf(),
            tables_unchanged(old(self).context, final(self).context),
            final(self).trackers == old(self).trackers,
            final(self).function_trackers == old(self).function_trackers,
            final(self).scope == old(self).scope,
            final(self).open_function_id == old(self).open_function_id,
            r is Ok ==> ({
                let vmf = final(self).context.vm@;
                ||| vmf.quit
                ||| vmf.current is None
                ||| (vmf.frames[vmf.current->Some_0 as int].id == GLOBAL_FUNCTION_ID && (old(
                    self,
                ).scope == Scope::Global && old(self).trackers@.len() < 2
                    ==> vmf.frames[vmf.current->Some_0 as int].pc >= entry_with_id(
                    final(self).context.functions@,
                    GLOBAL_FUNCTION_ID,
                ).body@.len()))
            }),
            ({
                let outcome = drain_pending(
                    old(self).context.vm@,
                    old(self).context.functions@,
                    old(self).scope == Scope::Global && old(self).trackers@.len() < 2,
                    u64::MAX as nat,
                );
                final(self).context.vm@ == outcome.0 && r == outcome.1
            }),
    {
        let ghost pre = *self;
        let ghost funcs0 = pre.context.functions@;
        let at_top = match self.scope {
            Scope::Global => self.trackers.len() < 2,
            Scope::Function => false,
        };
        let mut fuel: u64 = u64::MAX;
        loop
            invariant_except_break
                drain_pending(pre.context.vm@, funcs0, at_top, u64::MAX as nat) == drain_pending(
                    self.context.vm@,
                    funcs0,
                    at_top,
                    fuel as nat,
                ),
            invariant
                pre == *old(self),
                funcs0 == pre.context.functions@,
                at_top == (pre.scope == Scope::Global && pre.trackers@.len() < 2),
                self.context.wf(),
                tables_unchanged(pre.context, self.context),
                self.trackers == pre.trackers,
                self.function_trackers == pre.function_trackers,
                self.scope == pre.scope,
                self.open_function_id == pre.open_function_id,
                pre.wf(),
            ensures
                self.context.wf(),
                tables_unchanged(pre.context, self.context),
                self.trackers == pre.trackers,
                self.function_trackers == pre.function_trackers,
                self.scope == pre.scope,
                self.open_function_id == pre.open_function_id,
                drain_pending(pre.context.vm@, funcs0, at_top, u64::MAX as nat) == (
                    self.context.vm@,
                    Ok::<(), Error>(()),
                ),
                ({
                    let vmf = self.context.vm@;
                    ||| vmf.quit
                    ||| vmf.current is None
                    ||| (vmf.frames[vmf.current->Some_0 as int].id == GLOBAL_FUNCTION_ID && (
                    at_top ==> vmf.frames[vmf.current->Some_0 as int].pc >= entry_with_id(
                        self.context.functions@,
                        GLOBAL_FUNCTION_ID,
                    ).body@.len()))
                }),
            decreases fuel,
        {
            if fuel == 0 {
                proof {
                    assert(drain_pending(pre.context.vm@, funcs0, at_top, u64::MAX as nat) == (
                        self.context.vm@,
                        Err::<(), Error>(Error::StepLimitExceeded {  }),
                    ));
                }
                return Err(Error::StepLimitExceeded {  });
            }
            fuel = fuel - 1;
            if self.context.vm.has_quit() {
                proof {
                    assert(pending_done(self.context.vm@, funcs0, at_top));
                    assert(drain_pending(pre.context.vm@, funcs0, at_top, u64::MAX as nat) == (
                        self.context.vm@,
                        Ok::<(), Error>(()),
                    ));
                }
                break ;
            }
            let current_id = match self.context.vm.get_current_id() {
                Some(id) => id,
                None => {
                    proof {
                        assert(pending_done(self.context.vm@, funcs0, at_top));
                        assert(drain_pending(pre.context.vm@, funcs0, at_top, u64::MAX as nat)
                            == (self.context.vm@, Ok::<(), Error>(())));
                    }
                    break ;
                },
            };
            if current_id != GLOBAL_FUNCTION_ID {
                // A called function is still in flight: step it.
                let ghost m_head = self.context.vm@;
                proof {
                    assert(!pending_done(m_head, funcs0, at_top));
                }
                match self.context.execute_next_instruction() {
                    Ok(_) => {
                        proof {
                            assert(drain_pending(m_head, funcs0, at_top, (fuel + 1) as nat)
                                == drain_pending(self.context.vm@, funcs0, at_top, fuel as nat));
                        }
                    },
                    Err(e) => {
                        proof {
                            assert(drain_pending(m_head, funcs0, at_top, (fuel + 1) as nat) == (
                                self.context.vm@,
                                Err::<(), Error>(e),
                            ));
                        }
                        return Err(e);
                    },
                }
            } else if at_top {
                // Deferred global-body instructions, if any, run now.
                let pc = match self.context.vm.get_current_pc() {
                    Some(pc) => pc,
                    None => unreached(),
                };
                let gpos = match self.context.entry_pos(GLOBAL_FUNCTION_ID) {
                    Some(p) => p,
                    None => {
                        proof {
                            assert(has_entry_with_id(
                                self.context.functions@,
                                GLOBAL_FUNCTION_ID,
                            )) by {
                                assert(self.context.functions@[0].id == GLOBAL_FUNCTION_ID);
                            }
                        }
                        unreached()
                    },
                };
                if pc < self.context.functions[gpos].body.len() {
                    let ghost m_head = self.context.vm@;
                    proof {
                        assert(!pending_done(m_head, funcs0, at_top));
                    }
                    match self.context.execute_next_instruction() {
                        Ok(_) => {
                            proof {
                                assert(drain_pending(m_head, funcs0, at_top, (fuel + 1) as nat)
                                    == drain_pending(
                                    self.context.vm@,
                                    funcs0,
                                    at_top,
                                    fuel as nat,
                                ));
                            }
                        },
                        Err(e) => {
                            proof {
                                assert(drain_pending(m_head, funcs0, at_top, (fuel + 1) as nat)
                                    == (self.context.vm@, Err::<(), Error>(e)));
                            }
                            return Err(e);
                        },
                    }
                } else {
                    proof {
                        assert(pending_done(self.context.vm@, funcs0, at_top));
                        assert(drain_pending(pre.context.vm@, funcs0, at_top, u64::MAX as nat)
                            == (self.context.vm@, Ok::<(), Error>(())));
                    }
                    break ;
                }
            } else {
                proof {
                    assert(pending_done(self.context.vm@, funcs0, at_top));
                    assert(drain_pending(pre.context.vm@, funcs0, at_top, u64::MAX as nat) == (
                        self.context.vm@,
                        Ok::<(), Error>(()),
                    ));
                }
                break ;
            }
        }
        Ok(())
    }
}

} // verus!
