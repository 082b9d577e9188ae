//! The virtual machine: a stack of call frames, each with a program counter,
//! an evaluation stack and per-frame variable storage, plus a global variable
//! store that outlives frames. Executes one instruction at a time.
//!
//! A frame's store binds a variable id on its first write. The machine holds
//! no symbol table — the orchestrator owns those, and a function's live
//! variable set changes while its frames exist — so a write cannot tell a
//! fresh id from one whose variable a closed block reclaimed, and never
//! fails for an unknown id. Only operations that need a frame, a value or an
//! execution target can fail.

use vstd::prelude::*;
use crate::error::Error;
use crate::instruction::Instruction;
use crate::value::{RawValue, TypeKind, compatible, is_compatible};

verus! {

/// What one instruction step reports back to the driver loop.
#[derive(Clone, Copy, PartialEq, Eq, Structural, Debug)]
pub enum ExecutionStatus {
    /// Keep stepping.
    Normal,
    /// A frame returned; its caller's frame is the execution target again.
    Returned,
    /// The outermost frame returned: the program has terminated.
    Quit,
}

/// Whether the store binds `id`.
pub open spec fn store_has(s: Seq<(u64, RawValue)>, id: u64) -> bool {
    exists|i: int| 0 <= i < s.len() && s[i].0 == id
}

/// The value the store binds to `id`; meaningful under `store_has` and
/// `store_ids_unique`.
pub open spec fn store_get(s: Seq<(u64, RawValue)>, id: u64) -> RawValue {
    s[choose|i: int| 0 <= i < s.len() && s[i].0 == id].1
}

/// Each id is bound at most once.
pub open spec fn store_ids_unique(s: Seq<(u64, RawValue)>) -> bool {
    forall|i: int, j: int| 0 <= i < j < s.len() ==> s[i].0 != s[j].0
}

/// Binding `id` to `value`: overwrites the existing slot, or appends one.
pub open spec fn spec_store_write(s: Seq<(u64, RawValue)>, id: u64, value: RawValue) -> Seq<
    (u64, RawValue),
> {
    if store_has(s, id) {
        s.update(choose|i: int| 0 <= i < s.len() && s[i].0 == id, (id, value))
    } else {
        s.push((id, value))
    }
}

/// What a write does to every lookup: the written id is bound to the new
/// value and every other id keeps its binding.
pub proof fn lemma_store_write(s: Seq<(u64, RawValue)>, id: u64, value: RawValue)
    requires
        store_ids_unique(s),
    ensures
        store_ids_unique(spec_store_write(s, id, value)),
        store_has(spec_store_write(s, id, value), id),
        store_get(spec_store_write(s, id, value), id) == value,
        forall|other: u64|
            other != id ==> #[trigger] store_has(spec_store_write(s, id, value), other)
                == store_has(s, other),
        forall|other: u64|
            other != id && store_has(s, other) ==> #[trigger] store_get(
                spec_store_write(s, id, value),
                other,
            ) == store_get(s, other),
{
    let out = spec_store_write(s, id, value);
    if store_has(s, id) {
        let w = choose|i: int| 0 <= i < s.len() && s[i].0 == id;
        assert(out[w] == (id, value));
        assert forall|other: u64| other != id implies #[trigger] store_has(out, other)
            == store_has(s, other) by {
            if store_has(s, other) {
                let k = choose|i: int| 0 <= i < s.len() && s[i].0 == other;
                assert(out[k] == s[k]);
            }
            if store_has(out, other) {
                let k = choose|i: int| 0 <= i < out.len() && out[i].0 == other;
                assert(s[k] == out[k]);
            }
        }
        assert forall|other: u64| other != id && store_has(s, other) implies #[trigger] store_get(
            out,
            other,
        ) == store_get(s, other) by {
            let k = choose|i: int| 0 <= i < s.len() && s[i].0 == other;
            assert(out[k] == s[k]);
            let k2 = choose|i: int| 0 <= i < out.len() && out[i].0 == other;
            assert(k2 == k);
        }
        let w2 = choose|i: int| 0 <= i < out.len() && out[i].0 == id;
        assert(w2 == w);
    } else {
        assert(out[s.len() as int] == (id, value));
        let w2 = choose|i: int| 0 <= i < out.len() && out[i].0 == id;
        assert(w2 == s.len());
        assert forall|other: u64| other != id implies #[trigger] store_has(out, other)
            == store_has(s, other) by {
            if store_has(out, other) {
                let k = choose|i: int| 0 <= i < out.len() && out[i].0 == other;
                assert(s[k] == out[k]);
            }
            if store_has(s, other) {
                let k = choose|i: int| 0 <= i < s.len() && s[i].0 == other;
                assert(out[k] == s[k]);
            }
        }
        assert forall|other: u64| other != id && store_has(s, other) implies #[trigger] store_get(
            out,
            other,
        ) == store_get(s, other) by {
            let k = choose|i: int| 0 <= i < s.len() && s[i].0 == other;
            assert(out[k] == s[k]);
            let k2 = choose|i: int| 0 <= i < out.len() && out[i].0 == other;
            assert(k2 == k);
        }
    }
}

/// Writes `value` under `id` into a store, overwriting or appending.
fn store_write(store: &mut Vec<(u64, RawValue)>, id: u64, value: RawValue)
    requires
        store_ids_unique(old(store)@),
    ensures
        final(store)@ == spec_store_write(old(store)@, id, value),
        store_ids_unique(final(store)@),
{
    proof {
        lemma_store_write(old(store)@, id, value);
    }
    let n = store.len();
    let mut i: usize = 0;
    while i < n
        invariant
            n == store@.len(),
            0 <= i <= n,
            store@ == old(store)@,
            store_ids_unique(store@),
            forall|j: int| 0 <= j < i ==> store@[j].0 != id,
        decreases n - i,
    {
        if store[i].0 == id {
            proof {
                assert(store_has(store@, id));
                let w = choose|k: int| 0 <= k < store@.len() && store@[k].0 == id;
                assert(w == i);
            }
            store[i] = (id, value);
            return ;
        }
        i = i + 1;
    }
    proof {
        assert(!store_has(store@, id));
    }
    store.push((id, value));
}

/// The mathematical state of one call frame.
#[verifier::ext_equal]
pub struct FrameModel {
    pub id: u64,
    pub pc: usize,
    pub stack: Seq<RawValue>,
    pub vars: Seq<(u64, RawValue)>,
}

/// One call frame: the owning function's id, the program counter into that
/// function's compiled body, the evaluation stack for in-flight values, and
/// the storage mapping variable id to runtime value.
#[derive(Debug)]
pub struct Frame {
    pub id: u64,
    pub pc: usize,
    pub stack: Vec<RawValue>,
    pub vars: Vec<(u64, RawValue)>,
}

impl View for Frame {
    type V = FrameModel;

    open spec fn view(&self) -> FrameModel {
        FrameModel { id: self.id, pc: self.pc, stack: self.stack@, vars: self.vars@ }
    }
}

/// The mathematical state of the machine.
#[verifier::ext_equal]
pub struct VmModel {
    pub frames: Seq<FrameModel>,
    pub globals: Seq<(u64, RawValue)>,
    pub current: Option<usize>,
    pub known: Seq<u64>,
    pub quit: bool,
}

impl VmModel {
    /// The machine's structural invariant: the execution target (when set)
    /// is a live frame, every frame belongs to a registered function, and
    /// variable stores bind each id at most once.
    pub open spec fn wf(self) -> bool {
        &&& (match self.current {
            Some(i) => i < self.frames.len(),
            None => true,
        })
        &&& forall|k: int|
            0 <= k < self.frames.len() ==> self.known.contains(
                (#[trigger] self.frames[k]).id,
            )
        &&& forall|k: int| 0 <= k < self.frames.len() ==> store_ids_unique(
            (#[trigger] self.frames[k]).vars,
        )
        &&& store_ids_unique(self.globals)
    }

    /// A fresh, not-yet-active frame for the function with id `id`.
    pub open spec fn fresh_frame(id: u64) -> FrameModel {
        FrameModel {
            id: id,
            pc: 0,
            stack: Seq::<RawValue>::empty(),
            vars: Seq::<(u64, RawValue)>::empty(),
        }
    }

    /// The machine after one instruction, paired with what the step reports.
    /// This is the machine's whole semantics; `VirtualMachine::run` is proved
    /// to follow it exactly.
    pub open spec fn step(self, instruction: Instruction) -> (VmModel, Result<
        ExecutionStatus,
        Error,
    >) {
        match instruction {
            Instruction::MakeNewFrame(id) => {
                if !self.known.contains(id) {
                    (self, Err(Error::UnknownFunctionId { id }))
                } else {
                    (
                        VmModel { frames: self.frames.push(VmModel::fresh_frame(id)), ..self },
                        Ok(ExecutionStatus::Normal),
                    )
                }
            },
            Instruction::PushMainStr(s) => self.step_push(RawValue::Text(s)),
            Instruction::PushMainInt(i) => self.step_push(RawValue::Integer(i)),
            Instruction::PushMainNum(b) => self.step_push(RawValue::Number(b)),
            Instruction::AssertMainTopTypeCompatible(expected) => {
                if self.frames.len() == 0 {
                    (self, Err(Error::NoFrame {  }))
                } else if self.frames.last().stack.len() == 0 {
                    (self, Err(Error::EmptyEvalStack {  }))
                } else if !compatible(self.frames.last().stack.last().kind(), expected) {
                    (
                        self,
                        Err(
                            Error::TypeMismatch {
                                expected: expected,
                                found: self.frames.last().stack.last().kind(),
                            },
                        ),
                    )
                } else {
                    (self, Ok(ExecutionStatus::Normal))
                }
            },
            Instruction::WriteToVarWithId(id) => {
                if self.frames.len() == 0 {
                    (self, Err(Error::NoFrame {  }))
                } else if self.frames.last().stack.len() == 0 {
                    (self, Err(Error::EmptyEvalStack {  }))
                } else {
                    let top = self.frames.last().stack.last();
                    let f = FrameModel {
                        stack: self.frames.last().stack.drop_last(),
                        vars: spec_store_write(self.frames.last().vars, id, top),
                        ..self.frames.last()
                    };
                    (
                        VmModel { frames: self.frames.update(self.frames.len() - 1, f), ..self },
                        Ok(ExecutionStatus::Normal),
                    )
                }
            },
            Instruction::WriteToGlobalVarWithId(id) => {
                if self.frames.len() == 0 {
                    (self, Err(Error::NoFrame {  }))
                } else if self.frames.last().stack.len() == 0 {
                    (self, Err(Error::EmptyEvalStack {  }))
                } else {
                    let top = self.frames.last().stack.last();
                    let f = FrameModel { stack: self.frames.last().stack.drop_last(), ..self.frames.last() };
                    (
                        VmModel {
                            frames: self.frames.update(self.frames.len() - 1, f),
                            globals: spec_store_write(self.globals, id, top),
                            ..self
                        },
                        Ok(ExecutionStatus::Normal),
                    )
                }
            },
            Instruction::SetLastFrameReady => {
                if self.frames.len() == 0 {
                    (self, Err(Error::NoFrame {  }))
                } else {
                    (
                        VmModel { current: Some((self.frames.len() - 1) as usize), ..self },
                        Ok(ExecutionStatus::Normal),
                    )
                }
            },
            Instruction::Return => {
                match self.current {
                    None => (self, Err(Error::NoActiveFrame {  })),
                    Some(i) => {
                        if i + 1 != self.frames.len() {
                            (self, Err(Error::ReturnUnderPendingFrame {  }))
                        } else if self.frames.len() == 1 {
                            (
                                VmModel {
                                    frames: self.frames.drop_last(),
                                    current: None,
                                    quit: true,
                                    ..self
                                },
                                Ok(ExecutionStatus::Quit),
                            )
                        } else {
                            (
                                VmModel {
                                    frames: self.frames.drop_last(),
                                    current: Some((self.frames.len() - 2) as usize),
                                    ..self
                                },
                                Ok(ExecutionStatus::Returned),
                            )
                        }
                    },
                }
            },
        }
    }

    /// Pushing a literal onto the newest frame's evaluation stack.
    pub open spec fn step_push(self, value: RawValue) -> (VmModel, Result<ExecutionStatus, Error>) {
        if self.frames.len() == 0 {
            (self, Err(Error::NoFrame {  }))
        } else {
            let f = FrameModel { stack: self.frames.last().stack.push(value), ..self.frames.last() };
            (
                VmModel { frames: self.frames.update(self.frames.len() - 1, f), ..self },
                Ok(ExecutionStatus::Normal),
            )
        }
    }
}

/// The virtual machine.
#[derive(Debug)]
pub struct VirtualMachine {
    pub frames: Vec<Frame>,
    pub globals: Vec<(u64, RawValue)>,
    pub current: Option<usize>,
    pub known: Vec<u64>,
    pub quit: bool,
}

impl View for VirtualMachine {
    type V = VmModel;

    open spec fn view(&self) -> VmModel {
        VmModel {
            frames: Seq::new(self.frames@.len(), |i: int| self.frames@[i]@),
            globals: self.globals@,
            current: self.current,
            known: self.known@,
            quit: self.quit,
        }
    }
}

impl VirtualMachine {
    /// A machine with no frames, no globals, nothing registered and the
    /// termination flag clear.
    pub fn new() -> (r: VirtualMachine)
        ensures
            r@ == (VmModel {
                frames: Seq::<FrameModel>::empty(),
                globals: Seq::<(u64, RawValue)>::empty(),
                current: None::<usize>,
                known: Seq::<u64>::empty(),
                quit: false,
            }),
            r@.wf(),
    {
        let r = VirtualMachine {
            frames: Vec::new(),
            globals: Vec::new(),
            current: None,
            known: Vec::new(),
            quit: false,
        };
        proof {
            assert(r@.frames =~= Seq::<FrameModel>::empty());
            assert(r@ =~= (VmModel {
                frames: Seq::<FrameModel>::empty(),
                globals: Seq::<(u64, RawValue)>::empty(),
                current: None::<usize>,
                known: Seq::<u64>::empty(),
                quit: false,
            }));
        }
        r
    }

    /// Tells the machine that a function id exists, so that frames may be
    /// begun for it. The orchestrator calls this once per registered function.
    pub fn register_function(&mut self, id: u64)
        ensures
            final(self)@ == (VmModel { known: old(self)@.known.push(id), ..old(self)@ }),
            old(self)@.wf() ==> final(self)@.wf(),
    {
        self.known.push(id);
        proof {
            assert(self@.frames =~= old(self)@.frames);
            assert(self@ =~= (VmModel { known: old(self)@.known.push(id), ..old(self)@ }));
            if old(self)@.wf() {
                assert forall|k: int| 0 <= k < self@.frames.len() implies self@.known.contains(
                    (#[trigger] self@.frames[k]).id,
                ) by {
                    assert(old(self)@.known.contains(old(self)@.frames[k].id));
                    let w = choose|w: int|
                        0 <= w < old(self)@.known.len() && old(self)@.known[w] == old(
                            self,
                        )@.frames[k].id;
                    assert(self@.known[w] == old(self)@.frames[k].id);
                }
            }
        }
    }

    /// Whether the program-terminated flag is set.
    pub fn has_quit(&self) -> (r: bool)
        ensures
            r == self@.quit,
    {
        self.quit
    }

    /// Clears the program-terminated flag, so that another top-level unit
    /// (the entry point after the bootstrap) can be driven.
    pub fn unset_quit(&mut self)
        ensures
            final(self)@ == (VmModel { quit: false, ..old(self)@ }),
            old(self)@.wf() ==> final(self)@.wf(),
    {
        self.quit = false;
        proof {
            assert(self@.frames =~= old(self)@.frames);
            assert(self@ =~= (VmModel { quit: false, ..old(self)@ }));
        }
    }

    /// The program counter of the execution target, if one is set.
    pub fn get_current_pc(&self) -> (r: Option<usize>)
        requires
            self@.wf(),
        ensures
            r == (match self@.current {
                Some(i) => Some(self@.frames[i as int].pc),
                None => None::<usize>,
            }),
    {
        match self.current {
            Some(i) => Some(self.frames[i].pc),
            None => None,
        }
    }

    /// The function id of the execution target, if one is set.
    pub fn get_current_id(&self) -> (r: Option<u64>)
        requires
            self@.wf(),
        ensures
            r == (match self@.current {
                Some(i) => Some(self@.frames[i as int].id),
                None => None::<u64>,
            }),
    {
        match self.current {
            Some(i) => Some(self.frames[i].id),
            None => None,
        }
    }

    /// Advances the execution target's program counter past the instruction
    /// just fetched.
    pub fn increment_pc(&mut self) -> (r: Result<(), Error>)
        requires
            old(self)@.wf(),
        ensures
            final(self)@.wf(),
            old(self)@.current is None ==> r == Err::<(), Error>(Error::NoActiveFrame {  })
                && final(self)@ == old(self)@,
            (match old(self)@.current {
                Some(i) => old(self)@.frames[i as int].pc == usize::MAX ==> r == Err::<(), Error>(
                    Error::PcOverflow {  },
                ) && final(self)@ == old(self)@,
                None => true,
            }),
            (match old(self)@.current {
                Some(i) => old(self)@.frames[i as int].pc < usize::MAX ==> r == Ok::<(), Error>(())
                    && final(self)@ == (VmModel {
                    frames: old(self)@.frames.update(
                        i as int,
                        FrameModel {
                            pc: (old(self)@.frames[i as int].pc + 1) as usize,
                            ..old(self)@.frames[i as int]
                        },
                    ),
                    ..old(self)@
                }),
                None => true,
            }),
    {
        let i = match self.current {
            Some(i) => i,
            None => {
                return Err(Error::NoActiveFrame {  });
            },
        };
        if self.frames[i].pc == usize::MAX {
            return Err(Error::PcOverflow {  });
        }
        self.frames[i].pc = self.frames[i].pc + 1;
        proof {
            assert(self@.frames =~= old(self)@.frames.update(
                i as int,
                FrameModel { pc: (old(self)@.frames[i as int].pc + 1) as usize, ..old(self)@.frames[i as int] },
            ));
            assert(self@ =~= (VmModel {
                frames: old(self)@.frames.update(
                    i as int,
                    FrameModel {
                        pc: (old(self)@.frames[i as int].pc + 1) as usize,
                        ..old(self)@.frames[i as int]
                    },
                ),
                ..old(self)@
            }));
        }
        Ok(())
    }

    /// Reads the value bound to `id` in the execution target's frame.
    pub fn current_var_value(&self, id: u64) -> (r: Option<RawValue>)
        requires
            self@.wf(),
        ensures
            r == (match self@.current {
                Some(i) => if store_has(self@.frames[i as int].vars, id) {
                    Some(store_get(self@.frames[i as int].vars, id))
                } else {
                    None::<RawValue>
                },
                None => None::<RawValue>,
            }),
    {
        let i = match self.current {
            Some(i) => i,
            None => {
                return None;
            },
        };
        let store = &self.frames[i].vars;
        let n = store.len();
        let mut k: usize = 0;
        while k < n
            invariant
                self@.wf(),
                self@.current == Some(i),
                i < self.frames@.len(),
                store == &self.frames@[i as int].vars,
                n == store@.len(),
                0 <= k <= n,
                forall|j: int| 0 <= j < k ==> store@[j].0 != id,
            decreases n - k,
        {
            if store[k].0 == id {
                proof {
                    assert(store_has(self@.frames[i as int].vars, id));
                    let w = choose|w: int|
                        0 <= w < store@.len() && store@[w].0 == id;
                    assert(w == k);
                }
                return Some(store[k].1.clone());
            }
            k = k + 1;
        }
        proof {
            assert(!store_has(self@.frames[i as int].vars, id));
        }
        None
    }

    /// Reads the value bound to `id` in the global variable store.
    pub fn global_value(&self, id: u64) -> (r: Option<RawValue>)
        requires
            self@.wf(),
        ensures
            r == (if store_has(self@.globals, id) {
                Some(store_get(self@.globals, id))
            } else {
                None::<RawValue>
            }),
    {
        let n = self.globals.len();
        let mut k: usize = 0;
        while k < n
            invariant
                self@.wf(),
                n == self.globals@.len(),
                0 <= k <= n,
                forall|j: int| 0 <= j < k ==> self.globals@[j].0 != id,
            decreases n - k,
        {
            if self.globals[k].0 == id {
                proof {
                    assert(store_has(self@.globals, id));
                    let w = choose|w: int|
                        0 <= w < self.globals@.len() && self.globals@[w].0 == id;
                    assert(w == k);
                }
                return Some(self.globals[k].1.clone());
            }
            k = k + 1;
        }
        None
    }

    /// Executes one instruction against the current state: exactly the
    /// transition `VmModel::step` describes.
    pub fn run(&mut self, instruction: &Instruction) -> (r: Result<ExecutionStatus, Error>)
        requires
            old(self)@.wf(),
        ensures
            final(self)@ == old(self)@.step(*instruction).0,
            r == old(self)@.step(*instruction).1,
            final(self)@.wf(),
    {
        let ghost pre = self@;
        let result: Result<ExecutionStatus, Error> = match instruction {
            Instruction::MakeNewFrame(id) => {
                if !crate::scope::contains_id(&self.known, *id) {
                    Err(Error::UnknownFunctionId { id: *id })
                } else {
                    self.frames.push(
                        Frame { id: *id, pc: 0, stack: Vec::new(), vars: Vec::new() },
                    );
                    proof {
                        assert(self@.frames =~= pre.frames.push(VmModel::fresh_frame(*id)));
                        assert(self@ =~= pre.step(*instruction).0);
                    }
                    Ok(ExecutionStatus::Normal)
                }
            },
            Instruction::PushMainStr(s) => self.push_value(RawValue::Text(s.clone()), Ghost(*instruction)),
            Instruction::PushMainInt(i) => self.push_value(RawValue::Integer(*i), Ghost(*instruction)),
            Instruction::PushMainNum(b) => self.push_value(RawValue::Number(*b), Ghost(*instruction)),
            Instruction::AssertMainTopTypeCompatible(expected) => {
                if self.frames.len() == 0 {
                    Err(Error::NoFrame {  })
                } else {
                    let last = self.frames.len() - 1;
                    let stack_len = self.frames[last].stack.len();
                    if stack_len == 0 {
                        Err(Error::EmptyEvalStack {  })
                    } else {
                        let found = self.frames[last].stack[stack_len - 1].kind_of();
                        if !is_compatible(found, *expected) {
                            Err(Error::TypeMismatch { expected: *expected, found })
                        } else {
                            Ok(ExecutionStatus::Normal)
                        }
                    }
                }
            },
            Instruction::WriteToVarWithId(id) => {
                if self.frames.len() == 0 {
                    Err(Error::NoFrame {  })
                } else {
                    let last = self.frames.len() - 1;
                    match self.frames[last].stack.pop() {
                        None => Err(Error::EmptyEvalStack {  }),
                        Some(top) => {
                            store_write(&mut self.frames[last].vars, *id, top);
                            proof {
                                assert(self@.frames =~= pre.frames.update(
                                    pre.frames.len() - 1,
                                    pre.step(*instruction).0.frames[pre.frames.len() - 1],
                                ));
                                assert(self@ =~= pre.step(*instruction).0);
                            }
                            Ok(ExecutionStatus::Normal)
                        },
                    }
                }
            },
            Instruction::WriteToGlobalVarWithId(id) => {
                if self.frames.len() == 0 {
                    Err(Error::NoFrame {  })
                } else {
                    let last = self.frames.len() - 1;
                    match self.frames[last].stack.pop() {
                        None => Err(Error::EmptyEvalStack {  }),
                        Some(top) => {
                            store_write(&mut self.globals, *id, top);
                            proof {
                                assert(self@.frames =~= pre.step(*instruction).0.frames);
                                assert(self@ =~= pre.step(*instruction).0);
                            }
                            Ok(ExecutionStatus::Normal)
                        },
                    }
                }
            },
            Instruction::SetLastFrameReady => {
                if self.frames.len() == 0 {
                    Err(Error::NoFrame {  })
                } else {
                    self.current = Some(self.frames.len() - 1);
                    proof {
                        assert(self@ =~= pre.step(*instruction).0);
                    }
                    Ok(ExecutionStatus::Normal)
                }
            },
            Instruction::Return => {
                match self.current {
                    None => Err(Error::NoActiveFrame {  }),
                    Some(i) => {
                        let n = self.frames.len();
                        proof {
                            assert(pre.current == Some(i));
                            assert(i < pre.frames.len());
                        }
                        if i != n - 1 {
                            Err(Error::ReturnUnderPendingFrame {  })
                        } else if self.frames.len() == 1 {
                            self.frames.pop();
                            self.current = None;
                            self.quit = true;
                            proof {
                                assert(self@.frames =~= pre.frames.drop_last());
                                assert(self@ =~= pre.step(*instruction).0);
                            }
                            Ok(ExecutionStatus::Quit)
                        } else {
                            self.frames.pop();
                            self.current = Some(self.frames.len() - 1);
                            proof {
                                assert(self@.frames =~= pre.frames.drop_last());
                                assert(self@ =~= pre.step(*instruction).0);
                            }
                            Ok(ExecutionStatus::Returned)
                        }
                    },
                }
            },
        };
        proof {
            assert(self@ =~= pre.step(*instruction).0);
            assert(self@.wf());
        }
        result
    }

    /// Pushes a literal onto the newest frame's evaluation stack: the
    /// transition `VmModel::step_push`. The newest frame may be a begun but
    /// not-yet-active one, which is how call arguments are prepared.
    fn push_value(&mut self, value: RawValue, Ghost(instruction): Ghost<Instruction>) -> (r: Result<
        ExecutionStatus,
        Error,
    >)
        requires
            old(self)@.wf(),
            old(self)@.step(instruction) == old(self)@.step_push(value),
        ensures
            final(self)@ == old(self)@.step(instruction).0,
            r == old(self)@.step(instruction).1,
    {
        let ghost pre = self@;
        if self.frames.len() == 0 {
            return Err(Error::NoFrame {  });
        }
        let last = self.frames.len() - 1;
        self.frames[last].stack.push(value);
        proof {
            assert(self@.frames =~= pre.frames.update(
                pre.frames.len() - 1,
                pre.step_push(value).0.frames[pre.frames.len() - 1],
            ));
            assert(self@ =~= pre.step_push(value).0);
        }
        Ok(ExecutionStatus::Normal)
    }
}

} // verus!
