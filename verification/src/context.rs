//! The orchestrator: owns the function registry, the virtual machine and the
//! scope-tracker stacks, applies compiler hints to the symbol tables, and
//! drives the fetch-decode-execute loop.

use vstd::prelude::*;
use vstd::pervasive::unreached;
use crate::error::Error;
use crate::function::{
    FunctionDeclaration, FunctionEntry, FunctionParameter, Variable, clone_params, has_var_named,
    lemma_add_var_preserves_wf,
};
use crate::instruction::Instruction;
use crate::scope::ScopeManager;
use crate::value::RawValue;
use crate::vm::VirtualMachine;
use crate::{GLOBAL_FUNCTION_ID, MAIN_FUNCTION_ID, MAIN_FUNCTION_NAME, RET_VAL_VAR_ID};

verus! {

/// Which scope compilation currently targets: the implicit top-level
/// function, or the function whose declaration is open.
#[derive(Clone, Copy, PartialEq, Eq, Structural, Debug)]
pub enum Scope {
    Global,
    Function,
}

/// The four outcomes of parsing one source line. Producing these from text
/// is the parser's contract, an external collaborator; the orchestrator
/// starts from this structured form.
#[derive(Debug, PartialEq)]
pub enum ParsedLine {
    /// A statement to compile.
    Command(crate::compiler::Statement),
    /// A function-start declaration.
    FunctionStart(FunctionDeclaration),
    /// The marker closing the open function declaration.
    FunctionEnd,
    /// A blank line or a comment.
    Nothing,
}

/// Whether the registry holds an entry with this id.
pub open spec fn has_entry_with_id(funcs: Seq<FunctionEntry>, id: u64) -> bool {
    exists|i: int| 0 <= i < funcs.len() && funcs[i].id == id
}

/// The index of the entry with this id; meaningful under `has_entry_with_id`
/// and id uniqueness.
pub open spec fn entry_index(funcs: Seq<FunctionEntry>, id: u64) -> int {
    choose|i: int| 0 <= i < funcs.len() && funcs[i].id == id
}

/// The entry with this id.
pub open spec fn entry_with_id(funcs: Seq<FunctionEntry>, id: u64) -> FunctionEntry {
    funcs[entry_index(funcs, id)]
}

/// No two parameters share a name, and none claims the return-value slot's
/// reserved name; exactly the declarations whose parameters all register.
pub open spec fn decl_params_ok(ps: Seq<FunctionParameter>) -> bool {
    &&& forall|i: int, j: int| 0 <= i < j < ps.len() ==> ps[i].name@ != ps[j].name@
    &&& forall|i: int| 0 <= i < ps.len() ==> (#[trigger] ps[i]).name@ != "TREZE"@
}

/// The symbol table a newly registered function starts with: the return
/// slot at id 0, then one writeable variable per parameter, in declaration
/// order, with ids 1, 2, ...; nothing compiled into the body yet.
pub open spec fn is_fresh_entry(
    e: FunctionEntry,
    name: Seq<char>,
    id: u64,
    params: Seq<FunctionParameter>,
) -> bool {
    &&& e.name@ == name
    &&& e.id == id
    &&& e.body@.len() == 0
    &&& e.params@ == params
    &&& e.next_var_id == params.len() + 1
    &&& e.vars@.len() == params.len() + 1
    &&& e.vars@[0].id == RET_VAL_VAR_ID
    &&& e.vars@[0].name@ == "TREZE"@
    &&& e.vars@[0].writeable
    &&& forall|j: int|
        1 <= j < e.vars@.len() ==> ((#[trigger] e.vars@[j]).id == j && e.vars@[j].name@
            == params[j - 1].name@ && e.vars@[j].writeable)
}

/// A fresh entry with well-formed parameters is well formed.
pub proof fn lemma_fresh_entry_wf(
    e: FunctionEntry,
    name: Seq<char>,
    id: u64,
    params: Seq<FunctionParameter>,
)
    requires
        is_fresh_entry(e, name, id, params),
        decl_params_ok(params),
    ensures
        e.wf(),
{
    assert forall|k: int| 0 <= k < e.params@.len() implies exists|i: int|
        0 <= i < e.vars@.len() && (#[trigger] e.vars@[i]).id == k + 1 && e.vars@[i].name@
            == (#[trigger] e.params@[k]).name@ && e.vars@[i].writeable by {
        assert(e.vars@[k + 1].id == k + 1 && e.vars@[k + 1].name@ == e.params@[k].name@
            && e.vars@[k + 1].writeable);
    }
    assert(e.vars@[0].id == RET_VAL_VAR_ID);
}

/// Every id a tracker stack records lies above the owning entry's parameter
/// slots (and above the return-value slot): block exits can never reclaim a
/// parameter or the return slot.
pub open spec fn trackers_above(trackers: Seq<ScopeManager>, params_len: int) -> bool {
    forall|t: int, j: int|
        0 <= t < trackers.len() && 0 <= j < (#[trigger] trackers[t]).ids@.len()
            ==> (#[trigger] trackers[t].ids@[j]) as int > params_len
}

/// Replacing an entry by one with the same id leaves every id lookup as it
/// was.
pub proof fn lemma_registry_update_same_id(
    pre: Seq<FunctionEntry>,
    post: Seq<FunctionEntry>,
    idx: int,
)
    requires
        0 <= idx < pre.len(),
        post == pre.update(idx, post[idx]),
        post[idx].id == pre[idx].id,
        forall|i: int, j: int| 0 <= i < j < pre.len() ==> pre[i].id != pre[j].id,
    ensures
        forall|id: u64| has_entry_with_id(post, id) == has_entry_with_id(pre, id),
        forall|id: u64|
            has_entry_with_id(pre, id) ==> #[trigger] entry_index(post, id) == entry_index(
                pre,
                id,
            ),
{
    assert forall|id: u64| has_entry_with_id(post, id) == has_entry_with_id(pre, id) by {
        if has_entry_with_id(pre, id) {
            let w = choose|w: int| 0 <= w < pre.len() && pre[w].id == id;
            assert(post[w].id == id);
        }
        if has_entry_with_id(post, id) {
            let w = choose|w: int| 0 <= w < post.len() && post[w].id == id;
            assert(pre[w].id == id);
        }
    }
    assert forall|id: u64| has_entry_with_id(pre, id) implies #[trigger] entry_index(post, id)
        == entry_index(pre, id) by {
        let wpre = entry_index(pre, id);
        let wpost = entry_index(post, id);
        assert(pre[wpre].id == id);
        assert(has_entry_with_id(post, id)) by {
            assert(post[wpre].id == id);
        }
        assert(post[wpost].id == id);
        assert(pre[wpost].id == id);
        if wpre != wpost {
            assert(pre[wpre].id != pre[wpost].id);
        }
    }
}

/// Draining a closed block's tracker keeps the entry well formed, because a
/// tracker never records a parameter slot or the return slot.
pub proof fn lemma_drain_preserves_entry_wf(
    pre: FunctionEntry,
    post: FunctionEntry,
    tracker: ScopeManager,
)
    requires
        pre.wf(),
        post.vars@ == tracker.drained(pre.vars@),
        forall|j: int|
            0 <= j < tracker.ids@.len() ==> (#[trigger] tracker.ids@[j]) as int
                > pre.params@.len(),
        post.params == pre.params,
        post.next_var_id == pre.next_var_id,
    ensures
        post.wf(),
{
    let pred = crate::scope::keep_pred(tracker.ids@);
    broadcast use vstd::seq_lib::group_filter_ensures;

    crate::scope::lemma_filter_keeps_unique(pre.vars@, pred);
    assert forall|i: int| 0 <= i < post.vars@.len() implies (#[trigger] post.vars@[i]).id
        < post.next_var_id by {
        crate::scope::lemma_filter_element_of(pre.vars@, pred, i);
        let j = choose|j: int| 0 <= j < pre.vars@.len() && pre.vars@[j] == post.vars@[i];
        assert(pre.vars@[j].id < pre.next_var_id);
    }
    assert forall|k: int| 0 <= k < post.params@.len() implies exists|i: int|
        0 <= i < post.vars@.len() && (#[trigger] post.vars@[i]).id == k + 1 && post.vars@[i].name@
            == (#[trigger] post.params@[k]).name@ && post.vars@[i].writeable by {
        assert(pre.params_registered());
        let i = choose|i: int|
            0 <= i < pre.vars@.len() && (#[trigger] pre.vars@[i]).id == k + 1 && pre.vars@[i].name@
                == pre.params@[k].name@ && pre.vars@[i].writeable;
        assert(pred(pre.vars@[i])) by {
            if tracker.ids@.contains(pre.vars@[i].id) {
                let j = choose|j: int|
                    0 <= j < tracker.ids@.len() && tracker.ids@[j] == pre.vars@[i].id;
            }
        }
        assert(post.vars@.contains(pre.vars@[i]));
        let w = choose|w: int| 0 <= w < post.vars@.len() && post.vars@[w] == pre.vars@[i];
    }
    assert(pre.ret_slot_registered());
    let i0 = choose|i: int|
        0 <= i < pre.vars@.len() && (#[trigger] pre.vars@[i]).id == RET_VAL_VAR_ID;
    assert(pred(pre.vars@[i0])) by {
        if tracker.ids@.contains(pre.vars@[i0].id) {
            let j = choose|j: int|
                0 <= j < tracker.ids@.len() && tracker.ids@[j] == pre.vars@[i0].id;
        }
    }
    assert(post.vars@.contains(pre.vars@[i0]));
    let w0 = choose|w: int| 0 <= w < post.vars@.len() && post.vars@[w] == pre.vars@[i0];
    assert(post.vars@[w0].id == RET_VAL_VAR_ID);
}

/// Appends the compiled instructions to a function's body, leaving the rest
/// of the entry as it was: the compiler's output is strictly append-only.
pub(crate) fn append_to_body(entry: &mut FunctionEntry, instrs: &Vec<Instruction>)
    ensures
        final(entry).body@ == old(entry).body@ + instrs@,
        final(entry).name == old(entry).name,
        final(entry).id == old(entry).id,
        final(entry).params == old(entry).params,
        final(entry).vars == old(entry).vars,
        final(entry).next_var_id == old(entry).next_var_id,
{
    let n = instrs.len();
    let mut q: usize = 0;
    while q < n
        invariant
            n == instrs@.len(),
            0 <= q <= n,
            entry.body@ == old(entry).body@ + instrs@.take(q as int),
            entry.name == old(entry).name,
            entry.id == old(entry).id,
            entry.params == old(entry).params,
            entry.vars == old(entry).vars,
            entry.next_var_id == old(entry).next_var_id,
        decreases n - q,
    {
        entry.body.push(instrs[q].clone());
        proof {
            assert(entry.body@ =~= old(entry).body@ + instrs@.take(q + 1));
        }
        q = q + 1;
    }
    proof {
        assert(instrs@.take(n as int) =~= instrs@);
    }
}

/// The orchestrator.
#[derive(Debug)]
pub struct Context {
    /// The virtual machine this context drives.
    pub vm: VirtualMachine,
    /// The function registry: ids unique, append-only, entry 0 the implicit
    /// top-level function.
    pub functions: Vec<FunctionEntry>,
    /// Whether compilation currently targets the global function or one
    /// whose declaration is open.
    pub scope: Scope,
    /// Whether the entry point has been declared (enforces its uniqueness).
    pub has_main: bool,
    /// The next id to hand to an ordinary function; 0 and 1 are reserved.
    pub next_function_id: u64,
    /// Scope trackers for block nesting at global scope.
    pub global_scope: Vec<ScopeManager>,
    /// Scope trackers for block nesting inside the open function.
    pub function_scope: Vec<ScopeManager>,
    /// The id of the function currently or most recently open.
    pub last_function_id: u64,
}

impl Context {
    /// The id compilation currently targets.
    pub open spec fn target_id(self) -> u64 {
        if self.scope == Scope::Global {
            GLOBAL_FUNCTION_ID
        } else {
            self.last_function_id
        }
    }

    /// Registry well-formedness: entry 0 is the parameterless global
    /// function; ids are unique, reserved or below the allocation counter;
    /// the entry point exists exactly when recorded, and takes no
    /// parameters; every entry's symbol table is well formed.
    pub open spec fn registry_wf(self) -> bool {
        &&& self.functions@.len() >= 1
        &&& self.functions@[0].id == GLOBAL_FUNCTION_ID
        &&& self.functions@[0].params@.len() == 0
        &&& forall|i: int| 0 <= i < self.functions@.len() ==> (#[trigger] self.functions@[i]).wf()
        &&& forall|i: int, j: int|
            0 <= i < j < self.functions@.len() ==> self.functions@[i].id != self.functions@[j].id
        &&& forall|i: int|
            0 <= i < self.functions@.len() ==> ((#[trigger] self.functions@[i]).id
                == GLOBAL_FUNCTION_ID || self.functions@[i].id == MAIN_FUNCTION_ID || (2
                <= self.functions@[i].id < self.next_function_id))
        &&& self.next_function_id >= 2
        &&& (self.has_main <==> has_entry_with_id(self.functions@, MAIN_FUNCTION_ID))
        &&& forall|i: int|
            0 <= i < self.functions@.len() && (#[trigger] self.functions@[i]).id
                == MAIN_FUNCTION_ID ==> self.functions@[i].params@.len() == 0
    }

    /// The machine agrees with the registry: it knows exactly the registered
    /// function ids.
    pub open spec fn vm_consistent(self) -> bool {
        &&& self.vm@.wf()
        &&& forall|k: int|
            0 <= k < self.vm@.known.len() ==> has_entry_with_id(
                self.functions@,
                #[trigger] self.vm@.known[k],
            )
        &&& forall|i: int|
            0 <= i < self.functions@.len() ==> self.vm@.known.contains(
                (#[trigger] self.functions@[i]).id,
            )
    }

    /// The whole orchestration invariant: registry and machine agree, global
    /// trackers reclaim only ids above the global return slot, function
    /// trackers only ids above the open function's parameter slots, and no
    /// function trackers linger once control is back at global scope.
    pub open spec fn wf(self) -> bool {
        &&& self.registry_wf()
        &&& self.vm_consistent()
        &&& trackers_above(self.global_scope@, 0)
        &&& (self.scope == Scope::Function ==> has_entry_with_id(
            self.functions@,
            self.last_function_id,
        ) && trackers_above(
            self.function_scope@,
            entry_with_id(self.functions@, self.last_function_id).params@.len() as int,
        ))
        &&& (self.scope == Scope::Global ==> self.function_scope@.len() == 0)
    }

    /// The implicit top-level function's entry.
    fn new_global() -> (r: FunctionEntry)
        ensures
            is_fresh_entry(r, "__global__"@, GLOBAL_FUNCTION_ID, Seq::<FunctionParameter>::empty()),
            r.wf(),
    {
        let r = FunctionEntry::from(
            String::from_str("__global__"),
            GLOBAL_FUNCTION_ID,
            Vec::new(),
        );
        proof {
            lemma_fresh_entry_wf(
                r,
                "__global__"@,
                GLOBAL_FUNCTION_ID,
                Seq::<FunctionParameter>::empty(),
            );
        }
        r
    }

    /// A fresh context: an empty machine that knows the global function,
    /// a registry holding only the global entry, global scope open with one
    /// empty tracker, and no entry point declared.
    pub fn new() -> (r: Context)
        ensures
            r.wf(),
            r.functions@.len() == 1,
            is_fresh_entry(
                r.functions@[0],
                "__global__"@,
                GLOBAL_FUNCTION_ID,
                Seq::<FunctionParameter>::empty(),
            ),
            r.scope == Scope::Global,
            r.has_main == false,
            r.next_function_id == 2,
            r.global_scope@.len() == 1,
            r.global_scope@[0].ids@.len() == 0,
            r.function_scope@.len() == 0,
            r.last_function_id == GLOBAL_FUNCTION_ID,
            r.vm@.frames.len() == 0,
            r.vm@.globals.len() == 0,
            r.vm@.quit == false,
            r.vm@.known == seq![GLOBAL_FUNCTION_ID],
    {
        let mut vm = VirtualMachine::new();
        vm.register_function(GLOBAL_FUNCTION_ID);
        let mut functions: Vec<FunctionEntry> = Vec::new();
        functions.push(Context::new_global());
        let mut global_scope: Vec<ScopeManager> = Vec::new();
        global_scope.push(ScopeManager::empty());
        let r = Context {
            vm,
            functions,
            scope: Scope::Global,
            has_main: false,
            next_function_id: 2,
            global_scope,
            function_scope: Vec::new(),
            last_function_id: GLOBAL_FUNCTION_ID,
        };
        proof {
            assert(r.vm@.known =~= seq![GLOBAL_FUNCTION_ID]);
            assert(r.functions@[0].id == GLOBAL_FUNCTION_ID);
            assert(has_entry_with_id(r.functions@, GLOBAL_FUNCTION_ID));
            assert(!has_entry_with_id(r.functions@, MAIN_FUNCTION_ID)) by {
                if has_entry_with_id(r.functions@, MAIN_FUNCTION_ID) {
                    let w = choose|w: int|
                        0 <= w < r.functions@.len() && r.functions@[w].id == MAIN_FUNCTION_ID;
                    assert(w == 0);
                }
            }
            assert(r.vm@.known.contains(GLOBAL_FUNCTION_ID)) by {
                assert(r.vm@.known[0] == GLOBAL_FUNCTION_ID);
            }
            assert(r.registry_wf());
            assert(r.vm_consistent());
        }
        r
    }

    /// The registry index of the entry with this id, if one exists.
    pub fn entry_pos(&self, id: u64) -> (r: Option<usize>)
        requires
            forall|i: int, j: int|
                0 <= i < j < self.functions@.len() ==> self.functions@[i].id
                    != self.functions@[j].id,
        ensures
            r is Some <==> has_entry_with_id(self.functions@, id),
            (match r {
                Some(k) => k < self.functions@.len() && self.functions@[k as int].id == id && k
                    == entry_index(self.functions@, id),
                None => true,
            }),
    {
        let n = self.functions.len();
        let mut i: usize = 0;
        while i < n
            invariant
                n == self.functions@.len(),
                0 <= i <= n,
                forall|i2: int, j2: int|
                    0 <= i2 < j2 < self.functions@.len() ==> self.functions@[i2].id
                        != self.functions@[j2].id,
                forall|j: int| 0 <= j < i ==> self.functions@[j].id != id,
            decreases n - i,
        {
            if self.functions[i].id == id {
                proof {
                    assert(has_entry_with_id(self.functions@, id));
                    let w = choose|w: int|
                        0 <= w < self.functions@.len() && self.functions@[w].id == id;
                    assert(w == i);
                }
                return Some(i);
            }
            i = i + 1;
        }
        proof {
            assert(!has_entry_with_id(self.functions@, id));
        }
        None
    }

    /// A read-only view of the entry with this id, if one exists.
    pub fn get_entry_by_id(&self, id: u64) -> (r: Option<&FunctionEntry>)
        requires
            forall|i: int, j: int|
                0 <= i < j < self.functions@.len() ==> self.functions@[i].id
                    != self.functions@[j].id,
        ensures
            r is Some <==> has_entry_with_id(self.functions@, id),
            (match r {
                Some(e) => *e == entry_with_id(self.functions@, id),
                None => true,
            }),
    {
        match self.entry_pos(id) {
            Some(i) => Some(&self.functions[i]),
            None => None,
        }
    }

    /// Registers a declared function: validates the reserved-entry-point
    /// constraints, allocates its id, registers its parameters as writeable
    /// variables in declaration order, and opens it for compilation.
    ///
    /// The entry point must be unique and parameterless; an ordinary
    /// function gets the next free id. Nothing changes on any error.
    pub(crate) fn add_function(&mut self, f: FunctionDeclaration) -> (r: Result<u64, Error>)
        requires
            old(self).wf(),
            old(self).scope == Scope::Global,
        ensures
            final(self).wf(),
            ({
                let is_main = f.name@ == MAIN_FUNCTION_NAME@;
                let ok_id: u64 = if is_main {
                    MAIN_FUNCTION_ID
                } else {
                    old(self).next_function_id
                };
                &&& (is_main && old(self).has_main ==> r == Err::<u64, Error>(
                    Error::DuplicateEntryPoint {  },
                ) && *final(self) == *old(self))
                &&& (is_main && !old(self).has_main && f.arguments@.len() > 0 ==> r == Err::<
                    u64,
                    Error,
                >(Error::EntryPointTakesParameters {  }) && *final(self) == *old(self))
                &&& (!is_main && old(self).next_function_id == u64::MAX ==> r == Err::<u64, Error>(
                    Error::TooManyFunctions {  },
                ) && *final(self) == *old(self))
                &&& (r is Err ==> *final(self) == *old(self))
                &&& (r is Ok <==> (is_main ==> !old(self).has_main && f.arguments@.len() == 0) && (
                !is_main ==> old(self).next_function_id < u64::MAX) && decl_params_ok(f.arguments@)
                    && f.arguments@.len() + 1 <= u64::MAX)
                &&& (r is Ok ==> r == Ok::<u64, Error>(ok_id) && final(self).functions@ == old(
                    self,
                ).functions@.push(final(self).functions@.last()) && is_fresh_entry(
                    final(self).functions@.last(),
                    f.name@,
                    ok_id,
                    f.arguments@,
                ) && final(self).scope == Scope::Function && final(self).last_function_id == ok_id
                    && final(self).has_main == (old(self).has_main || is_main) && final(self).next_function_id == (if is_main {
                    old(self).next_function_id as int
                } else {
                    old(self).next_function_id + 1
                }) && final(self).global_scope == old(self).global_scope && final(self).function_scope == old(self).function_scope && final(self).vm@ == (
                crate::vm::VmModel {
                    known: old(self).vm@.known.push(ok_id),
                    ..old(self).vm@
                }))
            }),
    {
        let is_main = f.name == String::from_str(MAIN_FUNCTION_NAME);
        if is_main && self.has_main {
            return Err(Error::DuplicateEntryPoint {  });
        }
        if is_main && f.arguments.len() != 0 {
            return Err(Error::EntryPointTakesParameters {  });
        }
        let id = if is_main {
            MAIN_FUNCTION_ID
        } else {
            if self.next_function_id == u64::MAX {
                return Err(Error::TooManyFunctions {  });
            }
            self.next_function_id
        };
        let ghost spec_is_main = (f.name@ == MAIN_FUNCTION_NAME@);
        let FunctionDeclaration { name, arguments } = f;
        let ghost name_view = name@;
        let mut entry = FunctionEntry::from(name, id, clone_params(&arguments));
        let n = arguments.len();
        let mut k: usize = 0;
        while k < n
            invariant
                *self == *old(self),
                old(self).wf(),
                old(self).scope == Scope::Global,
                spec_is_main == (name_view == MAIN_FUNCTION_NAME@),
                is_main == spec_is_main,
                name_view == f.name@,
                arguments@ == f.arguments@,
                spec_is_main ==> !old(self).has_main && arguments@.len() == 0,
                !spec_is_main ==> old(self).next_function_id < u64::MAX,
                id == (if spec_is_main {
                    MAIN_FUNCTION_ID
                } else {
                    old(self).next_function_id
                }),
                n == arguments@.len(),
                0 <= k <= n,
                entry.name@ == name_view,
                entry.id == id,
                entry.body@.len() == 0,
                entry.params@ == arguments@,
                entry.next_var_id == k + 1,
                entry.vars@.len() == k + 1,
                entry.vars@[0].id == RET_VAL_VAR_ID,
                entry.vars@[0].name@ == "TREZE"@,
                entry.vars@[0].writeable,
                forall|j: int|
                    1 <= j < entry.vars@.len() ==> ((#[trigger] entry.vars@[j]).id == j
                        && entry.vars@[j].name@ == arguments@[j - 1].name@
                        && entry.vars@[j].writeable),
                forall|i2: int, j2: int|
                    0 <= i2 < j2 < k ==> arguments@[i2].name@ != arguments@[j2].name@,
                forall|i2: int| 0 <= i2 < k ==> (#[trigger] arguments@[i2]).name@ != "TREZE"@,
            decreases n - k,
        {
            let pname = arguments[k].name.clone();
            let ghost pre_entry = entry;
            match entry.add_var(pname, true) {
                Ok(_) => {
                    proof {
                        // The new name matched neither the return slot's
                        // name nor any earlier parameter's.
                        assert forall|i2: int| 0 <= i2 < k + 1 implies (#[trigger] arguments@[i2]).name@
                            != "TREZE"@ by {
                            if i2 == k {
                                assert(pre_entry.vars@[0].name@ == "TREZE"@);
                            }
                        }
                        assert forall|i2: int, j2: int| 0 <= i2 < j2 < k + 1 implies arguments@[i2].name@
                            != arguments@[j2].name@ by {
                            if j2 == k {
                                assert(pre_entry.vars@[i2 + 1].name@ == arguments@[i2].name@);
                            }
                        }
                    }
                },
                Err(e) => {
                    proof {
                        if has_var_named(pre_entry.vars@, arguments@[k as int].name@) {
                            // The clash is with the return slot's name or
                            // with an earlier parameter: the declaration
                            // repeats a reserved or duplicate name.
                            let w = choose|w: int|
                                0 <= w < pre_entry.vars@.len() && pre_entry.vars@[w].name@
                                    == arguments@[k as int].name@;
                            if w == 0 {
                                assert(arguments@[k as int].name@ == "TREZE"@);
                            } else {
                                assert(arguments@[w - 1].name@ == arguments@[k as int].name@);
                            }
                            assert(!decl_params_ok(arguments@));
                        } else {
                            // The per-function id counter is exhausted, so
                            // the parameter list itself is over-long.
                            assert(pre_entry.next_var_id == u64::MAX);
                            assert(arguments@.len() + 1 > u64::MAX);
                        }
                    }
                    return Err(e);
                },
            }
            k = k + 1;
        }
        proof {
            assert(decl_params_ok(arguments@));
            assert(is_fresh_entry(entry, name_view, id, arguments@));
            lemma_fresh_entry_wf(entry, name_view, id, arguments@);
        }
        let ghost pre = *self;
        self.functions.push(entry);
        self.vm.register_function(id);
        self.scope = Scope::Function;
        self.last_function_id = id;
        if is_main {
            self.has_main = true;
        } else {
            self.next_function_id = self.next_function_id + 1;
        }
        proof {
            let post = *self;
            assert forall|i: int| 0 <= i < post.functions@.len() implies post.vm@.known.contains(
                (#[trigger] post.functions@[i]).id,
            ) by {
                if i < pre.functions@.len() {
                    assert(pre.vm@.known.contains(pre.functions@[i].id));
                    let w = choose|w: int|
                        0 <= w < pre.vm@.known.len() && pre.vm@.known[w] == pre.functions@[i].id;
                    assert(post.vm@.known[w] == pre.functions@[i].id);
                } else {
                    assert(post.vm@.known.last() == id);
                }
            }
            assert forall|kk: int| 0 <= kk < post.vm@.known.len() implies has_entry_with_id(
                post.functions@,
                #[trigger] post.vm@.known[kk],
            ) by {
                if kk < pre.vm@.known.len() {
                    assert(has_entry_with_id(pre.functions@, pre.vm@.known[kk]));
                    let w = choose|w: int|
                        0 <= w < pre.functions@.len() && pre.functions@[w].id
                            == pre.vm@.known[kk];
                    assert(post.functions@[w].id == pre.vm@.known[kk]);
                } else {
                    assert(post.functions@.last().id == id);
                }
            }
            if is_main {
                assert(has_entry_with_id(post.functions@, MAIN_FUNCTION_ID)) by {
                    assert(post.functions@.last().id == MAIN_FUNCTION_ID);
                }
            } else {
                if post.has_main {
                    let w = choose|w: int|
                        0 <= w < pre.functions@.len() && pre.functions@[w].id
                            == MAIN_FUNCTION_ID;
                    assert(post.functions@[w].id == MAIN_FUNCTION_ID);
                }
                if has_entry_with_id(post.functions@, MAIN_FUNCTION_ID) {
                    let w = choose|w: int|
                        0 <= w < post.functions@.len() && post.functions@[w].id
                            == MAIN_FUNCTION_ID;
                    assert(w < pre.functions@.len());
                    assert(pre.functions@[w].id == MAIN_FUNCTION_ID);
                }
            }
            assert(has_entry_with_id(post.functions@, post.last_function_id)) by {
                assert(post.functions@.last().id == id);
            }
            assert(entry_with_id(post.functions@, post.last_function_id)
                == post.functions@.last()) by {
                let w = entry_index(post.functions@, id);
                assert(post.functions@[w].id == id);
                if w < pre.functions@.len() {
                    assert(pre.functions@[w].id == id);
                    if is_main {
                        assert(pre.has_main == false);
                        assert(has_entry_with_id(pre.functions@, MAIN_FUNCTION_ID));
                    }
                }
            }
        }
        Ok(id)
    }
}

/// The global table handed to the compiler for fallback lookups: absent at
/// global scope, where the current function is itself the global one.
pub open spec fn global_of(pre: Context) -> Option<FunctionEntry> {
    if pre.scope == Scope::Global {
        None
    } else {
        Some(pre.functions@[0])
    }
}

/// The scope-tracker stack that hints currently apply to.
pub open spec fn stack_of(pre: Context) -> Seq<ScopeManager> {
    if pre.scope == Scope::Global {
        pre.global_scope@
    } else {
        pre.function_scope@
    }
}

/// The registry index compilation currently targets.
pub open spec fn target_index(pre: Context) -> int {
    if pre.scope == Scope::Global {
        0
    } else {
        entry_index(pre.functions@, pre.last_function_id)
    }
}

/// Nothing observable changed: every table, stack and flag kept its value.
pub open spec fn ctx_unchanged(pre: Context, post: Context) -> bool {
    &&& post.vm@ == pre.vm@
    &&& post.functions@ == pre.functions@
    &&& post.scope == pre.scope
    &&& post.has_main == pre.has_main
    &&& post.next_function_id == pre.next_function_id
    &&& post.global_scope@ == pre.global_scope@
    &&& post.function_scope@ == pre.function_scope@
    &&& post.last_function_id == pre.last_function_id
}

/// Processing a statement never moves the machine, the scope kind, or the
/// function-id bookkeeping.
pub open spec fn ctx_frame_unchanged(pre: Context, post: Context) -> bool {
    &&& post.vm == pre.vm
    &&& post.scope == pre.scope
    &&& post.has_main == pre.has_main
    &&& post.next_function_id == pre.next_function_id
    &&& post.last_function_id == pre.last_function_id
}

/// Only the entry at `idx` changed.
pub open spec fn registry_updated_at(pre: Context, post: Context, idx: int) -> bool {
    post.functions@ == pre.functions@.update(idx, post.functions@[idx])
}

/// The entry kept everything but its body, which grew by `emitted`.
pub open spec fn entry_body_extended(
    pre_e: FunctionEntry,
    post_e: FunctionEntry,
    emitted: Seq<Instruction>,
) -> bool {
    &&& post_e.body@ == pre_e.body@ + emitted
    &&& post_e.name == pre_e.name
    &&& post_e.id == pre_e.id
    &&& post_e.params == pre_e.params
    &&& post_e.vars == pre_e.vars
    &&& post_e.next_var_id == pre_e.next_var_id
}

/// What processing `Command(stmt)` does: compile against the open function,
/// apply the hint to the tables, then append the emitted instructions to the
/// open function's body. Each error leaves the context untouched.
pub open spec fn command_post(
    pre: Context,
    post: Context,
    stmt: crate::compiler::Statement,
    r: Result<(), Error>,
) -> bool {
    let tidx = target_index(pre);
    let cur = pre.functions@[tidx];
    let outcome = crate::compiler::compile_spec(stmt, cur, global_of(pre), pre.functions@);
    let emitted = outcome.0;
    match outcome.1 {
        Err(e) => r == Err::<(), Error>(e) && ctx_unchanged(pre, post),
        Ok(hint) => match hint {
            None => {
                &&& r == Ok::<(), Error>(())
                &&& registry_updated_at(pre, post, tidx)
                &&& entry_body_extended(cur, post.functions@[tidx], emitted)
                &&& ctx_frame_unchanged(pre, post)
                &&& post.global_scope == pre.global_scope
                &&& post.function_scope == pre.function_scope
            },
            Some(crate::compiler::CompilerHint::ScopeStart) => {
                &&& r == Ok::<(), Error>(())
                &&& registry_updated_at(pre, post, tidx)
                &&& entry_body_extended(cur, post.functions@[tidx], emitted)
                &&& ctx_frame_unchanged(pre, post)
                &&& stack_of(post) == stack_of(pre).push(stack_of(post).last())
                &&& stack_of(post).last().ids@.len() == 0
                &&& (pre.scope == Scope::Global ==> post.function_scope == pre.function_scope)
                &&& (pre.scope == Scope::Function ==> post.global_scope == pre.global_scope)
            },
            Some(crate::compiler::CompilerHint::ScopeEnd) => {
                if stack_of(pre).len() == 0 {
                    r == Err::<(), Error>(Error::EmptyScopeStack {  }) && ctx_unchanged(pre, post)
                } else {
                    &&& r == Ok::<(), Error>(())
                    &&& registry_updated_at(pre, post, tidx)
                    &&& post.functions@[tidx].vars@ == stack_of(pre).last().drained(cur.vars@)
                    &&& post.functions@[tidx].body@ == cur.body@ + emitted
                    &&& post.functions@[tidx].name == cur.name
                    &&& post.functions@[tidx].id == cur.id
                    &&& post.functions@[tidx].params == cur.params
                    &&& post.functions@[tidx].next_var_id == cur.next_var_id
                    &&& ctx_frame_unchanged(pre, post)
                    &&& stack_of(post) == stack_of(pre).drop_last()
                    &&& (pre.scope == Scope::Global ==> post.function_scope
                        == pre.function_scope)
                    &&& (pre.scope == Scope::Function ==> post.global_scope == pre.global_scope)
                }
            },
            Some(crate::compiler::CompilerHint::DeclareVar { name, writeable }) => {
                if stack_of(pre).len() == 0 {
                    r == Err::<(), Error>(Error::EmptyScopeStack {  }) && ctx_unchanged(pre, post)
                } else if has_var_named(cur.vars@, name@) {
                    r == Err::<(), Error>(Error::DuplicateVariable { name }) && ctx_unchanged(pre, post)
                } else if cur.next_var_id == u64::MAX {
                    r == Err::<(), Error>(Error::TooManyVariables {  }) && ctx_unchanged(pre, post)
                } else {
                    &&& r == Ok::<(), Error>(())
                    &&& registry_updated_at(pre, post, tidx)
                    &&& post.functions@[tidx].vars@ == cur.vars@.push(
                        Variable { name: name, id: cur.next_var_id, writeable: writeable },
                    )
                    &&& post.functions@[tidx].next_var_id == cur.next_var_id + 1
                    &&& post.functions@[tidx].body@ == cur.body@ + emitted
                    &&& post.functions@[tidx].name == cur.name
                    &&& post.functions@[tidx].id == cur.id
                    &&& post.functions@[tidx].params == cur.params
                    &&& ctx_frame_unchanged(pre, post)
                    &&& stack_of(post).len() == stack_of(pre).len()
                    &&& stack_of(post) == stack_of(pre).update(
                        stack_of(pre).len() - 1,
                        stack_of(post).last(),
                    )
                    &&& stack_of(post).last().ids@ == stack_of(pre).last().ids@.push(
                        cur.next_var_id,
                    )
                    &&& (pre.scope == Scope::Global ==> post.function_scope
                        == pre.function_scope)
                    &&& (pre.scope == Scope::Function ==> post.global_scope == pre.global_scope)
                }
            },
        },
    }
}

/// What processing `FunctionEnd` does: only valid with a function open and
/// no nested blocks left; drains the function-level tracker and returns
/// control to global scope.
pub open spec fn function_end_post(pre: Context, post: Context, r: Result<(), Error>) -> bool {
    if pre.scope != Scope::Function {
        r == Err::<(), Error>(Error::FunctionEndOutsideFunction {  }) && ctx_unchanged(pre, post)
    } else if pre.function_scope@.len() > 1 {
        r == Err::<(), Error>(Error::OpenScopesAtFunctionEnd {  }) && ctx_unchanged(pre, post)
    } else if pre.function_scope@.len() == 0 {
        r == Err::<(), Error>(Error::EmptyScopeStack {  }) && ctx_unchanged(pre, post)
    } else {
        let tidx = entry_index(pre.functions@, pre.last_function_id);
        let cur = pre.functions@[tidx];
        &&& r == Ok::<(), Error>(())
        &&& registry_updated_at(pre, post, tidx)
        &&& post.functions@[tidx].vars@ == pre.function_scope@[0].drained(cur.vars@)
        &&& post.functions@[tidx].body == cur.body
        &&& post.functions@[tidx].name == cur.name
        &&& post.functions@[tidx].id == cur.id
        &&& post.functions@[tidx].params == cur.params
        &&& post.functions@[tidx].next_var_id == cur.next_var_id
        &&& post.scope == Scope::Global
        &&& post.function_scope@.len() == 0
        &&& post.global_scope == pre.global_scope
        &&& post.vm == pre.vm
        &&& post.has_main == pre.has_main
        &&& post.next_function_id == pre.next_function_id
        &&& post.last_function_id == pre.last_function_id
    }
}

/// What processing `FunctionStart(decl)` does: only valid at global scope;
/// registers the function (entry-point constraints included) and opens it
/// with one fresh scope tracker.
pub open spec fn function_start_post(
    pre: Context,
    post: Context,
    decl: FunctionDeclaration,
    r: Result<(), Error>,
) -> bool {
    if pre.scope == Scope::Function {
        r == Err::<(), Error>(Error::FunctionStartInsideFunction {  }) && ctx_unchanged(pre, post)
    } else {
        let is_main = decl.name@ == MAIN_FUNCTION_NAME@;
        let ok_id: u64 = if is_main {
            MAIN_FUNCTION_ID
        } else {
            pre.next_function_id
        };
        &&& (is_main && pre.has_main ==> r == Err::<(), Error>(Error::DuplicateEntryPoint {  })
            && ctx_unchanged(pre, post))
        &&& (is_main && !pre.has_main && decl.arguments@.len() > 0 ==> r == Err::<(), Error>(
            Error::EntryPointTakesParameters {  },
        ) && ctx_unchanged(pre, post))
        &&& (r is Err ==> ctx_unchanged(pre, post))
        &&& (r is Ok <==> (is_main ==> !pre.has_main && decl.arguments@.len() == 0) && (!is_main
            ==> pre.next_function_id < u64::MAX) && decl_params_ok(decl.arguments@)
            && decl.arguments@.len() + 1 <= u64::MAX)
        &&& (r is Ok ==> post.functions@ == pre.functions@.push(post.functions@.last())
            && is_fresh_entry(post.functions@.last(), decl.name@, ok_id, decl.arguments@)
            && post.scope == Scope::Function && post.last_function_id == ok_id && post.has_main
            == (pre.has_main || is_main) && post.next_function_id == (if is_main {
            pre.next_function_id as int
        } else {
            pre.next_function_id + 1
        }) && post.global_scope == pre.global_scope && post.function_scope@.len() == 1
            && post.function_scope@[0].ids@.len() == 0 && post.vm@ == (crate::vm::VmModel {
            known: pre.vm@.known.push(ok_id),
            ..pre.vm@
        }))
    }
}

/// The compile-time tables kept their values: the driver only moves the
/// machine.
pub open spec fn tables_unchanged(pre: Context, post: Context) -> bool {
    &&& post.functions@ == pre.functions@
    &&& post.scope == pre.scope
    &&& post.has_main == pre.has_main
    &&& post.next_function_id == pre.next_function_id
    &&& post.global_scope@ == pre.global_scope@
    &&& post.function_scope@ == pre.function_scope@
    &&& post.last_function_id == pre.last_function_id
}

/// The variable store of a frame whose first `n` call arguments are bound:
/// argument `k` sits in the parameter slot with id `k + 1`.
pub open spec fn bound_args(args: Seq<RawValue>, n: int) -> Seq<(u64, RawValue)> {
    Seq::new(n as nat, |j: int| (((j + 1) as u64), args[j]))
}

/// The index of the first call argument that is not type-compatible with
/// its parameter, scanning from `k`.
pub open spec fn first_bad_arg(
    params: Seq<FunctionParameter>,
    args: Seq<RawValue>,
    k: int,
) -> Option<int>
    decreases args.len() - k,
{
    if k < 0 || k >= args.len() {
        None
    } else if !crate::value::compatible(args[k].kind(), params[k].kind) {
        Some(k)
    } else {
        first_bad_arg(params, args, k + 1)
    }
}

/// What invoking a function from outside the machine does. Wrong arity
/// fails before any instruction executes, leaving the machine untouched.
/// An argument of an incompatible type fails at the type-assertion step:
/// the begun frame holds the earlier arguments in their slots and the
/// offending value still on its evaluation stack, stored nowhere, and the
/// frame is never activated. With everything right, the new frame carries
/// all arguments in their slots and becomes the execution target.
pub open spec fn call_post(
    pre: Context,
    post: Context,
    id: u64,
    args: Seq<RawValue>,
    r: Result<(), Error>,
) -> bool {
    &&& tables_unchanged(pre, post)
    &&& (!has_entry_with_id(pre.functions@, id) ==> r == Err::<(), Error>(
        Error::UnknownFunctionId { id },
    ) && post.vm@ == pre.vm@)
    &&& (has_entry_with_id(pre.functions@, id) ==> {
        let f = entry_with_id(pre.functions@, id);
        &&& (f.params@.len() != args.len() ==> r == Err::<(), Error>(
            Error::ArityMismatch {
                name: f.name,
                expected: f.params@.len() as usize,
                given: args.len() as usize,
            },
        ) && post.vm@ == pre.vm@)
        &&& (f.params@.len() == args.len() ==> (match first_bad_arg(f.params@, args, 0) {
            Some(b) => r == Err::<(), Error>(
                Error::TypeMismatch { expected: f.params@[b].kind, found: args[b].kind() },
            ) && post.vm@ == (crate::vm::VmModel {
                frames: pre.vm@.frames.push(
                    crate::vm::FrameModel {
                        id: id,
                        pc: 0,
                        stack: seq![args[b]],
                        vars: bound_args(args, b),
                    },
                ),
                ..pre.vm@
            }),
            None => r == Ok::<(), Error>(()) && post.vm@ == (crate::vm::VmModel {
                frames: pre.vm@.frames.push(
                    crate::vm::FrameModel {
                        id: id,
                        pc: 0,
                        stack: Seq::<RawValue>::empty(),
                        vars: bound_args(args, args.len() as int),
                    },
                ),
                current: Some(pre.vm@.frames.len() as usize),
                ..pre.vm@
            }),
        }))
    })
}

/// One step of the fetch-decode-execute driver, at the spec level: fetch
/// the instruction at the execution target's program counter (a `Return` is
/// synthesized past the end of the body), advance the counter, execute.
/// This is the driver's whole semantics; `execute_next_instruction` is
/// proved to follow it exactly.
pub open spec fn driver_step(m: crate::vm::VmModel, funcs: Seq<FunctionEntry>) -> (
    crate::vm::VmModel,
    Result<crate::vm::ExecutionStatus, Error>,
) {
    match m.current {
        None => (m, Err(Error::NoActiveFrame {  })),
        Some(i) => {
            let frame = m.frames[i as int];
            let body = entry_with_id(funcs, frame.id).body@;
            let fetched = if frame.pc < body.len() {
                body[frame.pc as int]
            } else {
                Instruction::Return
            };
            if frame.pc == usize::MAX {
                (m, Err(Error::PcOverflow {  }))
            } else {
                let advanced = crate::vm::VmModel {
                    frames: m.frames.update(
                        i as int,
                        crate::vm::FrameModel { pc: (frame.pc + 1) as usize, ..frame },
                    ),
                    ..m
                };
                advanced.step(fetched)
            }
        },
    }
}

/// Driving the machine to termination: repeat `driver_step` while the
/// status is normal continuation or function return, stop with success on
/// program termination, stop with the error on a failing step, and give up
/// only when the step budget runs out.
pub open spec fn drive(m: crate::vm::VmModel, funcs: Seq<FunctionEntry>, fuel: nat) -> (
    crate::vm::VmModel,
    Result<(), Error>,
)
    decreases fuel,
{
    if fuel == 0 {
        (m, Err(Error::StepLimitExceeded {  }))
    } else {
        let stepped = driver_step(m, funcs);
        match stepped.1 {
            Err(e) => (stepped.0, Err(e)),
            Ok(crate::vm::ExecutionStatus::Quit) => (stepped.0, Ok(())),
            Ok(_) => drive(stepped.0, funcs, (fuel - 1) as nat),
        }
    }
}

/// The frame a zero-argument invocation begins with.
pub open spec fn nullary_frame(id: u64) -> crate::vm::FrameModel {
    crate::vm::FrameModel {
        id: id,
        pc: 0,
        stack: Seq::<RawValue>::empty(),
        vars: Seq::<(u64, RawValue)>::empty(),
    }
}

/// The machine after beginning and activating a zero-argument call on `m`.
pub open spec fn nullary_call(m: crate::vm::VmModel, id: u64) -> crate::vm::VmModel {
    crate::vm::VmModel {
        frames: m.frames.push(nullary_frame(id)),
        current: Some(m.frames.len() as usize),
        ..m
    }
}

/// What the whole batch run does: the implicit top-level function is
/// invoked with zero arguments and driven to program termination; then,
/// exactly when an entry point was declared, the termination flag is
/// cleared and the entry point is invoked (zero arguments, resolved by its
/// reserved name) and driven to program termination. The first error from
/// any call or step is returned at once and aborts the run; the final
/// machine is pinned on every path.
pub open spec fn start_program_post(pre: Context, post: Context, r: Result<(), Error>) -> bool {
    let funcs = pre.functions@;
    let fuel = u64::MAX as nat;
    let outcome = drive(nullary_call(pre.vm@, GLOBAL_FUNCTION_ID), funcs, fuel);
    match outcome.1 {
        Err(e) => r == Err::<(), Error>(e) && post.vm@ == outcome.0,
        Ok(_) => {
            let rested = crate::vm::VmModel { quit: false, ..outcome.0 };
            if !pre.has_main {
                r == Ok::<(), Error>(()) && post.vm@ == rested
            } else {
                match crate::compiler::function_named_index(funcs, MAIN_FUNCTION_NAME@) {
                    None => {
                        &&& r matches Err(Error::UnknownFunction { name }) && name@
                            == MAIN_FUNCTION_NAME@
                        &&& post.vm@ == rested
                    },
                    Some(k) => {
                        let f = funcs[k];
                        if f.params@.len() != 0 {
                            r == Err::<(), Error>(
                                Error::ArityMismatch {
                                    name: f.name,
                                    expected: f.params@.len() as usize,
                                    given: 0,
                                },
                            ) && post.vm@ == rested
                        } else {
                            let outcome2 = drive(nullary_call(rested, f.id), funcs, fuel);
                            match outcome2.1 {
                                Err(e) => r == Err::<(), Error>(e) && post.vm@ == outcome2.0,
                                Ok(_) => r == Ok::<(), Error>(()) && post.vm@ == outcome2.0,
                            }
                        }
                    },
                }
            }
        },
    }
}

impl Context {
    /// Invokes the function with this id from outside the machine: begins a
    /// frame, binds the supplied values to the parameter slots in
    /// declaration order, each type-asserted against the declared parameter
    /// type, and marks the frame as the execution target.
    #[verifier::rlimit(60)]
    pub fn call_function_by_id(&mut self, id: u64, args: Vec<RawValue>) -> (r: Result<(), Error>)
        requires
            old(self).wf(),
        ensures
            final(self).wf(),
            call_post(*old(self), *final(self), id, args@, r),
    {
        let ghost pre = *self;
        let fpos = match self.entry_pos(id) {
            Some(p) => p,
            None => {
                return Err(Error::UnknownFunctionId { id });
            },
        };
        let ghost f = pre.functions@[fpos as int];
        if self.functions[fpos].params.len() != args.len() {
            let entry = &self.functions[fpos];
            return Err(
                Error::ArityMismatch {
                    name: entry.name.clone(),
                    expected: entry.params.len(),
                    given: args.len(),
                },
            );
        }
        proof {
            assert(pre.vm@.known.contains(pre.functions@[fpos as int].id));
        }
        match self.vm.run(&Instruction::MakeNewFrame(id)) {
            Ok(_) => {},
            Err(_) => unreached(),
        }
        proof {
            assert(bound_args(args@, 0) =~= Seq::<(u64, RawValue)>::empty());
            assert(self.vm@ =~~= (crate::vm::VmModel {
                frames: pre.vm@.frames.push(
                    crate::vm::FrameModel {
                        id: id,
                        pc: 0,
                        stack: Seq::<RawValue>::empty(),
                        vars: bound_args(args@, 0),
                    },
                ),
                ..pre.vm@
            }));
        }
        let n = args.len();
        let mut k: usize = 0;
        while k < n
            invariant
                pre == *old(self),
                pre.wf(),
                self.functions == pre.functions,
                self.scope == pre.scope,
                self.has_main == pre.has_main,
                self.next_function_id == pre.next_function_id,
                self.global_scope == pre.global_scope,
                self.function_scope == pre.function_scope,
                self.last_function_id == pre.last_function_id,
                fpos < pre.functions@.len(),
                f == pre.functions@[fpos as int],
                f.id == id,
                f.wf(),
                n == args@.len(),
                f.params@.len() == n,
                0 <= k <= n,
                first_bad_arg(f.params@, args@, 0) == first_bad_arg(f.params@, args@, k as int),
                self.vm@ == (crate::vm::VmModel {
                    frames: pre.vm@.frames.push(
                        crate::vm::FrameModel {
                            id: id,
                            pc: 0,
                            stack: Seq::<RawValue>::empty(),
                            vars: bound_args(args@, k as int),
                        },
                    ),
                    ..pre.vm@
                }),
                self.vm@.wf(),
            decreases n - k,
        {
            let ghost vm_before = self.vm@;
            let value = args[k].clone();
            let push_instr = crate::instruction::push_instruction_for(value);
            match self.vm.run(&push_instr) {
                Ok(_) => {},
                Err(_) => unreached(),
            }
            proof {
                assert(self.vm@.frames =~= vm_before.frames.update(
                    vm_before.frames.len() - 1,
                    self.vm@.frames.last(),
                ));
                assert(self.vm@.frames.last().stack =~= seq![args@[k as int]]);
                assert(self.vm@.frames.last().vars == bound_args(args@, k as int));
                assert(self.vm@.frames.last().id == id);
                assert(self.vm@.frames.last().pc == 0);
                assert(self.vm@.frames.len() == pre.vm@.frames.len() + 1);
                assert(self.vm@.globals == pre.vm@.globals);
                assert(self.vm@.current == pre.vm@.current);
                assert(self.vm@.known == pre.vm@.known);
                assert(self.vm@.quit == pre.vm@.quit);
            }
            let expected = self.functions[fpos].params[k].kind;
            match self.vm.run(&Instruction::AssertMainTopTypeCompatible(expected)) {
                Ok(_) => {},
                Err(e) => {
                    proof {
                        assert(first_bad_arg(f.params@, args@, k as int) == Some(k as int));
                        assert(self.vm@ =~~= (crate::vm::VmModel {
                            frames: pre.vm@.frames.push(
                                crate::vm::FrameModel {
                                    id: id,
                                    pc: 0,
                                    stack: seq![args@[k as int]],
                                    vars: bound_args(args@, k as int),
                                },
                            ),
                            ..pre.vm@
                        }));
                    }
                    return Err(e);
                },
            }
            let slot = match self.functions[fpos].get_id_for(&self.functions[fpos].params[k].name) {
                Some(s) => s,
                None => {
                    proof {
                        assert(f.params_registered());
                        let i = choose|i: int|
                            0 <= i < f.vars@.len() && (#[trigger] f.vars@[i]).id == k + 1
                                && f.vars@[i].name@ == f.params@[k as int].name@
                                && f.vars@[i].writeable;
                        assert(has_var_named(f.vars@, f.params@[k as int].name@));
                    }
                    unreached()
                },
            };
            proof {
                assert(f.params_registered());
                let i = choose|i: int|
                    0 <= i < f.vars@.len() && (#[trigger] f.vars@[i]).id == k + 1
                        && f.vars@[i].name@ == f.params@[k as int].name@ && f.vars@[i].writeable;
                assert(has_var_named(f.vars@, f.params@[k as int].name@));
                let w = choose|w: int|
                    0 <= w < f.vars@.len() && f.vars@[w].name@ == f.params@[k as int].name@;
                assert(w == i);
                assert(slot == (k + 1) as u64);
            }
            let ghost vm_mid = self.vm@;
            match self.vm.run(&Instruction::WriteToVarWithId(slot)) {
                Ok(_) => {},
                Err(_) => unreached(),
            }
            proof {
                // The slot id is fresh in the store, so the write appends:
                // exactly the next bound argument.
                assert(!crate::vm::store_has(bound_args(args@, k as int), slot)) by {
                    if crate::vm::store_has(bound_args(args@, k as int), slot) {
                        let w = choose|w: int|
                            0 <= w < bound_args(args@, k as int).len() && bound_args(
                                args@,
                                k as int,
                            )[w].0 == slot;
                    }
                }
                assert(crate::vm::spec_store_write(bound_args(args@, k as int), slot, args@[k as int])
                    =~= bound_args(args@, k + 1));
                assert(self.vm@.frames =~~= pre.vm@.frames.push(
                    crate::vm::FrameModel {
                        id: id,
                        pc: 0,
                        stack: Seq::<RawValue>::empty(),
                        vars: bound_args(args@, k + 1),
                    },
                ));
                assert(self.vm@ =~~= (crate::vm::VmModel {
                    frames: pre.vm@.frames.push(
                        crate::vm::FrameModel {
                            id: id,
                            pc: 0,
                            stack: Seq::<RawValue>::empty(),
                            vars: bound_args(args@, k + 1),
                        },
                    ),
                    ..pre.vm@
                }));
            }
            k = k + 1;
        }
        match self.vm.run(&Instruction::SetLastFrameReady) {
            Ok(_) => {},
            Err(_) => unreached(),
        }
        proof {
            assert(self.vm@ =~~= (crate::vm::VmModel {
                frames: pre.vm@.frames.push(
                    crate::vm::FrameModel {
                        id: id,
                        pc: 0,
                        stack: Seq::<RawValue>::empty(),
                        vars: bound_args(args@, args@.len() as int),
                    },
                ),
                current: Some(pre.vm@.frames.len() as usize),
                ..pre.vm@
            }));
        }
        Ok(())
    }

    /// Invokes the first registered function bearing this name, as
    /// `call_function_by_id` does; fails if no function has the name.
    pub fn call_function_by_name(&mut self, name: &String, args: Vec<RawValue>) -> (r: Result<
        (),
        Error,
    >)
        requires
            old(self).wf(),
        ensures
            final(self).wf(),
            (match crate::compiler::function_named_index(old(self).functions@, name@) {
                None => r == Err::<(), Error>(Error::UnknownFunction { name: *name })
                    && ctx_unchanged(*old(self), *final(self)),
                Some(k) => call_post(
                    *old(self),
                    *final(self),
                    old(self).functions@[k].id,
                    args@,
                    r,
                ),
            }),
    {
        let n = self.functions.len();
        let mut fi: usize = 0;
        let mut found = false;
        while fi < n && !found
            invariant
                n == self.functions@.len(),
                0 <= fi <= n,
                *self == *old(self),
                found ==> fi < n && self.functions@[fi as int].name@ == name@
                    && crate::compiler::function_named_index(self.functions@, name@) == Some(
                    fi as int,
                ),
                !found ==> crate::compiler::find_named(self.functions@, name@, 0)
                    == crate::compiler::find_named(self.functions@, name@, fi as int),
            decreases n - fi + (if found { 0int } else { 1int }),
        {
            if self.functions[fi].name == *name {
                found = true;
            } else {
                fi = fi + 1;
            }
        }
        if !found {
            return Err(Error::UnknownFunction { name: name.clone() });
        }
        let id = self.functions[fi].id;
        self.call_function_by_id(id, args)
    }

    /// The driver's one step: fetches the instruction at the execution
    /// target's program counter (synthesizing a `Return` past the end of the
    /// body), advances the counter, and executes it.
    pub fn execute_next_instruction(&mut self) -> (r: Result<crate::vm::ExecutionStatus, Error>)
        requires
            old(self).wf(),
        ensures
            final(self).wf(),
            tables_unchanged(*old(self), *final(self)),
            final(self).vm@ == driver_step(old(self).vm@, old(self).functions@).0,
            r == driver_step(old(self).vm@, old(self).functions@).1,
    {
        let ghost pre = *self;
        let pc = match self.vm.get_current_pc() {
            Some(pc) => pc,
            None => {
                return Err(Error::NoActiveFrame {  });
            },
        };
        let fid = match self.vm.get_current_id() {
            Some(fid) => fid,
            None => unreached(),
        };
        let fpos = match self.entry_pos(fid) {
            Some(p) => p,
            None => {
                proof {
                    assert(pre.vm@.known.contains(fid));
                    let w = choose|w: int|
                        0 <= w < pre.vm@.known.len() && pre.vm@.known[w] == fid;
                    assert(has_entry_with_id(pre.functions@, fid));
                }
                unreached()
            },
        };
        let instruction = if pc >= self.functions[fpos].body.len() {
            Instruction::Return
        } else {
            self.functions[fpos].body[pc].clone()
        };
        match self.vm.increment_pc() {
            Ok(_) => {},
            Err(e) => {
                return Err(e);
            },
        }
        let status = match self.vm.run(&instruction) {
            Ok(status) => status,
            Err(e) => {
                return Err(e);
            },
        };
        Ok(status)
    }

    /// Runs the implicit top-level function to completion, bootstrapping the
    /// global statements; then, if an entry point was declared, invokes it
    /// with no arguments and runs it to completion. The result and the final
    /// machine are exactly what `start_program_post`'s spec-level drive of
    /// the compiled bodies says, on every path. With no entry point declared
    /// and nothing compiled at top level, the program terminates without
    /// error.
    pub fn start_program(&mut self) -> (r: Result<(), Error>)
        requires
            old(self).wf(),
            old(self).vm@.frames.len() == 0,
        ensures
            final(self).wf(),
            tables_unchanged(*old(self), *final(self)),
            r is Ok ==> final(self).vm@.frames.len() == 0,
            r is Ok && !old(self).has_main ==> final(self).vm@.quit == false,
            r is Ok && old(self).has_main ==> final(self).vm@.quit,
            !old(self).has_main && entry_with_id(old(self).functions@, GLOBAL_FUNCTION_ID).body@.len()
                == 0 ==> r == Ok::<(), Error>(()) && final(self).vm@.quit == false
                && final(self).vm@.frames.len() == 0,
            start_program_post(*old(self), *final(self), r),
    {
        let ghost pre = *self;
        let ghost funcs0 = pre.functions@;
        let ghost boot = nullary_call(pre.vm@, GLOBAL_FUNCTION_ID);
        let ghost bare_run = !pre.has_main && entry_with_id(pre.functions@, GLOBAL_FUNCTION_ID).body@.len()
            == 0;
        match self.call_function_by_id(GLOBAL_FUNCTION_ID, Vec::new()) {
            Ok(_) => {},
            Err(_) => {
                proof {
                    assert(has_entry_with_id(pre.functions@, GLOBAL_FUNCTION_ID)) by {
                        assert(pre.functions@[0].id == GLOBAL_FUNCTION_ID);
                    }
                    assert(entry_with_id(pre.functions@, GLOBAL_FUNCTION_ID).params@.len() == 0)
                        by {
                        let w = entry_index(pre.functions@, GLOBAL_FUNCTION_ID);
                        if w != 0 {
                            assert(pre.functions@[0].id != pre.functions@[w].id);
                        }
                    }
                }
                unreached()
            },
        }
        proof {
            assert(first_bad_arg(
                entry_with_id(pre.functions@, GLOBAL_FUNCTION_ID).params@,
                Seq::<RawValue>::empty(),
                0,
            ) is None);
            assert(bound_args(Seq::<RawValue>::empty(), 0) =~= Seq::<(u64, RawValue)>::empty());
            assert(self.vm@ =~~= boot);
        }
        let mut fuel: u64 = u64::MAX;
        loop
            invariant_except_break
                drive(boot, funcs0, u64::MAX as nat) == drive(self.vm@, funcs0, fuel as nat),
                bare_run ==> fuel == u64::MAX,
                bare_run ==> self.vm@.frames =~= seq![
                    crate::vm::FrameModel {
                        id: GLOBAL_FUNCTION_ID,
                        pc: 0,
                        stack: Seq::<RawValue>::empty(),
                        vars: bound_args(Seq::<RawValue>::empty(), 0),
                    },
                ] && self.vm@.current == Some(0usize),
            invariant
                pre == *old(self),
                self.wf(),
                tables_unchanged(pre, *self),
                funcs0 == pre.functions@,
                boot == nullary_call(pre.vm@, GLOBAL_FUNCTION_ID),
                bare_run == (!pre.has_main && entry_with_id(
                    pre.functions@,
                    GLOBAL_FUNCTION_ID,
                ).body@.len() == 0),
            ensures
                self.wf(),
                tables_unchanged(pre, *self),
                self.vm@.quit,
                self.vm@.frames.len() == 0,
                drive(boot, funcs0, u64::MAX as nat) == (self.vm@, Ok::<(), Error>(())),
            decreases fuel,
        {
            if fuel == 0 {
                proof {
                    if bare_run {
                        assert(false);
                    }
                    assert(drive(boot, funcs0, u64::MAX as nat) == (
                        self.vm@,
                        Err::<(), Error>(Error::StepLimitExceeded {  }),
                    ));
                }
                return Err(Error::StepLimitExceeded {  });
            }
            fuel = fuel - 1;
            let ghost loop_pre = *self;
            match self.execute_next_instruction() {
                Ok(crate::vm::ExecutionStatus::Normal) => {
                    proof {
                        if bare_run {
                            assert(false);
                        }
                        assert(drive(loop_pre.vm@, funcs0, (fuel + 1) as nat) == drive(
                            self.vm@,
                            funcs0,
                            fuel as nat,
                        ));
                    }
                },
                Ok(crate::vm::ExecutionStatus::Returned) => {
                    proof {
                        if bare_run {
                            assert(false);
                        }
                        assert(drive(loop_pre.vm@, funcs0, (fuel + 1) as nat) == drive(
                            self.vm@,
                            funcs0,
                            fuel as nat,
                        ));
                    }
                },
                Ok(crate::vm::ExecutionStatus::Quit) => {
                    proof {
                        assert(self.vm@.quit && self.vm@.frames.len() == 0) by {
                            let i = loop_pre.vm@.current->Some_0;
                            let frame = loop_pre.vm@.frames[i as int];
                            let body = entry_with_id(loop_pre.functions@, frame.id).body@;
                            let fetched = if frame.pc < body.len() {
                                body[frame.pc as int]
                            } else {
                                Instruction::Return
                            };
                            assert(fetched is Return || fetched is MakeNewFrame || fetched
                                is PushMainStr || fetched is PushMainInt || fetched is PushMainNum
                                || fetched is AssertMainTopTypeCompatible || fetched
                                is WriteToVarWithId || fetched is WriteToGlobalVarWithId || fetched
                                is SetLastFrameReady);
                        }
                        assert(drive(loop_pre.vm@, funcs0, (fuel + 1) as nat) == (
                            self.vm@,
                            Ok::<(), Error>(()),
                        ));
                    }
                    break ;
                },
                Err(e) => {
                    proof {
                        if bare_run {
                            assert(false);
                        }
                        assert(drive(loop_pre.vm@, funcs0, (fuel + 1) as nat) == (
                            self.vm@,
                            Err::<(), Error>(e),
                        ));
                    }
                    return Err(e);
                },
            }
        }
        self.vm.unset_quit();
        let ghost rested = self.vm@;
        if self.has_main {
            let main_name = String::from_str(MAIN_FUNCTION_NAME);
            let ghost kopt = crate::compiler::function_named_index(funcs0, MAIN_FUNCTION_NAME@);
            match self.call_function_by_name(&main_name, Vec::new()) {
                Ok(_) => {},
                Err(e) => {
                    proof {
                        // The lookup found nothing, or the function bearing
                        // the reserved name wants arguments; a zero-argument
                        // call cannot fail any other way.
                        match kopt {
                            None => {},
                            Some(k) => {
                                crate::compiler::lemma_find_named_in_range(
                                    funcs0,
                                    MAIN_FUNCTION_NAME@,
                                    0,
                                    k,
                                );
                                let f = funcs0[k];
                                assert(has_entry_with_id(funcs0, f.id)) by {
                                    assert(funcs0[k].id == f.id);
                                }
                                let w = entry_index(funcs0, f.id);
                                assert(funcs0[w].id == f.id);
                                if w != k {
                                    assert(funcs0[w].id != funcs0[k].id);
                                }
                                assert(entry_with_id(funcs0, f.id) == f);
                                if f.params@.len() == 0 {
                                    assert(first_bad_arg(
                                        f.params@,
                                        Seq::<RawValue>::empty(),
                                        0,
                                    ) is None);
                                    assert(false);
                                }
                            },
                        }
                    }
                    return Err(e);
                },
            }
            let ghost kk = kopt->Some_0;
            let ghost fmain = funcs0[kopt->Some_0];
            let ghost boot2 = nullary_call(rested, fmain.id);
            proof {
                crate::compiler::lemma_find_named_in_range(funcs0, MAIN_FUNCTION_NAME@, 0, kk);
                assert(has_entry_with_id(funcs0, fmain.id)) by {
                    assert(funcs0[kk].id == fmain.id);
                }
                let w = entry_index(funcs0, fmain.id);
                assert(funcs0[w].id == fmain.id);
                if w != kk {
                    assert(funcs0[w].id != funcs0[kk].id);
                }
                assert(entry_with_id(funcs0, fmain.id) == fmain);
                assert(fmain.params@.len() == 0);
                assert(first_bad_arg(fmain.params@, Seq::<RawValue>::empty(), 0) is None);
                assert(bound_args(Seq::<RawValue>::empty(), 0) =~= Seq::<(u64, RawValue)>::empty());
                assert(self.vm@ =~~= boot2);
            }
            let mut fuel2: u64 = u64::MAX;
            loop
                invariant_except_break
                    drive(boot2, funcs0, u64::MAX as nat) == drive(self.vm@, funcs0, fuel2 as nat),
                invariant
                    pre == *old(self),
                    pre.has_main,
                    self.wf(),
                    tables_unchanged(pre, *self),
                    funcs0 == pre.functions@,
                    boot == nullary_call(pre.vm@, GLOBAL_FUNCTION_ID),
                    drive(boot, funcs0, u64::MAX as nat).1 == Ok::<(), Error>(()),
                    rested == (crate::vm::VmModel {
                        quit: false,
                        ..drive(boot, funcs0, u64::MAX as nat).0
                    }),
                    kopt == crate::compiler::function_named_index(funcs0, MAIN_FUNCTION_NAME@),
                    kopt is Some && kk == kopt->Some_0,
                    fmain == funcs0[kk],
                    fmain.params@.len() == 0,
                    boot2 == nullary_call(rested, fmain.id),
                ensures
                    self.wf(),
                    tables_unchanged(pre, *self),
                    self.vm@.quit,
                    self.vm@.frames.len() == 0,
                    drive(boot2, funcs0, u64::MAX as nat) == (self.vm@, Ok::<(), Error>(())),
                decreases fuel2,
            {
                if fuel2 == 0 {
                    proof {
                        assert(drive(boot2, funcs0, u64::MAX as nat) == (
                            self.vm@,
                            Err::<(), Error>(Error::StepLimitExceeded {  }),
                        ));
                    }
                    return Err(Error::StepLimitExceeded {  });
                }
                fuel2 = fuel2 - 1;
                let ghost loop_pre2 = *self;
                match self.execute_next_instruction() {
                    Ok(crate::vm::ExecutionStatus::Normal) => {
                        proof {
                            assert(drive(loop_pre2.vm@, funcs0, (fuel2 + 1) as nat) == drive(
                                self.vm@,
                                funcs0,
                                fuel2 as nat,
                            ));
                        }
                    },
                    Ok(crate::vm::ExecutionStatus::Returned) => {
                        proof {
                            assert(drive(loop_pre2.vm@, funcs0, (fuel2 + 1) as nat) == drive(
                                self.vm@,
                                funcs0,
                                fuel2 as nat,
                            ));
                        }
                    },
                    Ok(crate::vm::ExecutionStatus::Quit) => {
                        proof {
                            assert(self.vm@.quit && self.vm@.frames.len() == 0) by {
                                let i = loop_pre2.vm@.current->Some_0;
                                let frame = loop_pre2.vm@.frames[i as int];
                                let body = entry_with_id(loop_pre2.functions@, frame.id).body@;
                                let fetched = if frame.pc < body.len() {
                                    body[frame.pc as int]
                                } else {
                                    Instruction::Return
                                };
                                assert(fetched is Return || fetched is MakeNewFrame || fetched
                                    is PushMainStr || fetched is PushMainInt || fetched
                                    is PushMainNum || fetched is AssertMainTopTypeCompatible
                                    || fetched is WriteToVarWithId || fetched
                                    is WriteToGlobalVarWithId || fetched is SetLastFrameReady);
                            }
                            assert(drive(loop_pre2.vm@, funcs0, (fuel2 + 1) as nat) == (
                                self.vm@,
                                Ok::<(), Error>(()),
                            ));
                        }
                        break ;
                    },
                    Err(e) => {
                        proof {
                            assert(drive(loop_pre2.vm@, funcs0, (fuel2 + 1) as nat) == (
                                self.vm@,
                                Err::<(), Error>(e),
                            ));
                        }
                        return Err(e);
                    },
                }
            }
        }
        Ok(())
    }

    /// Ingests one parsed line: compiles a statement against the open scope
    /// and applies its hint, opens a declared function, or closes the open
    /// one. The heart of batch ingestion; each error leaves every table
    /// untouched.
    pub fn process_line(&mut self, line: ParsedLine) -> (r: Result<(), Error>)
        requires
            old(self).wf(),
        ensures
            final(self).wf(),
            (match line {
                ParsedLine::Nothing => r == Ok::<(), Error>(()) && *final(self) == *old(self),
                ParsedLine::Command(stmt) => command_post(*old(self), *final(self), stmt, r),
                ParsedLine::FunctionStart(decl) => function_start_post(
                    *old(self),
                    *final(self),
                    decl,
                    r,
                ),
                ParsedLine::FunctionEnd => function_end_post(*old(self), *final(self), r),
            }),
    {
        let ghost pre = *self;
        match line {
            ParsedLine::Nothing => Ok(()),
            ParsedLine::FunctionStart(decl) => {
                if self.scope == Scope::Function {
                    return Err(Error::FunctionStartInsideFunction {  });
                }
                match self.add_function(decl) {
                    Ok(_) => {},
                    Err(e) => {
                        return Err(e);
                    },
                }
                self.function_scope.push(ScopeManager::empty());
                proof {
                    assert(self.function_scope@.len() == 1);
                    assert(self.function_scope@[0].ids@.len() == 0);
                }
                Ok(())
            },
            ParsedLine::FunctionEnd => {
                if self.scope != Scope::Function {
                    return Err(Error::FunctionEndOutsideFunction {  });
                }
                if self.function_scope.len() > 1 {
                    return Err(Error::OpenScopesAtFunctionEnd {  });
                }
                if self.function_scope.len() == 0 {
                    return Err(Error::EmptyScopeStack {  });
                }
                let tracker = self.function_scope.remove(0);
                let tpos = match self.entry_pos(self.last_function_id) {
                    Some(p) => p,
                    None => unreached(),
                };
                let ghost cur = self.functions@[tpos as int];
                tracker.at_end(&mut self.functions[tpos]);
                self.scope = Scope::Global;
                proof {
                    assert(self.function_scope@ =~= Seq::<ScopeManager>::empty());
                    assert(self.functions@ =~= pre.functions@.update(
                        tpos as int,
                        self.functions@[tpos as int],
                    ));
                    lemma_drain_preserves_entry_wf(
                        cur,
                        self.functions@[tpos as int],
                        tracker,
                    );
                    lemma_registry_update_same_id(
                        pre.functions@,
                        self.functions@,
                        tpos as int,
                    );
                }
                Ok(())
            },
            ParsedLine::Command(stmt) => self.process_command(stmt),
        }
    }

    /// Compiles one statement against the open scope, applies its hint to
    /// the tables, and appends the emitted instructions to the open
    /// function's body.
    #[verifier::rlimit(60)]
    fn process_command(&mut self, stmt: crate::compiler::Statement) -> (r: Result<(), Error>)
        requires
            old(self).wf(),
        ensures
            final(self).wf(),
            command_post(*old(self), *final(self), stmt, r),
    {
        let ghost pre = *self;
        {
            {
                let tpos: usize = if self.scope == Scope::Global {
                    proof {
                        let w = entry_index(self.functions@, GLOBAL_FUNCTION_ID);
                        assert(has_entry_with_id(self.functions@, GLOBAL_FUNCTION_ID)) by {
                            assert(self.functions@[0].id == GLOBAL_FUNCTION_ID);
                        }
                        assert(self.functions@[w].id == GLOBAL_FUNCTION_ID);
                        if w != 0 {
                            assert(self.functions@[0].id != self.functions@[w].id);
                        }
                    }
                    0
                } else {
                    match self.entry_pos(self.last_function_id) {
                        Some(p) => p,
                        None => unreached(),
                    }
                };
                let ghost tidx = target_index(pre);
                proof {
                    assert(tpos as int == tidx);
                }
                let ghost cur = pre.functions@[tidx];
                let mut instructions: Vec<Instruction> = Vec::new();
                let compiled = {
                    let current = &self.functions[tpos];
                    let global_ref: Option<&FunctionEntry> = if self.scope == Scope::Global {
                        None
                    } else {
                        Some(&self.functions[0])
                    };
                    crate::compiler::Compiler::compile_command(
                        stmt,
                        current,
                        global_ref,
                        &self.functions,
                        &mut instructions,
                    )
                };
                let ghost emitted = crate::compiler::compile_spec(
                    stmt,
                    cur,
                    global_of(pre),
                    pre.functions@,
                ).0;
                proof {
                    assert(instructions@ =~= emitted);
                }
                let hint = match compiled {
                    Ok(h) => h,
                    Err(e) => {
                        return Err(e);
                    },
                };
                match hint {
                    None => {},
                    Some(crate::compiler::CompilerHint::ScopeStart) => {
                        if self.scope == Scope::Global {
                            self.global_scope.push(ScopeManager::empty());
                        } else {
                            self.function_scope.push(ScopeManager::empty());
                        }
                    },
                    Some(crate::compiler::CompilerHint::ScopeEnd) => {
                        if self.scope == Scope::Global {
                            if self.global_scope.len() == 0 {
                                return Err(Error::EmptyScopeStack {  });
                            }
                            let tracker = match self.global_scope.pop() {
                                Some(t) => t,
                                None => unreached(),
                            };
                            let ghost pre_entry = self.functions@[tpos as int];
                            tracker.at_end(&mut self.functions[tpos]);
                            proof {
                                lemma_drain_preserves_entry_wf(
                                    pre_entry,
                                    self.functions@[tpos as int],
                                    tracker,
                                );
                            }
                        } else {
                            if self.function_scope.len() == 0 {
                                return Err(Error::EmptyScopeStack {  });
                            }
                            let tracker = match self.function_scope.pop() {
                                Some(t) => t,
                                None => unreached(),
                            };
                            let ghost pre_entry = self.functions@[tpos as int];
                            tracker.at_end(&mut self.functions[tpos]);
                            proof {
                                lemma_drain_preserves_entry_wf(
                                    pre_entry,
                                    self.functions@[tpos as int],
                                    tracker,
                                );
                            }
                        }
                    },
                    Some(crate::compiler::CompilerHint::DeclareVar { name, writeable }) => {
                        if self.scope == Scope::Global {
                            if self.global_scope.len() == 0 {
                                return Err(Error::EmptyScopeStack {  });
                            }
                        } else {
                            if self.function_scope.len() == 0 {
                                return Err(Error::EmptyScopeStack {  });
                            }
                        }
                        let ghost pre_entry = self.functions@[tpos as int];
                        let vid = match self.functions[tpos].add_var(name, writeable) {
                            Ok(id) => id,
                            Err(e) => {
                                proof {
                                    assert(self.functions@ =~= pre.functions@);
                                }
                                return Err(e);
                            },
                        };
                        proof {
                            lemma_add_var_preserves_wf(
                                pre_entry,
                                self.functions@[tpos as int],
                                self.functions@[tpos as int].vars@.last(),
                            );
                        }
                        if self.scope == Scope::Global {
                            let li = self.global_scope.len() - 1;
                            self.global_scope[li].ids.push(vid);
                        } else {
                            let li = self.function_scope.len() - 1;
                            self.function_scope[li].ids.push(vid);
                        }
                    },
                }
                let ghost mid = *self;
                append_to_body(&mut self.functions[tpos], &instructions);
                proof {
                    assert(self.functions@ =~= mid.functions@.update(
                        tpos as int,
                        self.functions@[tpos as int],
                    ));
                    assert(self.functions@ =~= pre.functions@.update(
                        tpos as int,
                        self.functions@[tpos as int],
                    ));
                    lemma_registry_update_same_id(
                        pre.functions@,
                        self.functions@,
                        tpos as int,
                    );
                }
                Ok(())
            }
        }
    }
}

} // verus!
