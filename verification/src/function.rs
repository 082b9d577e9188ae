//! Function entries and their symbol tables: named, numbered variables with
//! a writeable flag, typed parameters, and the compiled body.

use vstd::prelude::*;
use crate::error::Error;
use crate::instruction::Instruction;
use crate::value::TypeKind;
use crate::RET_VAL_VAR_ID;

verus! {

/// A declared variable of one function: its name, its id (unique within the
/// owning function) and whether it may be assigned to after declaration.
#[derive(Debug, PartialEq)]
pub struct Variable {
    pub name: String,
    pub id: u64,
    pub writeable: bool,
}

impl Clone for Variable {
    /// An exact copy: the clone equals the original.
    fn clone(&self) -> (r: Self)
        ensures
            r == *self,
    {
        Variable { name: self.name.clone(), id: self.id, writeable: self.writeable }
    }
}

/// One declared parameter of a function: its name and the type that call
/// arguments bound to it must be compatible with.
#[derive(Debug, PartialEq)]
pub struct FunctionParameter {
    pub name: String,
    pub kind: TypeKind,
}

impl Clone for FunctionParameter {
    /// An exact copy: the clone equals the original.
    fn clone(&self) -> (r: Self)
        ensures
            r == *self,
    {
        FunctionParameter { name: self.name.clone(), kind: self.kind }
    }
}

/// A parsed function-start declaration: the function's name and its ordered,
/// typed parameter list.
#[derive(Debug, PartialEq)]
pub struct FunctionDeclaration {
    pub name: String,
    pub arguments: Vec<FunctionParameter>,
}

/// Whether some variable in `vars` bears `name`.
pub open spec fn has_var_named(vars: Seq<Variable>, name: Seq<char>) -> bool {
    exists|i: int| 0 <= i < vars.len() && vars[i].name@ == name
}

/// The variable in `vars` bearing `name`; meaningful under `has_var_named`
/// and name uniqueness.
pub open spec fn var_named(vars: Seq<Variable>, name: Seq<char>) -> Variable {
    vars[choose|i: int| 0 <= i < vars.len() && vars[i].name@ == name]
}

/// Whether some variable in `vars` has id `id`.
pub open spec fn has_var_id(vars: Seq<Variable>, id: u64) -> bool {
    exists|i: int| 0 <= i < vars.len() && vars[i].id == id
}

/// One function known to the runtime: identity, compiled body, parameters,
/// and the set of variables currently live in it.
#[derive(Debug)]
pub struct FunctionEntry {
    pub name: String,
    pub id: u64,
    pub body: Vec<Instruction>,
    pub params: Vec<FunctionParameter>,
    pub vars: Vec<Variable>,
    pub next_var_id: u64,
}

impl FunctionEntry {
    /// Variable names are unique across the whole function, not per block.
    pub open spec fn names_unique(self) -> bool {
        forall|i: int, j: int|
            0 <= i < j < self.vars@.len() ==> self.vars@[i].name@ != self.vars@[j].name@
    }

    /// Variable ids are unique and never reused.
    pub open spec fn ids_unique(self) -> bool {
        forall|i: int, j: int|
            0 <= i < j < self.vars@.len() ==> self.vars@[i].id != self.vars@[j].id
    }

    /// Every live variable id was allocated below the fresh-id counter.
    pub open spec fn ids_bounded(self) -> bool {
        forall|i: int| 0 <= i < self.vars@.len() ==> self.vars@[i].id < self.next_var_id
    }

    /// Parameter `k` is registered as the writeable variable with id `k + 1`,
    /// in declaration order right after the return-value slot.
    pub open spec fn params_registered(self) -> bool {
        forall|k: int|
            0 <= k < self.params@.len() ==> exists|i: int|
                0 <= i < self.vars@.len() && (#[trigger] self.vars@[i]).id == k + 1
                    && self.vars@[i].name@ == (#[trigger] self.params@[k]).name@
                    && self.vars@[i].writeable
    }

    /// The implicit return-value slot (id 0) is always live.
    pub open spec fn ret_slot_registered(self) -> bool {
        exists|i: int| 0 <= i < self.vars@.len() && (#[trigger] self.vars@[i]).id == RET_VAL_VAR_ID
    }

    /// Well-formedness of the entry's symbol table.
    pub open spec fn wf(self) -> bool {
        &&& self.names_unique()
        &&& self.ids_unique()
        &&& self.ids_bounded()
        &&& self.params_registered()
        &&& self.ret_slot_registered()
        &&& self.params@.len() < self.next_var_id
    }

    /// What `get_id_for` returns, as a spec value.
    pub open spec fn id_for(self, name: Seq<char>) -> Option<u64> {
        if has_var_named(self.vars@, name) {
            Some(var_named(self.vars@, name).id)
        } else {
            None
        }
    }

    /// Looks up the id of the live variable named `var`, or `None` if no such
    /// variable is live.
    pub fn get_id_for(&self, var: &String) -> (r: Option<u64>)
        requires
            self.names_unique(),
        ensures
            r == self.id_for(var@),
    {
        let n = self.vars.len();
        let mut i: usize = 0;
        while i < n
            invariant
                n == self.vars@.len(),
                0 <= i <= n,
                self.names_unique(),
                forall|j: int| 0 <= j < i ==> self.vars@[j].name@ != var@,
            decreases n - i,
        {
            if self.vars[i].name == *var {
                proof {
                    assert(has_var_named(self.vars@, var@));
                    let w = choose|k: int|
                        0 <= k < self.vars@.len() && self.vars@[k].name@ == var@;
                    assert(w == i);
                }
                return Some(self.vars[i].id);
            }
            i = i + 1;
        }
        proof {
            assert(!has_var_named(self.vars@, var@));
        }
        None
    }

    /// Looks up the writeable flag of the live variable named `var`.
    pub fn get_writeable_for(&self, var: &String) -> (r: Option<bool>)
        requires
            self.names_unique(),
        ensures
            has_var_named(self.vars@, var@) ==> r == Some(var_named(self.vars@, var@).writeable),
            !has_var_named(self.vars@, var@) ==> r is None,
    {
        let n = self.vars.len();
        let mut i: usize = 0;
        while i < n
            invariant
                n == self.vars@.len(),
                0 <= i <= n,
                self.names_unique(),
                forall|j: int| 0 <= j < i ==> self.vars@[j].name@ != var@,
            decreases n - i,
        {
            if self.vars[i].name == *var {
                proof {
                    assert(has_var_named(self.vars@, var@));
                    let w = choose|k: int|
                        0 <= k < self.vars@.len() && self.vars@[k].name@ == var@;
                    assert(w == i);
                }
                return Some(self.vars[i].writeable);
            }
            i = i + 1;
        }
        None
    }

    /// Builds a fresh entry: empty body, the given parameters, and a symbol
    /// table holding only the return-value slot. The parameters still have to
    /// be registered as variables, one `add_var` each, in declaration order.
    pub fn from(name: String, id: u64, params: Vec<FunctionParameter>) -> (r: FunctionEntry)
        ensures
            r.name == name,
            r.id == id,
            r.body@ == Seq::<Instruction>::empty(),
            r.params == params,
            r.vars@.len() == 1,
            r.vars@[0].id == RET_VAL_VAR_ID,
            r.vars@[0].name@ == "TREZE"@,
            r.vars@[0].writeable,
            r.next_var_id == 1,
    {
        let mut vars: Vec<Variable> = Vec::new();
        vars.push(
            Variable { name: String::from_str("TREZE"), id: RET_VAL_VAR_ID, writeable: true },
        );
        FunctionEntry { name, id, body: Vec::new(), params, vars, next_var_id: 1 }
    }

    /// Declares a new variable. Fails with a duplicate-declaration error if a
    /// variable with the same name is live anywhere in the function; otherwise
    /// the variable gets the next fresh id and the counter advances.
    pub fn add_var(&mut self, name: String, writeable: bool) -> (r: Result<u64, Error>)
        ensures
            has_var_named(old(self).vars@, name@) ==> r == Err::<u64, Error>(
                Error::DuplicateVariable { name: name },
            ) && *final(self) == *old(self),
            !has_var_named(old(self).vars@, name@) && old(self).next_var_id == u64::MAX ==> r
                == Err::<u64, Error>(Error::TooManyVariables { }) && *final(self) == *old(self),
            !has_var_named(old(self).vars@, name@) && old(self).next_var_id < u64::MAX ==> r
                == Ok::<u64, Error>(old(self).next_var_id) && final(self).vars@ == old(
                self,
            ).vars@.push(Variable { name: name, id: old(self).next_var_id, writeable: writeable })
                && final(self).next_var_id == old(self).next_var_id + 1 && final(self).name == old(
                self,
            ).name && final(self).id == old(self).id && final(self).body == old(self).body
                && final(self).params == old(self).params,
    {
        let n = self.vars.len();
        let mut i: usize = 0;
        while i < n
            invariant
                n == self.vars@.len(),
                0 <= i <= n,
                forall|j: int| 0 <= j < i ==> self.vars@[j].name@ != name@,
            decreases n - i,
        {
            if self.vars[i].name == name {
                return Err(Error::DuplicateVariable { name });
            }
            i = i + 1;
        }
        if self.next_var_id == u64::MAX {
            return Err(Error::TooManyVariables {  });
        }
        let id = self.next_var_id;
        self.vars.push(Variable { name, id, writeable });
        self.next_var_id = self.next_var_id + 1;
        Ok(id)
    }
}

/// Copies a parameter list, element for element.
pub fn clone_params(ps: &Vec<FunctionParameter>) -> (r: Vec<FunctionParameter>)
    ensures
        r@ == ps@,
{
    let mut r: Vec<FunctionParameter> = Vec::new();
    let n = ps.len();
    let mut i: usize = 0;
    while i < n
        invariant
            n == ps@.len(),
            0 <= i <= n,
            r@ == ps@.take(i as int),
        decreases n - i,
    {
        r.push(ps[i].clone());
        proof {
            assert(r@ =~= ps@.take(i + 1));
        }
        i = i + 1;
    }
    proof {
        assert(ps@.take(n as int) =~= ps@);
    }
    r
}

/// `add_var` keeps the symbol table well formed.
pub proof fn lemma_add_var_preserves_wf(pre: FunctionEntry, post: FunctionEntry, v: Variable)
    requires
        pre.wf(),
        !has_var_named(pre.vars@, v.name@),
        v.id == pre.next_var_id,
        pre.next_var_id < u64::MAX,
        post.vars@ == pre.vars@.push(v),
        post.next_var_id == pre.next_var_id + 1,
        post.params == pre.params,
    ensures
        post.wf(),
{
    let m = pre.vars@.len() as int;
    assert forall|i: int, j: int| 0 <= i < j < post.vars@.len() implies post.vars@[i].name@
        != post.vars@[j].name@ by {
        if j < m {
            assert(pre.vars@[i].name@ != pre.vars@[j].name@);
        } else {
            assert(post.vars@[j].name@ == v.name@);
            assert(post.vars@[i] == pre.vars@[i]);
            assert(!has_var_named(pre.vars@, v.name@));
        }
    }
    assert forall|k: int| 0 <= k < post.params@.len() implies exists|i: int|
        0 <= i < post.vars@.len() && (#[trigger] post.vars@[i]).id == k + 1 && post.vars@[i].name@
            == (#[trigger] post.params@[k]).name@ && post.vars@[i].writeable by {
        assert(pre.params_registered());
        assert(pre.params@[k] == post.params@[k]);
        let w = choose|i: int|
            0 <= i < pre.vars@.len() && (#[trigger] pre.vars@[i]).id == k + 1 && pre.vars@[i].name@
                == pre.params@[k].name@ && pre.vars@[i].writeable;
        assert(post.vars@[w] == pre.vars@[w]);
    }
    let w0 = choose|i: int|
        0 <= i < pre.vars@.len() && (#[trigger] pre.vars@[i]).id == RET_VAL_VAR_ID;
    assert(post.vars@[w0] == pre.vars@[w0]);
}

} // verus!
