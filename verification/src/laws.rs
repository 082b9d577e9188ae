//! The behavioural laws of the runtime, stated over the public contracts and
//! proved once and for all: scope exit, function-wide declaration
//! uniqueness, entry-point constraints, and the call-binding protocol.

use vstd::prelude::*;
use crate::compiler::{Statement, arg_binding_seq, call_sequence};
use crate::context::{
    Context, bound_args, call_post, command_post, entry_index, entry_with_id, first_bad_arg,
    function_start_post, has_entry_with_id, stack_of, target_index,
};
use crate::error::Error;
use crate::function::{FunctionDeclaration, FunctionEntry, Variable, has_var_named};
use crate::instruction::{Instruction, push_of};
use crate::scope::lemma_scope_exit_unresolvable;
use crate::value::RawValue;
use crate::MAIN_FUNCTION_NAME;

verus! {

/// Scope exit: in any well-formed context, once a block-closing statement is
/// processed, a variable declared inside that block — its id recorded by the
/// block's tracker — can no longer be resolved by any later statement, even
/// though its function stays open.
pub proof fn lemma_block_exit_unresolvable(
    pre: Context,
    post: Context,
    r: Result<(), Error>,
    v: Variable,
)
    requires
        pre.wf(),
        command_post(pre, post, Statement::BlockClose, r),
        stack_of(pre).len() > 0,
        pre.functions@[target_index(pre)].vars@.contains(v),
        stack_of(pre).last().ids@.contains(v.id),
    ensures
        r == Ok::<(), Error>(()),
        !has_var_named(post.functions@[target_index(pre)].vars@, v.name@),
{
    let tidx = target_index(pre);
    let cur = pre.functions@[tidx];
    if pre.scope == crate::context::Scope::Global {
        assert(pre.functions@[0].id == crate::GLOBAL_FUNCTION_ID);
    } else {
        assert(has_entry_with_id(pre.functions@, pre.last_function_id));
        let w = entry_index(pre.functions@, pre.last_function_id);
        assert(pre.functions@[w].id == pre.last_function_id);
    }
    assert(cur.wf());
    lemma_scope_exit_unresolvable(cur, post.functions@[tidx], stack_of(pre).last(), v);
}

/// Scope exit at the interactive prompt: once a block-closing line is
/// processed, a variable declared inside that block — its id recorded by
/// the block's tracker — can no longer be resolved by any later line.
pub proof fn lemma_session_block_exit_unresolvable(
    pre: crate::session::Session,
    post: crate::session::Session,
    r: Result<(), Error>,
    v: Variable,
)
    requires
        pre.wf(),
        crate::session::sess_command_post(pre, post, Statement::BlockClose, r),
        pre.stack_len() > 1,
        pre.context.functions@[crate::session::sess_target_index(pre)].vars@.contains(v),
        crate::session::sess_stack(pre).last().ids@.contains(v.id),
    ensures
        r == Ok::<(), Error>(()),
        !has_var_named(
            post.context.functions@[crate::session::sess_target_index(pre)].vars@,
            v.name@,
        ),
{
    let tidx = crate::session::sess_target_index(pre);
    let cur = pre.context.functions@[tidx];
    if pre.scope == crate::context::Scope::Global {
        assert(pre.context.functions@[0].id == crate::GLOBAL_FUNCTION_ID);
    } else {
        assert(has_entry_with_id(pre.context.functions@, pre.open_function_id));
        let w = entry_index(pre.context.functions@, pre.open_function_id);
        assert(pre.context.functions@[w].id == pre.open_function_id);
    }
    assert(cur.wf());
    lemma_scope_exit_unresolvable(
        cur,
        post.context.functions@[tidx],
        crate::session::sess_stack(pre).last(),
        v,
    );
}

/// Function-wide uniqueness of declarations: declaring a variable whose name
/// is already live anywhere in the open function — in the same block or any
/// other — fails with a duplicate-declaration error and changes nothing.
pub proof fn lemma_duplicate_declaration_rejected(
    pre: Context,
    post: Context,
    r: Result<(), Error>,
    name: String,
    writeable: bool,
    value: RawValue,
)
    requires
        pre.wf(),
        command_post(
            pre,
            post,
            Statement::Declare { name: name, writeable: writeable, value: value },
            r,
        ),
        stack_of(pre).len() > 0,
        has_var_named(pre.functions@[target_index(pre)].vars@, name@),
    ensures
        r == Err::<(), Error>(Error::DuplicateVariable { name: name }),
        crate::context::ctx_unchanged(pre, post),
{
}

/// At most one entry point: declaring a second function under the reserved
/// entry-point name fails, and changes nothing.
pub proof fn lemma_entry_point_unique(
    pre: Context,
    post: Context,
    r: Result<(), Error>,
    decl: FunctionDeclaration,
)
    requires
        pre.wf(),
        pre.scope == crate::context::Scope::Global,
        function_start_post(pre, post, decl, r),
        decl.name@ == MAIN_FUNCTION_NAME@,
        pre.has_main,
    ensures
        r == Err::<(), Error>(Error::DuplicateEntryPoint {  }),
        crate::context::ctx_unchanged(pre, post),
{
}

/// The entry point takes no parameters: declaring it with one or more fails,
/// and changes nothing.
pub proof fn lemma_entry_point_parameterless(
    pre: Context,
    post: Context,
    r: Result<(), Error>,
    decl: FunctionDeclaration,
)
    requires
        pre.wf(),
        pre.scope == crate::context::Scope::Global,
        function_start_post(pre, post, decl, r),
        decl.name@ == MAIN_FUNCTION_NAME@,
        !pre.has_main,
        decl.arguments@.len() > 0,
    ensures
        r == Err::<(), Error>(Error::EntryPointTakesParameters {  }),
        crate::context::ctx_unchanged(pre, post),
{
}

/// Arity errors precede execution: invoking a function with the wrong number
/// of arguments fails before any instruction of the call executes — the
/// machine is exactly as it was.
pub proof fn lemma_wrong_arity_runs_nothing(
    pre: Context,
    post: Context,
    r: Result<(), Error>,
    id: u64,
    args: Seq<RawValue>,
)
    requires
        pre.wf(),
        call_post(pre, post, id, args, r),
        has_entry_with_id(pre.functions@, id),
        entry_with_id(pre.functions@, id).params@.len() != args.len(),
    ensures
        r matches Err(Error::ArityMismatch { name: _, expected: _, given: _ }),
        post.vm@ == pre.vm@,
{
}

/// Type errors strike at the assertion step: an argument of an incompatible
/// type fails after its value was pushed and before it is stored — the begun
/// frame holds every earlier argument in its slot, the offending value sits
/// on the evaluation stack bound to nothing, and the frame never became the
/// execution target.
pub proof fn lemma_incompatible_argument_stops_at_assert(
    pre: Context,
    post: Context,
    r: Result<(), Error>,
    id: u64,
    args: Seq<RawValue>,
    b: int,
)
    requires
        pre.wf(),
        call_post(pre, post, id, args, r),
        has_entry_with_id(pre.functions@, id),
        entry_with_id(pre.functions@, id).params@.len() == args.len(),
        args.len() <= u64::MAX,
        first_bad_arg(entry_with_id(pre.functions@, id).params@, args, 0) == Some(b),
    ensures
        r == Err::<(), Error>(
            Error::TypeMismatch {
                expected: entry_with_id(pre.functions@, id).params@[b].kind,
                found: args[b].kind(),
            },
        ),
        post.vm@.frames == pre.vm@.frames.push(
            crate::vm::FrameModel {
                id: id,
                pc: 0,
                stack: seq![args[b]],
                vars: bound_args(args, b),
            },
        ),
        post.vm@.current == pre.vm@.current,
        forall|k: int|
            0 <= k < b ==> crate::vm::store_get(post.vm@.frames.last().vars, (k + 1) as u64)
                == args[k],
{
    lemma_first_bad_in_range(entry_with_id(pre.functions@, id).params@, args, 0, b);
    assert forall|k: int| 0 <= k < b implies crate::vm::store_get(
        post.vm@.frames.last().vars,
        (k + 1) as u64,
    ) == args[k] by {
        let store = bound_args(args, b);
        assert(store[k] == (((k + 1) as u64), args[k]));
        assert(crate::vm::store_has(store, (k + 1) as u64));
        let w = choose|w: int| 0 <= w < store.len() && store[w].0 == (k + 1) as u64;
        assert(store[w].0 == (w + 1) as u64);
        assert(b <= args.len());
        assert(0 <= w + 1 <= u64::MAX && 0 <= k + 1 <= u64::MAX);
        assert(w == k);
    }
}

/// A first incompatible argument lies within the argument list.
proof fn lemma_first_bad_in_range(
    params: Seq<crate::function::FunctionParameter>,
    args: Seq<RawValue>,
    k: int,
    b: int,
)
    requires
        0 <= k,
        first_bad_arg(params, args, k) == Some(b),
    ensures
        k <= b < args.len(),
    decreases args.len() - k,
{
    if k < args.len() && crate::value::compatible(args[k].kind(), params[k].kind) {
        lemma_first_bad_in_range(params, args, k + 1, b);
    }
}

/// The shape of a compiled call: one frame-begin instruction, then for each
/// argument in declaration order a push, the type assertion, and the store
/// into that parameter's slot, and finally the activation — so the assertion
/// for each argument stands strictly between its push and its store.
pub proof fn lemma_call_sequence_order(f: FunctionEntry, args: Seq<RawValue>, k: int)
    requires
        0 <= k < args.len(),
    ensures
        call_sequence(f, args).len() == 2 + 3 * args.len(),
        call_sequence(f, args)[0] == Instruction::MakeNewFrame(f.id),
        call_sequence(f, args)[1 + 3 * k] == push_of(args[k]),
        call_sequence(f, args)[2 + 3 * k] == Instruction::AssertMainTopTypeCompatible(
            f.params@[k].kind,
        ),
        call_sequence(f, args)[3 + 3 * k] == Instruction::WriteToVarWithId((k + 1) as u64),
        call_sequence(f, args).last() == Instruction::SetLastFrameReady,
{
    lemma_arg_binding_len(f, args, args.len() as int);
    lemma_arg_binding_index(f, args, args.len() as int, k);
}

/// The binding sequence for `n` arguments is three instructions per argument.
proof fn lemma_arg_binding_len(f: FunctionEntry, args: Seq<RawValue>, n: int)
    requires
        n <= args.len(),
    ensures
        arg_binding_seq(f, args, n).len() == 3 * (if n >= 0 {
            n
        } else {
            0
        }),
    decreases n,
{
    if n > 0 {
        lemma_arg_binding_len(f, args, n - 1);
    }
}

/// Within the binding sequence, argument `k` occupies slots `3k` to `3k+2`.
proof fn lemma_arg_binding_index(f: FunctionEntry, args: Seq<RawValue>, n: int, k: int)
    requires
        0 <= k < n <= args.len(),
    ensures
        arg_binding_seq(f, args, n).len() == 3 * n,
        arg_binding_seq(f, args, n)[3 * k] == push_of(args[k]),
        arg_binding_seq(f, args, n)[3 * k + 1] == Instruction::AssertMainTopTypeCompatible(
            f.params@[k].kind,
        ),
        arg_binding_seq(f, args, n)[3 * k + 2] == Instruction::WriteToVarWithId((k + 1) as u64),
    decreases n,
{
    lemma_arg_binding_len(f, args, n);
    if k < n - 1 {
        lemma_arg_binding_index(f, args, n - 1, k);
        lemma_arg_binding_len(f, args, n - 1);
    } else {
        lemma_arg_binding_len(f, args, n - 1);
    }
}

} // verus!
