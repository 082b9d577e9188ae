//! Scope trackers: the compile-time record of which variable ids were
//! declared directly inside one lexical block, drained when the block closes.

use vstd::prelude::*;
use crate::function::{FunctionEntry, Variable, has_var_named};

verus! {

/// Decides whether `ids` contains `id`.
pub fn contains_id(ids: &Vec<u64>, id: u64) -> (r: bool)
    ensures
        r == ids@.contains(id),
{
    let n = ids.len();
    let mut i: usize = 0;
    while i < n
        invariant
            n == ids@.len(),
            0 <= i <= n,
            forall|j: int| 0 <= j < i ==> ids@[j] != id,
        decreases n - i,
    {
        if ids[i] == id {
            return true;
        }
        i = i + 1;
    }
    false
}

/// The ordered list of variable ids declared directly inside one lexical
/// block. One tracker is pushed when a block opens; when the block closes
/// its tracker is popped and every id it recorded is removed from the owning
/// function's variable set.
#[derive(Debug)]
pub struct ScopeManager {
    pub ids: Vec<u64>,
}

/// The predicate that survives a block exit: a variable is kept exactly
/// when its id is not among the drained block's recorded ids.
pub open spec fn keep_pred(ids: Seq<u64>) -> spec_fn(Variable) -> bool {
    |v: Variable| !ids.contains(v.id)
}

impl ScopeManager {
    /// What the block exit leaves of a variable set: exactly the variables
    /// whose id this tracker did not record, in their original order.
    pub open spec fn drained(self, vars: Seq<Variable>) -> Seq<Variable> {
        vars.filter(keep_pred(self.ids@))
    }

    /// A tracker for a block in which nothing is declared yet.
    pub fn empty() -> (r: ScopeManager)
        ensures
            r.ids@ == Seq::<u64>::empty(),
    {
        ScopeManager { ids: Vec::new() }
    }

    /// Records a freshly declared variable id in this block.
    pub fn record(&mut self, id: u64)
        ensures
            final(self).ids@ == old(self).ids@.push(id),
    {
        self.ids.push(id);
    }

    /// Closes the block: removes every variable whose id this tracker
    /// recorded from `func`'s variable set, keeping the others in order.
    /// Nothing else of the entry changes.
    pub fn at_end(self, func: &mut FunctionEntry)
        requires
            old(func).ids_unique(),
        ensures
            final(func).vars@ == self.drained(old(func).vars@),
            final(func).name == old(func).name,
            final(func).id == old(func).id,
            final(func).body == old(func).body,
            final(func).params == old(func).params,
            final(func).next_var_id == old(func).next_var_id,
    {
        let ghost orig = func.vars@;
        let ghost pred = keep_pred(self.ids@);
        let n = func.vars.len();
        let mut p: usize = 0;
        let mut i: usize = 0;
        while p < n
            invariant
                orig == old(func).vars@,
                pred == keep_pred(self.ids@),
                n == orig.len(),
                0 <= p <= n,
                i == orig.take(p as int).filter(pred).len(),
                func.vars@ == orig.take(p as int).filter(pred) + orig.skip(p as int),
                func.name == old(func).name,
                func.id == old(func).id,
                func.body == old(func).body,
                func.params == old(func).params,
                func.next_var_id == old(func).next_var_id,
            decreases n - p,
        {
            proof {
                broadcast use vstd::seq_lib::group_filter_ensures;
                broadcast use Seq::<_>::lemma_take_succ_push;
                broadcast use Seq::<_>::lemma_filter_push;

                assert(func.vars@[i as int] == orig.skip(p as int)[0]);
                assert(orig.skip(p as int)[0] == orig[p as int]);
            }
            let tracked_here = contains_id(&self.ids, func.vars[i].id);
            if tracked_here {
                proof {
                    broadcast use vstd::seq_lib::group_filter_ensures;
                    broadcast use Seq::<_>::lemma_take_succ_push;
                    broadcast use Seq::<_>::lemma_filter_push;

                    assert(!pred(orig[p as int]));
                    assert(orig.take(p as int + 1).filter(pred) == orig.take(p as int).filter(
                        pred,
                    ));
                    assert(func.vars@.remove(i as int) =~= orig.take(p as int + 1).filter(pred)
                        + orig.skip(p as int + 1));
                }
                func.vars.remove(i);
            } else {
                proof {
                    broadcast use vstd::seq_lib::group_filter_ensures;
                    broadcast use Seq::<_>::lemma_take_succ_push;
                    broadcast use Seq::<_>::lemma_filter_push;

                    assert(pred(orig[p as int]));
                    assert(orig.take(p as int + 1).filter(pred) == orig.take(p as int).filter(
                        pred,
                    ).push(orig[p as int]));
                    assert(func.vars@ =~= orig.take(p as int + 1).filter(pred) + orig.skip(
                        p as int + 1,
                    ));
                }
                i = i + 1;
            }
            p = p + 1;
        }
        proof {
            assert(orig.take(n as int) =~= orig);
            assert(orig.skip(n as int) =~= Seq::<_>::empty());
            assert(func.vars@ =~= orig.filter(pred));
        }
    }
}

/// Filtering a variable set keeps its names and ids unique.
pub proof fn lemma_filter_keeps_unique(s: Seq<Variable>, pred: spec_fn(Variable) -> bool)
    requires
        forall|i: int, j: int| 0 <= i < j < s.len() ==> s[i].name@ != s[j].name@,
        forall|i: int, j: int| 0 <= i < j < s.len() ==> s[i].id != s[j].id,
    ensures
        forall|i: int, j: int|
            0 <= i < j < s.filter(pred).len() ==> s.filter(pred)[i].name@ != s.filter(pred)[j].name@,
        forall|i: int, j: int|
            0 <= i < j < s.filter(pred).len() ==> s.filter(pred)[i].id != s.filter(pred)[j].id,
    decreases s.len(),
{
    reveal(Seq::filter);
    broadcast use vstd::seq_lib::group_filter_ensures;

    if s.len() > 0 {
        let butlast = s.drop_last();
        lemma_filter_keeps_unique(butlast, pred);
        let f = butlast.filter(pred);
        if pred(s.last()) {
            assert(s.filter(pred) == f.push(s.last()));
            assert forall|i: int, j: int|
                0 <= i < j < s.filter(pred).len() implies s.filter(pred)[i].name@ != s.filter(
                pred,
            )[j].name@ && s.filter(pred)[i].id != s.filter(pred)[j].id by {
                if j == s.filter(pred).len() - 1 {
                    // The slot at `i` holds an element of `butlast`, while the
                    // last slot holds `s.last()`, which differs from each of
                    // those elements.
                    assert(s.filter(pred)[i] == f[i]);
                    lemma_filter_element_of(butlast, pred, i);
                    let w = choose|w: int| 0 <= w < butlast.len() && butlast[w] == f[i];
                    assert(s[w] == butlast[w]);
                    assert(s[w].name@ != s[s.len() - 1].name@);
                    assert(s[w].id != s[s.len() - 1].id);
                } else {
                    assert(s.filter(pred)[i] == f[i] && s.filter(pred)[j] == f[j]);
                }
            }
        } else {
            assert(s.filter(pred) == f);
        }
    }
}

/// Every element of a filtered variable set appears in the original.
pub proof fn lemma_filter_element_of(s: Seq<Variable>, pred: spec_fn(Variable) -> bool, i: int)
    requires
        0 <= i < s.filter(pred).len(),
    ensures
        exists|j: int| 0 <= j < s.len() && s[j] == s.filter(pred)[i],
        pred(s.filter(pred)[i]),
    decreases s.len(),
{
    reveal(Seq::filter);
    broadcast use vstd::seq_lib::group_filter_ensures;

    if s.len() > 0 {
        let butlast = s.drop_last();
        let f = butlast.filter(pred);
        if pred(s.last()) && i == s.filter(pred).len() - 1 {
            assert(s[s.len() - 1] == s.filter(pred)[i]);
        } else {
            lemma_filter_element_of(butlast, pred, i);
            let j = choose|j: int| 0 <= j < butlast.len() && butlast[j] == f[i];
            assert(s[j] == s.filter(pred)[i]);
        }
    }
}

/// The scope-exit property: once a block closes, a variable whose id its
/// tracker recorded can no longer be resolved by name anywhere in the
/// function, even though the function itself stays open.
pub proof fn lemma_scope_exit_unresolvable(
    pre: FunctionEntry,
    post: FunctionEntry,
    tracker: ScopeManager,
    v: Variable,
)
    requires
        pre.wf(),
        pre.vars@.contains(v),
        tracker.ids@.contains(v.id),
        post.vars@ == tracker.drained(pre.vars@),
    ensures
        !has_var_named(post.vars@, v.name@),
{
    let pred = keep_pred(tracker.ids@);
    if has_var_named(post.vars@, v.name@) {
        let i = choose|i: int| 0 <= i < post.vars@.len() && post.vars@[i].name@ == v.name@;
        lemma_filter_element_of(pre.vars@, pred, i);
        let j = choose|j: int| 0 <= j < pre.vars@.len() && pre.vars@[j] == post.vars@[i];
        let k = choose|k: int| 0 <= k < pre.vars@.len() && pre.vars@[k] == v;
        // Names are unique function-wide, so the survivor at `j` is `v`
        // itself; but `v` was recorded by the tracker and cannot survive.
        assert(pre.vars@[j].name@ == pre.vars@[k].name@);
        assert(j == k);
        assert(pred(v));
        assert(false);
    }
}

} // verus!
