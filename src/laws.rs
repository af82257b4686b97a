//! Laws of the whole pass, stated over its specification.
use vstd::prelude::*;
use crate::model::{Instance, Program, dispatch_names, instance_uses, some_instance_uses};
use crate::policy::ScopePolicy;
use crate::proof_tree::ProofTree;
use crate::report::{reportable, reported_upto, unused_impls, used_after};

verus! {

/// An implementation is among the first `n` reported exactly when it comes
/// before `n` and is reportable.
pub proof fn lemma_reported_contains(
    prog: &Program,
    policy: &ScopePolicy,
    used: Seq<bool>,
    n: int,
    i: usize,
)
    requires
        0 <= n <= usize::MAX + 1,
    ensures
        reported_upto(prog, policy, used, n).contains(i) <==> (i < n && reportable(
            prog,
            policy,
            used,
            i as int,
        )),
    decreases n,
{
    if n > 0 {
        lemma_reported_contains(prog, policy, used, n - 1, i);
        let prev = reported_upto(prog, policy, used, n - 1);
        if reportable(prog, policy, used, n - 1) {
            let cur = prev.push((n - 1) as usize);
            assert(cur.last() == (n - 1) as usize);
            if cur.contains(i) && !prev.contains(i) {
                let j = choose|j: int| 0 <= j < cur.len() && cur[j] == i;
                assert(j == prev.len());
            }
            if prev.contains(i) {
                let j = choose|j: int| 0 <= j < prev.len() && prev[j] == i;
                assert(cur[j] == i);
            }
            if i == n - 1 {
                assert(cur[prev.len() as int] == i);
            }
        }
    }
}

/// An implementation that some instance uses is never reported.
pub proof fn lemma_used_is_not_reported(
    prog: &Program,
    policy: &ScopePolicy,
    insts: Seq<Instance>,
    k: int,
    a: usize,
)
    requires
        prog.impls@.len() <= usize::MAX,
        0 <= k < insts.len(),
        a < prog.impls@.len(),
        instance_uses(prog, &insts[k], a as int),
    ensures
        policy.checks(prog.interface_of(a as int)) ==> used_after(prog, policy, insts)[a as int],
        !unused_impls(prog, policy, insts).contains(a),
{
    assert(some_instance_uses(prog, insts, a as int));
    lemma_reported_contains(
        prog,
        policy,
        used_after(prog, policy, insts),
        prog.impls@.len() as int,
        a,
    );
}

/// Of two implementations of one interface, the one that some instance uses
/// is not reported, and the one that none uses is, where its interface is
/// checked and its unit selected.
pub proof fn lemma_unreferenced_is_reported(
    prog: &Program,
    policy: &ScopePolicy,
    insts: Seq<Instance>,
    a: usize,
    b: usize,
)
    requires
        prog.wf(),
        prog.impls@.len() <= usize::MAX,
        a < prog.impls@.len(),
        b < prog.impls@.len(),
        prog.impls@[a as int].interface == prog.impls@[b as int].interface,
        policy.checks(prog.interface_of(b as int)),
        policy.sources(prog.impls@[b as int]),
        some_instance_uses(prog, insts, a as int),
        !some_instance_uses(prog, insts, b as int),
    ensures
        unused_impls(prog, policy, insts).contains(b),
        !unused_impls(prog, policy, insts).contains(a),
{
    let k = choose|k: int| #![trigger insts[k]] 0 <= k < insts.len() && instance_uses(prog, &insts[k], a as int);
    lemma_used_is_not_reported(prog, policy, insts, k, a);
    lemma_reported_contains(
        prog,
        policy,
        used_after(prog, policy, insts),
        prog.impls@.len() as int,
        b,
    );
}

/// Referencing an associated constant whose obligation the solver proves
/// through implementation `a` marks `a` used, with no method call anywhere.
pub proof fn lemma_assoc_const_marks(
    prog: &Program,
    policy: &ScopePolicy,
    insts: Seq<Instance>,
    k: int,
    r: int,
    c: int,
    a: usize,
)
    requires
        prog.impls@.len() <= usize::MAX,
        0 <= k < insts.len(),
        a < prog.impls@.len(),
        insts[k].body is Some,
        0 <= r < insts[k].body.unwrap().assoc_refs@.len(),
        insts[k].body.unwrap().assoc_refs@[r].is_cand(0, c),
        insts[k].body.unwrap().assoc_refs@[r].cand(0, c).succeeded,
        insts[k].body.unwrap().assoc_refs@[r].cand(0, c).source.names(a as int),
    ensures
        policy.checks(prog.interface_of(a as int)) ==> used_after(prog, policy, insts)[a as int],
        !unused_impls(prog, policy, insts).contains(a),
{
    let tree = insts[k].body.unwrap().assoc_refs@[r];
    tree.lemma_root_reached();
    assert(tree.selects(a as int));
    lemma_used_is_not_reported(prog, policy, insts, k, a);
}

/// Coercing a value of a concrete type into a handle of an interface marks
/// the type's implementation of it used, without any obligation.
pub proof fn lemma_dispatch_marks(
    prog: &Program,
    policy: &ScopePolicy,
    insts: Seq<Instance>,
    k: int,
    r: int,
    a: usize,
)
    requires
        prog.impls@.len() <= usize::MAX,
        0 <= k < insts.len(),
        a < prog.impls@.len(),
        insts[k].body is Some,
        0 <= r < insts[k].body.unwrap().coercions@.len(),
        dispatch_names(prog, insts[k].body.unwrap().coercions@[r], a as int),
    ensures
        policy.checks(prog.interface_of(a as int)) ==> used_after(prog, policy, insts)[a as int],
        !unused_impls(prog, policy, insts).contains(a),
{
    lemma_used_is_not_reported(prog, policy, insts, k, a);
}

/// An implementation that the solver selects only for a sub-goal of a
/// successful candidate of an instance's bound (through a blanket
/// implementation or a supertrait, say) is marked used too.
pub proof fn lemma_nested_selection_marks(
    prog: &Program,
    policy: &ScopePolicy,
    insts: Seq<Instance>,
    k: int,
    r: int,
    c: int,
    m: int,
    d: int,
    a: usize,
)
    requires
        prog.impls@.len() <= usize::MAX,
        0 <= k < insts.len(),
        a < prog.impls@.len(),
        insts[k].body is Some,
        0 <= r < insts[k].bounds@.len(),
        insts[k].bounds@[r].wf(),
        insts[k].bounds@[r].is_cand(0, c),
        insts[k].bounds@[r].cand(0, c).succeeded,
        0 <= m < insts[k].bounds@[r].cand(0, c).nested@.len(),
        insts[k].bounds@[r].is_cand(insts[k].bounds@[r].cand(0, c).nested@[m] as int, d),
        insts[k].bounds@[r].cand(insts[k].bounds@[r].cand(0, c).nested@[m] as int, d).succeeded,
        insts[k].bounds@[r].cand(
            insts[k].bounds@[r].cand(0, c).nested@[m] as int,
            d,
        ).source.names(a as int),
    ensures
        policy.checks(prog.interface_of(a as int)) ==> used_after(prog, policy, insts)[a as int],
        !unused_impls(prog, policy, insts).contains(a),
{
    let tree: ProofTree = insts[k].bounds@[r];
    tree.lemma_root_reached();
    tree.lemma_child_reached(0, c, m);
    let h = tree.cand(0, c).nested@[m] as int;
    assert(tree.reached(h) && tree.is_cand(h, d) && tree.cand(h, d).succeeded);
    assert(tree.selects(a as int));
    lemma_used_is_not_reported(prog, policy, insts, k, a);
}

/// Walking the same instances a second time changes nothing: the pass
/// reports the same implementations, and so the same spans.
pub proof fn lemma_rerun_reports_same(prog: &Program, policy: &ScopePolicy, insts: Seq<Instance>)
    ensures
        unused_impls(prog, policy, insts + insts) == unused_impls(prog, policy, insts),
{
    let twice = insts + insts;
    assert forall|i: int| 0 <= i < prog.impls@.len() implies some_instance_uses(prog, twice, i)
        == some_instance_uses(prog, insts, i) by {
        if some_instance_uses(prog, twice, i) {
            let k = choose|k: int| #![trigger twice[k]] 0 <= k < twice.len() && instance_uses(prog, &twice[k], i);
            if k < insts.len() {
                assert(twice[k] == insts[k]);
            } else {
                assert(twice[k] == insts[k - insts.len()]);
            }
        }
        if some_instance_uses(prog, insts, i) {
            let k = choose|k: int| #![trigger insts[k]] 0 <= k < insts.len() && instance_uses(prog, &insts[k], i);
            assert(twice[k] == insts[k]);
        }
    }
    assert(used_after(prog, policy, twice) =~= used_after(prog, policy, insts));
}

} // verus!
