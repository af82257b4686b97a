//! The tracking state: which interfaces are checked and which of their
//! implementations some instance has been seen to use, and the walker
//! that grows it.
use vstd::prelude::*;
use crate::model::{
    DispatchEvent, Instance, Program, coercions_name, dispatch_names, instance_uses,
    instances_wf, some_instance_uses, trees_select,
};
use crate::policy::ScopePolicy;
use crate::proof_tree::{CandidateSource, ProofTree};

verus! {

/// One piece of usage evidence: an implementation that the solver chose on
/// a successful proof path, or one that a dispatch coercion names.
#[derive(Clone, Copy, Debug, PartialEq, Eq, Structural)]
pub enum Evidence {
    ProofCandidate(usize),
    DispatchEvent(usize),
}

impl Evidence {
    pub open spec fn implementation(self) -> usize {
        match self {
            Evidence::ProofCandidate(i) => i,
            Evidence::DispatchEvent(i) => i,
        }
    }
}

/// `checked[t]`: interface `t` is checked; `used[i]`: implementation `i` is
/// known to be used. Only implementations of checked interfaces are marked.
pub struct Registry {
    pub checked: Vec<bool>,
    pub used: Vec<bool>,
}

impl Registry {
    pub open spec fn wf(&self, prog: &Program) -> bool {
        &&& prog.wf()
        &&& self.checked@.len() == prog.interfaces@.len()
        &&& self.used@.len() == prog.impls@.len()
        &&& forall|i: int| 0 <= i < self.used@.len() && #[trigger] self.used@[i] ==> self.markable(prog, i)
    }

    /// Implementation `i` exists and its interface is checked.
    pub open spec fn markable(&self, prog: &Program, i: int) -> bool {
        0 <= i < prog.impls@.len() && self.checked@[prog.impls@[i].interface as int]
    }

    /// The tracking map: every eligible interface, none of its
    /// implementations used yet.
    pub fn initialize(prog: &Program, policy: &ScopePolicy) -> (r: Registry)
        requires
            prog.wf(),
            policy.valid(),
        ensures
            r.wf(prog),
            forall|t: int|
                0 <= t < prog.interfaces@.len() ==> r.checked@[t] == policy.checks(
                    prog.interfaces@[t],
                ),
            forall|i: int| 0 <= i < prog.impls@.len() ==> !r.used@[i],
    {
        let mut checked: Vec<bool> = Vec::new();
        let mut t: usize = 0;
        while t < prog.interfaces.len()
            invariant
                policy.valid(),
                t <= prog.interfaces@.len(),
                checked@.len() == t,
                forall|s: int| 0 <= s < t ==> checked@[s] == policy.checks(prog.interfaces@[s]),
            decreases prog.interfaces@.len() - t,
        {
            checked.push(policy.is_checked(&prog.interfaces[t]));
            t = t + 1;
        }
        let mut used: Vec<bool> = Vec::new();
        let mut i: usize = 0;
        while i < prog.impls.len()
            invariant
                i <= prog.impls@.len(),
                used@.len() == i,
                forall|j: int| 0 <= j < i ==> !used@[j],
            decreases prog.impls@.len() - i,
        {
            used.push(false);
            i = i + 1;
        }
        Registry { checked, used }
    }

    /// Marks implementation `i` used, where it exists and its interface is
    /// checked; anything else is ignored.
    pub fn mark_impl(&mut self, prog: &Program, i: usize)
        requires
            old(self).wf(prog),
        ensures
            final(self).wf(prog),
            final(self).checked@ == old(self).checked@,
            final(self).used@ == if old(self).markable(prog, i as int) {
                old(self).used@.update(i as int, true)
            } else {
                old(self).used@
            },
    {
        if i < prog.impls.len() {
            let t = prog.impls[i].interface;
            if self.checked[t] {
                self.used.set(i, true);
            }
        }
    }

    /// The usage sink: both kinds of evidence mark their implementation.
    pub fn record(&mut self, prog: &Program, ev: Evidence)
        requires
            old(self).wf(prog),
        ensures
            final(self).wf(prog),
            final(self).checked@ == old(self).checked@,
            final(self).used@ == if old(self).markable(prog, ev.implementation() as int) {
                old(self).used@.update(ev.implementation() as int, true)
            } else {
                old(self).used@
            },
    {
        match ev {
            Evidence::ProofCandidate(i) => self.mark_impl(prog, i),
            Evidence::DispatchEvent(i) => self.mark_impl(prog, i),
        }
    }

    /// Marks every implementation that the proof tree's successful path
    /// selects, at every depth.
    pub fn walk_proof_tree(&mut self, prog: &Program, tree: &ProofTree)
        requires
            old(self).wf(prog),
            tree.wf(),
        ensures
            final(self).wf(prog),
            final(self).checked@ == old(self).checked@,
            forall|i: int|
                0 <= i < final(self).used@.len() ==> #[trigger] final(self).used@[i] == (old(
                    self,
                ).used@[i] || (old(self).markable(prog, i) && tree.selects(i))),
    {
        let sel = tree.selected_impls();
        let mut k: usize = 0;
        while k < sel.len()
            invariant
                self.wf(prog),
                self.checked@ == old(self).checked@,
                k <= sel@.len(),
                forall|i: usize| sel@.contains(i) <==> tree.selects(i as int),
                forall|i: int|
                    0 <= i < self.used@.len() ==> #[trigger] self.used@[i] == (old(self).used@[i]
                        || (old(self).markable(prog, i) && exists|m: int|
                        0 <= m < k && sel@[m] == i)),
            decreases sel@.len() - k,
        {
            self.record(prog, Evidence::ProofCandidate(sel[k]));
            k = k + 1;
        }
        assert forall|i: int|
            0 <= i < self.used@.len() implies #[trigger] self.used@[i] == (old(self).used@[i] || (
            old(self).markable(prog, i) && tree.selects(i))) by {
            if tree.selects(i) {
                let (g, c) = choose|g: int, c: int|
                    #![trigger tree.cand(g, c), tree.reached(g)]
                    tree.reached(g) && tree.is_cand(g, c) && tree.cand(g, c).succeeded && tree.cand(
                        g,
                        c,
                    ).source.names(i);
                if let CandidateSource::Impl(j) = tree.cand(g, c).source {
                    assert(tree.selects(j as int));
                    assert(sel@.contains(j));
                    let m = choose|m: int| 0 <= m < sel@.len() && sel@[m] == j;
                    assert(sel@[m] == i);
                }
            }
            if exists|m: int| 0 <= m < k && sel@[m] == i {
                let m = choose|m: int| 0 <= m < k && sel@[m] == i;
                assert(sel@.contains(sel@[m]));
            }
        }
    }

    /// Marks the implementations that a dispatch coercion names, without
    /// going through the solver.
    pub fn walk_dispatch(&mut self, prog: &Program, e: DispatchEvent)
        requires
            old(self).wf(prog),
        ensures
            final(self).wf(prog),
            final(self).checked@ == old(self).checked@,
            forall|i: int|
                0 <= i < final(self).used@.len() ==> #[trigger] final(self).used@[i] == (old(
                    self,
                ).used@[i] || (old(self).markable(prog, i) && dispatch_names(prog, e, i))),
    {
        let mut j: usize = 0;
        while j < prog.impls.len()
            invariant
                self.wf(prog),
                self.checked@ == old(self).checked@,
                j <= prog.impls@.len(),
                forall|i: int|
                    0 <= i < self.used@.len() ==> #[trigger] self.used@[i] == (old(self).used@[i]
                        || (old(self).markable(prog, i) && i < j && dispatch_names(prog, e, i))),
            decreases prog.impls@.len() - j,
        {
            let imp = &prog.impls[j];
            if imp.interface == e.interface && imp.self_ty == e.source_ty {
                self.record(prog, Evidence::DispatchEvent(j));
            }
            j = j + 1;
        }
    }
    /// Walks every proof tree of the list.
    pub fn walk_proof_trees(&mut self, prog: &Program, trees: &Vec<ProofTree>)
        requires
            old(self).wf(prog),
            forall|k: int| 0 <= k < trees@.len() ==> #[trigger] trees@[k].wf(),
        ensures
            final(self).wf(prog),
            final(self).checked@ == old(self).checked@,
            forall|i: int|
                0 <= i < final(self).used@.len() ==> #[trigger] final(self).used@[i] == (old(
                    self,
                ).used@[i] || (old(self).markable(prog, i) && trees_select(trees@, i))),
    {
        let mut k: usize = 0;
        while k < trees.len()
            invariant
                self.wf(prog),
                self.checked@ == old(self).checked@,
                k <= trees@.len(),
                forall|m: int| 0 <= m < trees@.len() ==> #[trigger] trees@[m].wf(),
                forall|i: int|
                    0 <= i < self.used@.len() ==> #[trigger] self.used@[i] == (old(self).used@[i]
                        || (old(self).markable(prog, i) && trees_select(trees@.take(k as int), i))),
            decreases trees@.len() - k,
        {
            let ghost before = self.used@;
            self.walk_proof_tree(prog, &trees[k]);
            assert forall|i: int|
                0 <= i < self.used@.len() implies #[trigger] self.used@[i] == (old(self).used@[i]
                || (old(self).markable(prog, i) && trees_select(trees@.take(k + 1), i))) by {
                assert(trees@.take(k + 1)[k as int] == trees@[k as int]);
                if trees_select(trees@.take(k + 1), i) && !trees@[k as int].selects(i) {
                    let m = choose|m: int| 0 <= m < k + 1 && #[trigger] trees@.take(k + 1)[m].selects(i);
                    assert(trees@.take(k as int)[m] == trees@[m]);
                }
                if trees_select(trees@.take(k as int), i) {
                    let m = choose|m: int| 0 <= m < k && #[trigger] trees@.take(k as int)[m].selects(i);
                    assert(trees@.take(k + 1)[m] == trees@[m]);
                }
            }
            k = k + 1;
        }
        assert(trees@.take(k as int) =~= trees@);
    }

    /// Walks every coercion of the list.
    pub fn walk_coercions(&mut self, prog: &Program, es: &Vec<DispatchEvent>)
        requires
            old(self).wf(prog),
        ensures
            final(self).wf(prog),
            final(self).checked@ == old(self).checked@,
            forall|i: int|
                0 <= i < final(self).used@.len() ==> #[trigger] final(self).used@[i] == (old(
                    self,
                ).used@[i] || (old(self).markable(prog, i) && coercions_name(prog, es@, i))),
    {
        let mut k: usize = 0;
        while k < es.len()
            invariant
                self.wf(prog),
                self.checked@ == old(self).checked@,
                k <= es@.len(),
                forall|i: int|
                    0 <= i < self.used@.len() ==> #[trigger] self.used@[i] == (old(self).used@[i]
                        || (old(self).markable(prog, i) && coercions_name(prog, es@.take(k as int), i))),
            decreases es@.len() - k,
        {
            self.walk_dispatch(prog, es[k]);
            assert forall|i: int|
                0 <= i < self.used@.len() implies #[trigger] self.used@[i] == (old(self).used@[i]
                || (old(self).markable(prog, i) && coercions_name(prog, es@.take(k + 1), i))) by {
                assert(es@.take(k + 1)[k as int] == es@[k as int]);
                if coercions_name(prog, es@.take(k + 1), i) && !dispatch_names(prog, es@[k as int], i) {
                    let m = choose|m: int| 0 <= m < k + 1 && dispatch_names(prog, #[trigger] es@.take(k + 1)[m], i);
                    assert(es@.take(k as int)[m] == es@[m]);
                }
                if coercions_name(prog, es@.take(k as int), i) {
                    let m = choose|m: int| 0 <= m < k && dispatch_names(prog, #[trigger] es@.take(k as int)[m], i);
                    assert(es@.take(k + 1)[m] == es@[m]);
                }
            }
            k = k + 1;
        }
        assert(es@.take(k as int) =~= es@);
    }

    /// Collects the evidence of one instance: the implementation that
    /// encloses it, the trees of its bounds and of its associated-item
    /// references, and its dispatch coercions. An instance without a body
    /// is skipped.
    pub fn walk_instance(&mut self, prog: &Program, inst: &Instance)
        requires
            old(self).wf(prog),
            inst.wf(),
        ensures
            final(self).wf(prog),
            final(self).checked@ == old(self).checked@,
            forall|i: int|
                0 <= i < final(self).used@.len() ==> #[trigger] final(self).used@[i] == (old(
                    self,
                ).used@[i] || (old(self).markable(prog, i) && instance_uses(prog, inst, i))),
    {
        match &inst.body {
            None => {},
            Some(body) => {
                if let Some(i) = inst.enclosing_impl {
                    self.mark_impl(prog, i);
                }
                self.walk_proof_trees(prog, &inst.bounds);
                self.walk_proof_trees(prog, &body.assoc_refs);
                self.walk_coercions(prog, &body.coercions);
            },
        }
    }

    /// Collects the evidence of every instance, in order.
    pub fn walk_instances(&mut self, prog: &Program, insts: &Vec<Instance>)
        requires
            old(self).wf(prog),
            instances_wf(insts@),
        ensures
            final(self).wf(prog),
            final(self).checked@ == old(self).checked@,
            forall|i: int|
                0 <= i < final(self).used@.len() ==> #[trigger] final(self).used@[i] == (old(
                    self,
                ).used@[i] || (old(self).markable(prog, i) && some_instance_uses(prog, insts@, i))),
    {
        let mut k: usize = 0;
        while k < insts.len()
            invariant
                self.wf(prog),
                self.checked@ == old(self).checked@,
                k <= insts@.len(),
                instances_wf(insts@),
                forall|i: int|
                    0 <= i < self.used@.len() ==> #[trigger] self.used@[i] == (old(self).used@[i]
                        || (old(self).markable(prog, i) && some_instance_uses(
                        prog,
                        insts@.take(k as int),
                        i,
                    ))),
            decreases insts@.len() - k,
        {
            assert(insts@[k as int].wf());
            self.walk_instance(prog, &insts[k]);
            assert forall|i: int|
                0 <= i < self.used@.len() implies #[trigger] self.used@[i] == (old(self).used@[i]
                || (old(self).markable(prog, i) && some_instance_uses(prog, insts@.take(k + 1), i))) by {
                assert(insts@.take(k + 1)[k as int] == insts@[k as int]);
                if some_instance_uses(prog, insts@.take(k + 1), i) && !instance_uses(prog, &insts@[k as int], i) {
                    let m = choose|m: int| #![trigger insts@.take(k + 1)[m]] 0 <= m < k + 1 && instance_uses(prog, &insts@.take(k + 1)[m], i);
                    assert(insts@.take(k as int)[m] == insts@[m]);
                }
                if some_instance_uses(prog, insts@.take(k as int), i) {
                    let m = choose|m: int| #![trigger insts@.take(k as int)[m]] 0 <= m < k && instance_uses(prog, &insts@.take(k as int)[m], i);
                    assert(insts@.take(k + 1)[m] == insts@[m]);
                }
            }
            k = k + 1;
        }
        assert(insts@.take(k as int) =~= insts@);
    }
}

} // verus!
