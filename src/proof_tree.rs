//! The constraint solver's proof tree for one obligation, flattened into
//! an arena of goals, and the implementations that its successful proof
//! path selects.
use vstd::prelude::*;

verus! {

/// Where a solver candidate takes its proof from.
#[derive(Clone, Copy, Debug, PartialEq, Eq, Structural)]
pub enum CandidateSource {
    /// A specific implementation, by its index in the program.
    Impl(usize),
    /// Anything else: a where-clause, a built-in rule, an alias bound.
    Other,
}

impl CandidateSource {
    /// The source is implementation `i`.
    pub open spec fn names(self, i: int) -> bool {
        match self {
            CandidateSource::Impl(j) => j == i,
            CandidateSource::Other => false,
        }
    }
}

/// One way the solver tried to prove a goal.
pub struct Candidate {
    pub succeeded: bool,
    pub source: CandidateSource,
    /// Indices, in the tree's goal list, of the sub-goals this candidate
    /// had to prove.
    pub nested: Vec<usize>,
}

/// A goal with the ordered list of candidates explored for it.
pub struct GoalNode {
    pub candidates: Vec<Candidate>,
}

/// A proof tree: `goals[0]` is the obligation itself, and every nested
/// sub-goal index is greater than the index of the goal that holds it.
pub struct ProofTree {
    pub goals: Vec<GoalNode>,
}

impl ProofTree {
    pub open spec fn cand(&self, g: int, c: int) -> Candidate {
        self.goals@[g].candidates@[c]
    }

    pub open spec fn is_cand(&self, g: int, c: int) -> bool {
        0 <= g < self.goals@.len() && 0 <= c < self.goals@[g].candidates@.len()
    }

    /// Nested indices point forward and stay inside the goal list.
    pub open spec fn wf(&self) -> bool {
        forall|g: int, c: int, k: int|
            #![trigger self.cand(g, c).nested@[k]]
            self.is_cand(g, c) && 0 <= k < self.cand(g, c).nested@.len() ==> g
                < self.cand(g, c).nested@[k] < self.goals@.len()
    }

    /// `s` holds the root and, with each goal, the sub-goals of that
    /// goal's successful candidates.
    pub open spec fn closed(&self, s: Set<int>) -> bool {
        (self.goals@.len() > 0 ==> s.contains(0)) && forall|g: int, c: int, k: int|
            #![trigger s.contains(g), self.cand(g, c).nested@[k]]
            s.contains(g) && self.is_cand(g, c) && self.cand(g, c).succeeded && 0 <= k
                < self.cand(g, c).nested@.len() ==> s.contains(self.cand(g, c).nested@[k] as int)
    }

    /// Goal `g` lies on a successful proof path: it is the root, or a
    /// sub-goal of a successful candidate of such a goal (the least set
    /// closed under that step).
    pub open spec fn reached(&self, g: int) -> bool {
        0 <= g < self.goals@.len() && forall|s: Set<int>| #[trigger] self.closed(s) ==> s.contains(g)
    }

    /// Implementation `i` is the source of a successful candidate of a goal
    /// on a successful proof path, at any depth.
    pub open spec fn selects(&self, i: int) -> bool {
        exists|g: int, c: int|
            #![trigger self.cand(g, c), self.reached(g)]
            self.reached(g) && self.is_cand(g, c) && self.cand(g, c).succeeded && self.cand(
                g,
                c,
            ).source.names(i)
    }
    /// The root of a non-empty tree is on the path.
    pub proof fn lemma_root_reached(&self)
        requires
            self.goals@.len() > 0,
        ensures
            self.reached(0),
    {
        assert forall|s: Set<int>| #[trigger] self.closed(s) implies s.contains(0) by {}
    }

    /// A sub-goal of a successful candidate of a goal on the path is on it.
    pub proof fn lemma_child_reached(&self, g: int, c: int, k: int)
        requires
            self.wf(),
            self.reached(g),
            self.is_cand(g, c),
            self.cand(g, c).succeeded,
            0 <= k < self.cand(g, c).nested@.len(),
        ensures
            self.reached(self.cand(g, c).nested@[k] as int),
    {
        assert forall|s: Set<int>| #[trigger] self.closed(s) implies s.contains(
            self.cand(g, c).nested@[k] as int,
        ) by {
            assert(s.contains(g));
        }
    }

    /// Where every goal before `g` that `v` marks has had its sub-goals
    /// marked, `v` marks `g` if it is on the path.
    proof fn lemma_marked_reaches(&self, v: Seq<bool>, g: int)
        requires
            self.wf(),
            v.len() == self.goals@.len(),
            v.len() > 0 ==> v[0],
            forall|h: int| 0 <= h < v.len() && #[trigger] v[h] ==> self.reached(h),
            self.marked_before(v, g, 0),
            self.reached(g),
        ensures
            v[g],
    {
        let s = Set::new(|h: int| (0 <= h < v.len() && v[h]) || h > g);
        assert forall|p: int, d: int, k: int|
            #![trigger s.contains(p), self.cand(p, d).nested@[k]]
            s.contains(p) && self.is_cand(p, d) && self.cand(p, d).succeeded && 0 <= k
                < self.cand(p, d).nested@.len() implies s.contains(
            self.cand(p, d).nested@[k] as int,
        ) by {
            if p < g {
                assert(self.reached(p));
            }
        }
        assert(self.closed(s));
    }

    /// Every sub-goal of successful candidates of goals before `g` (and,
    /// in goal `g`, of candidates before `c`) is marked in `v`.
    pub open spec fn marked_before(&self, v: Seq<bool>, g: int, c: int) -> bool {
        forall|p: int, d: int, k: int|
            #![trigger self.cand(p, d).nested@[k]]
            self.is_cand(p, d) && (p < g || (p == g && d < c)) && self.reached(p) && self.cand(
                p,
                d,
            ).succeeded && 0 <= k < self.cand(p, d).nested@.len() ==> v[self.cand(
                p,
                d,
            ).nested@[k] as int]
    }

    /// The implementations that the tree's successful proof path selects,
    /// found by one sweep over the goals in index order.
    pub fn selected_impls(&self) -> (r: Vec<usize>)
        requires
            self.wf(),
        ensures
            forall|i: usize| r@.contains(i) <==> self.selects(i as int),
    {
        let n = self.goals.len();
        let mut on_path: Vec<bool> = Vec::new();
        let mut j: usize = 0;
        while j < n
            invariant
                j <= n == self.goals@.len(),
                on_path@.len() == j,
                forall|h: int| 0 <= h < j ==> on_path@[h] == (h == 0),
            decreases n - j,
        {
            on_path.push(j == 0);
            j = j + 1;
        }
        let mut out: Vec<usize> = Vec::new();
        let mut g: usize = 0;
        while g < n
            invariant
                self.wf(),
                g <= n == self.goals@.len(),
                on_path@.len() == n,
                n > 0 ==> on_path@[0],
                forall|h: int| 0 <= h < n && #[trigger] on_path@[h] ==> self.reached(h),
                self.marked_before(on_path@, g as int, 0),
                forall|i: usize|
                    out@.contains(i) <==> exists|q: int, d: int|
                        #![trigger self.cand(q, d), self.reached(q)]
                        q < g && self.reached(q) && self.is_cand(q, d) && self.cand(q, d).succeeded
                            && self.cand(q, d).source == CandidateSource::Impl(i),
            decreases n - g,
        {
            proof {
                if self.reached(g as int) {
                    self.lemma_marked_reaches(on_path@, g as int);
                }
            }
            if on_path[g] {
                self.sweep_goal(g, &mut on_path, &mut out);
            }
            proof {
                assert forall|i: usize|
                    out@.contains(i) <==> exists|q: int, d: int|
                        #![trigger self.cand(q, d), self.reached(q)]
                        q < g + 1 && self.reached(q) && self.is_cand(q, d) && self.cand(
                            q,
                            d,
                        ).succeeded && self.cand(q, d).source == CandidateSource::Impl(i) by {
                    if !self.reached(g as int) {
                        if exists|q: int, d: int|
                            #![trigger self.cand(q, d), self.reached(q)]
                            q < g + 1 && self.reached(q) && self.is_cand(q, d) && self.cand(
                                q,
                                d,
                            ).succeeded && self.cand(q, d).source == CandidateSource::Impl(i) {
                            let (q, d) = choose|q: int, d: int|
                                #![trigger self.cand(q, d), self.reached(q)]
                                q < g + 1 && self.reached(q) && self.is_cand(q, d) && self.cand(
                                    q,
                                    d,
                                ).succeeded && self.cand(q, d).source == CandidateSource::Impl(
                                    i,
                                );
                            assert(q < g);
                        }
                    }
                }
                assert forall|p: int, d: int, k: int|
                    #![trigger self.cand(p, d).nested@[k]]
                    self.is_cand(p, d) && (p < g + 1 || (p == g + 1 && d < 0)) && self.reached(p)
                        && self.cand(p, d).succeeded && 0 <= k < self.cand(p, d).nested@.len()
                    implies on_path@[self.cand(p, d).nested@[k] as int] by {
                    if p == g && !self.reached(g as int) {
                    }
                }
            }
            g = g + 1;
        }
        proof {
            assert forall|i: usize| out@.contains(i) <==> self.selects(i as int) by {
                if self.selects(i as int) {
                    let (q, d) = choose|q: int, d: int|
                        #![trigger self.cand(q, d), self.reached(q)]
                        self.reached(q) && self.is_cand(q, d) && self.cand(q, d).succeeded
                            && self.cand(q, d).source == CandidateSource::Impl(i);
                    assert(q < g);
                }
            }
        }
        out
    }

    /// Visits the candidates of goal `g`, which lies on the proof path.
    fn sweep_goal(&self, g: usize, on_path: &mut Vec<bool>, out: &mut Vec<usize>)
        requires
            self.wf(),
            g < self.goals@.len(),
            self.reached(g as int),
            old(on_path)@.len() == self.goals@.len(),
            self.goals@.len() > 0 ==> old(on_path)@[0],
            forall|h: int|
                0 <= h < self.goals@.len() && #[trigger] old(on_path)@[h] ==> self.reached(h),
            self.marked_before(old(on_path)@, g as int, 0),
        ensures
            final(on_path)@.len() == self.goals@.len(),
            final(on_path)@[0],
            forall|h: int|
                0 <= h < self.goals@.len() && #[trigger] final(on_path)@[h] ==> self.reached(h),
            forall|h: int| 0 <= h < self.goals@.len() && old(on_path)@[h] ==> final(on_path)@[h],
            self.marked_before(final(on_path)@, g as int + 1, 0),
            forall|i: usize|
                final(out)@.contains(i) <==> (old(out)@.contains(i) || exists|d: int|
                    #![trigger self.cand(g as int, d)]
                    self.is_cand(g as int, d) && self.cand(g as int, d).succeeded && self.cand(
                        g as int,
                        d,
                    ).source == CandidateSource::Impl(i)),
    {
        let ghost out0 = out@;
        let cands = &self.goals[g].candidates;
        let mut c: usize = 0;
        while c < cands.len()
            invariant
                self.wf(),
                g < self.goals@.len(),
                self.reached(g as int),
                cands@ == self.goals@[g as int].candidates@,
                c <= cands@.len(),
                on_path@.len() == self.goals@.len(),
                on_path@[0],
                forall|h: int|
                    0 <= h < self.goals@.len() && #[trigger] on_path@[h] ==> self.reached(h),
                forall|h: int|
                    0 <= h < self.goals@.len() && old(on_path)@[h] ==> on_path@[h],
                self.marked_before(on_path@, g as int, c as int),
                forall|i: usize|
                    #[trigger] out@.contains(i) <==> (out0.contains(i) || exists|d: int|
                        #![trigger self.cand(g as int, d)]
                        0 <= d < c && self.cand(g as int, d).succeeded && self.cand(
                            g as int,
                            d,
                        ).source == CandidateSource::Impl(i)),
            decreases cands@.len() - c,
        {
            let cand = &cands[c];
            assert(*cand == self.cand(g as int, c as int));
            let ghost before_c = out@;
            if cand.succeeded {
                let mut k: usize = 0;
                while k < cand.nested.len()
                    invariant
                        self.wf(),
                        g < self.goals@.len(),
                        self.reached(g as int),
                        cands@ == self.goals@[g as int].candidates@,
                        c < cands@.len(),
                        *cand == self.cand(g as int, c as int),
                        cand.succeeded,
                        k <= cand.nested@.len(),
                        on_path@.len() == self.goals@.len(),
                        on_path@[0],
                        forall|h: int|
                            0 <= h < self.goals@.len() && #[trigger] on_path@[h] ==> self.reached(
                                h,
                            ),
                        forall|h: int|
                            0 <= h < self.goals@.len() && old(on_path)@[h] ==> on_path@[h],
                        self.marked_before(on_path@, g as int, c as int),
                        forall|m: int| 0 <= m < k ==> on_path@[cand.nested@[m] as int],
                        out@ == before_c,
                    decreases cand.nested@.len() - k,
                {
                    let h = cand.nested[k];
                    assert(g < h < self.goals@.len()) by {
                        assert(self.cand(g as int, c as int).nested@[k as int] == h);
                    }
                    proof {
                        self.lemma_child_reached(g as int, c as int, k as int);
                    }
                    on_path.set(h, true);
                    k = k + 1;
                }
                if let CandidateSource::Impl(i) = cand.source {
                    let ghost before = out@;
                    out.push(i);
                    proof {
                        assert forall|x: usize| out@.contains(x) <==> (before.contains(x) || x == i) by {
                            if out@.contains(x) && x != i {
                                let j = choose|j: int| 0 <= j < out@.len() && out@[j] == x;
                                assert(before[j] == x);
                            }
                            if before.contains(x) {
                                let j = choose|j: int| 0 <= j < before.len() && before[j] == x;
                                assert(out@[j] == x);
                            }
                            if x == i {
                                assert(out@[before.len() as int] == x);
                            }
                        }
                    }
                }
            }
            assert forall|x: usize|
                out@.contains(x) <==> (before_c.contains(x) || (cand.succeeded && cand.source
                    == CandidateSource::Impl(x))) by {}
            assert forall|i: usize|
                #[trigger] out@.contains(i) <==> (out0.contains(i) || exists|d: int|
                    #![trigger self.cand(g as int, d)]
                    0 <= d < c + 1 && self.cand(g as int, d).succeeded && self.cand(
                        g as int,
                        d,
                    ).source == CandidateSource::Impl(i)) by {
                assert(before_c.contains(i) <==> (out0.contains(i) || exists|d: int|
                    #![trigger self.cand(g as int, d)]
                    0 <= d < c && self.cand(g as int, d).succeeded && self.cand(
                        g as int,
                        d,
                    ).source == CandidateSource::Impl(i)));
                if cand.succeeded && cand.source == CandidateSource::Impl(i) {
                    assert(self.cand(g as int, c as int).succeeded);
                }
            }
            c = c + 1;
        }
    }
}

} // verus!
