use redetect::model::{Body, DispatchEvent, Implementation, Instance, Interface, Program, Span};
use redetect::pattern::{anchor, matches_whole};
use redetect::policy::{ConfigError, Route, ScopePolicy};
use redetect::proof_tree::{Candidate, CandidateSource, GoalNode, ProofTree};
use redetect::registry::{Evidence, Registry};
use redetect::report::{analyze, unused_text, Finding};

const TY_A: u64 = 1;
const TY_B: u64 = 2;

fn iface(name: &str) -> Interface {
    Interface { name: name.to_string(), local: true, exported: true }
}

fn imp(interface: usize, ty: u64, ty_name: &str, unit: &str, local: bool, lo: u32) -> Implementation {
    Implementation {
        interface,
        self_ty: ty,
        self_ty_name: ty_name.to_string(),
        unit: unit.to_string(),
        local,
        span: Span { lo, hi: lo + 10 },
    }
}

/// `Trait` implemented for `A` (impl 0) and `B` (impl 1), in the unit `app`.
fn two_impls() -> Program {
    Program {
        interfaces: vec![iface("Trait")],
        impls: vec![imp(0, TY_A, "A", "app", true, 100), imp(0, TY_B, "B", "app", true, 200)],
    }
}

fn cand(succeeded: bool, source: CandidateSource, nested: Vec<usize>) -> Candidate {
    Candidate { succeeded, source, nested }
}

/// A tree whose root is proved by one candidate.
fn leaf(source: CandidateSource) -> ProofTree {
    ProofTree { goals: vec![GoalNode { candidates: vec![cand(true, source, vec![])] }] }
}

fn instance(bounds: Vec<ProofTree>, assoc_refs: Vec<ProofTree>, coercions: Vec<DispatchEvent>) -> Instance {
    Instance { enclosing_impl: None, bounds, body: Some(Body { assoc_refs, coercions }) }
}

fn reported(fs: &[Finding]) -> Vec<usize> {
    fs.iter().map(|f| f.implementation).collect()
}

fn run(prog: &Program, policy: &ScopePolicy, insts: &Vec<Instance>) -> Vec<Finding> {
    analyze(prog, policy, insts).unwrap()
}

#[test]
fn generic_instantiation_at_a_reports_only_b() {
    let prog = two_impls();
    // `fn f<T: Trait>` instantiated at `A`: its bound is proved by impl 0.
    let insts = vec![instance(vec![leaf(CandidateSource::Impl(0))], vec![], vec![])];
    let fs = run(&prog, &ScopePolicy::Local, &insts);
    assert_eq!(reported(&fs), vec![1]);
    assert_eq!(fs[0].message, "implementation of Trait for B is unused");
    assert_eq!(fs[0].span, Span { lo: 200, hi: 210 });
    assert_eq!(fs[0].route, Route::UnitLint);
}

#[test]
fn dispatch_from_a_reports_only_b() {
    let prog = two_impls();
    // `&A as &dyn Trait`, no obligation anywhere.
    let insts = vec![instance(vec![], vec![], vec![DispatchEvent { source_ty: TY_A, interface: 0 }])];
    let fs = run(&prog, &ScopePolicy::Local, &insts);
    assert_eq!(reported(&fs), vec![1]);
    assert_eq!(fs[0].message, "implementation of Trait for B is unused");
}

#[test]
fn workspace_mode_reports_dependency_impl() {
    // Interface and both impls live in the dependency unit `dep`.
    let prog = Program {
        interfaces: vec![Interface { name: "Trait".to_string(), local: false, exported: true }],
        impls: vec![imp(0, TY_A, "A", "dep", false, 10), imp(0, TY_B, "B", "dep", false, 20)],
    };
    let insts = vec![instance(vec![leaf(CandidateSource::Impl(1))], vec![], vec![])];
    let policy = ScopePolicy::Workspace {
        interface_pattern: "Tr.*".to_string(),
        unit_pattern: "dep|other".to_string(),
    };
    let fs = run(&prog, &policy, &insts);
    assert_eq!(reported(&fs), vec![0]);
    assert_eq!(fs[0].span, Span { lo: 10, hi: 20 });
    assert_eq!(fs[0].route, Route::DefaultWarn);
    assert_eq!(fs[0].message, "implementation of Trait for A is unused");
    // The local mode ignores a foreign interface.
    assert!(run(&prog, &ScopePolicy::Local, &insts).is_empty());
}

#[test]
fn workspace_mode_respects_unit_filter() {
    let prog = Program {
        interfaces: vec![Interface { name: "Trait".to_string(), local: false, exported: true }],
        impls: vec![imp(0, TY_A, "A", "dep", false, 10), imp(0, TY_B, "B", "other_dep", false, 20)],
    };
    let policy = ScopePolicy::Workspace {
        interface_pattern: "Trait".to_string(),
        unit_pattern: "dep".to_string(),
    };
    // `dep` must match the whole unit name, so `other_dep` is left out.
    assert_eq!(reported(&run(&prog, &policy, &vec![])), vec![0]);
}

#[test]
fn workspace_mode_interface_name_matches_whole() {
    let prog = Program {
        interfaces: vec![iface("Trait"), iface("Tr")],
        impls: vec![imp(0, TY_A, "A", "app", true, 1), imp(1, TY_A, "A", "app", true, 2)],
    };
    let policy = ScopePolicy::Workspace {
        interface_pattern: "Tr".to_string(),
        unit_pattern: "app".to_string(),
    };
    assert_eq!(reported(&run(&prog, &policy, &vec![])), vec![1]);
}

#[test]
fn unreferenced_impl_is_reported() {
    let prog = two_impls();
    let insts = vec![instance(vec![leaf(CandidateSource::Impl(1))], vec![], vec![])];
    assert_eq!(reported(&run(&prog, &ScopePolicy::Local, &insts)), vec![0]);
}

#[test]
fn no_instances_reports_every_impl() {
    let prog = two_impls();
    assert_eq!(reported(&run(&prog, &ScopePolicy::Local, &vec![])), vec![0, 1]);
}

#[test]
fn empty_program_reports_nothing() {
    let prog = Program { interfaces: vec![], impls: vec![] };
    assert!(run(&prog, &ScopePolicy::Local, &vec![]).is_empty());
}

#[test]
fn assoc_const_reference_counts_as_usage() {
    let prog = two_impls();
    // `<A as Trait>::CONST`: an associated-item obligation proved by impl 0.
    let insts = vec![instance(vec![], vec![leaf(CandidateSource::Impl(0))], vec![])];
    assert_eq!(reported(&run(&prog, &ScopePolicy::Local, &insts)), vec![1]);
}

#[test]
fn nested_selection_counts_as_usage() {
    let prog = two_impls();
    // The root is proved by a where-clause whose sub-goal goes through impl 1.
    let tree = ProofTree {
        goals: vec![
            GoalNode { candidates: vec![cand(true, CandidateSource::Other, vec![1])] },
            GoalNode { candidates: vec![cand(true, CandidateSource::Impl(1), vec![])] },
        ],
    };
    let insts = vec![instance(vec![tree], vec![], vec![])];
    assert_eq!(reported(&run(&prog, &ScopePolicy::Local, &insts)), vec![0]);
}

#[test]
fn failed_candidates_and_their_subgoals_do_not_count() {
    let prog = two_impls();
    let tree = ProofTree {
        goals: vec![
            GoalNode {
                candidates: vec![
                    cand(false, CandidateSource::Impl(0), vec![1]),
                    cand(true, CandidateSource::Other, vec![]),
                ],
            },
            GoalNode { candidates: vec![cand(true, CandidateSource::Impl(1), vec![])] },
        ],
    };
    let insts = vec![instance(vec![tree], vec![], vec![])];
    assert_eq!(reported(&run(&prog, &ScopePolicy::Local, &insts)), vec![0, 1]);
}

#[test]
fn selected_impls_walks_every_depth() {
    let tree = ProofTree {
        goals: vec![
            GoalNode { candidates: vec![cand(true, CandidateSource::Impl(7), vec![1, 2])] },
            GoalNode { candidates: vec![cand(true, CandidateSource::Other, vec![3])] },
            GoalNode {
                candidates: vec![
                    cand(false, CandidateSource::Impl(9), vec![]),
                    cand(true, CandidateSource::Impl(8), vec![]),
                ],
            },
            GoalNode { candidates: vec![cand(true, CandidateSource::Impl(5), vec![])] },
        ],
    };
    let mut got = tree.selected_impls();
    got.sort();
    assert_eq!(got, vec![5, 7, 8]);
}

#[test]
fn enclosing_impl_counts_as_usage() {
    let prog = two_impls();
    let insts = vec![Instance {
        enclosing_impl: Some(1),
        bounds: vec![],
        body: Some(Body { assoc_refs: vec![], coercions: vec![] }),
    }];
    assert_eq!(reported(&run(&prog, &ScopePolicy::Local, &insts)), vec![0]);
}

#[test]
fn instance_without_body_is_skipped() {
    let prog = two_impls();
    let insts = vec![Instance { enclosing_impl: Some(0), bounds: vec![leaf(CandidateSource::Impl(0))], body: None }];
    assert_eq!(reported(&run(&prog, &ScopePolicy::Local, &insts)), vec![0, 1]);
}

#[test]
fn rerun_gives_same_findings() {
    let prog = two_impls();
    let insts = vec![instance(vec![leaf(CandidateSource::Impl(0))], vec![], vec![])];
    let once = run(&prog, &ScopePolicy::Local, &insts);
    let again = run(&prog, &ScopePolicy::Local, &insts);
    assert_eq!(reported(&once), reported(&again));
    assert_eq!(once.iter().map(|f| f.span).collect::<Vec<_>>(), again.iter().map(|f| f.span).collect::<Vec<_>>());
    let mut twice = vec![instance(vec![leaf(CandidateSource::Impl(0))], vec![], vec![])];
    twice.push(instance(vec![leaf(CandidateSource::Impl(0))], vec![], vec![]));
    assert_eq!(reported(&run(&prog, &ScopePolicy::Local, &twice)), reported(&once));
}

#[test]
fn private_interface_is_not_checked_locally() {
    let prog = Program {
        interfaces: vec![Interface { name: "Hidden".to_string(), local: true, exported: false }],
        impls: vec![imp(0, TY_A, "A", "app", true, 1)],
    };
    assert!(run(&prog, &ScopePolicy::Local, &vec![]).is_empty());
}

#[test]
fn foreign_impl_is_not_reported_locally() {
    let prog = Program {
        interfaces: vec![iface("Trait")],
        impls: vec![imp(0, TY_A, "A", "dep", false, 1), imp(0, TY_B, "B", "app", true, 2)],
    };
    assert_eq!(reported(&run(&prog, &ScopePolicy::Local, &vec![])), vec![1]);
}

#[test]
fn invalid_interface_pattern_is_an_error() {
    let policy = ScopePolicy::Workspace { interface_pattern: "(".to_string(), unit_pattern: "(".to_string() };
    let r = analyze(&two_impls(), &policy, &vec![]);
    assert!(matches!(r, Err(ConfigError::InvalidInterfacePattern)));
}

#[test]
fn invalid_unit_pattern_is_an_error() {
    let policy = ScopePolicy::Workspace { interface_pattern: "T.*".to_string(), unit_pattern: "[".to_string() };
    let r = analyze(&two_impls(), &policy, &vec![]);
    assert!(matches!(r, Err(ConfigError::InvalidUnitPattern)));
    assert_eq!(policy.check(), Err(ConfigError::InvalidUnitPattern));
}

#[test]
fn matches_whole_anchors_the_pattern() {
    assert_eq!(anchor("a|b"), "^(?:a|b)$");
    assert_eq!(matches_whole("Tr", "Trait"), Some(false));
    assert_eq!(matches_whole("Tr.*", "Trait"), Some(true));
    assert_eq!(matches_whole("a|b", "b"), Some(true));
    assert_eq!(matches_whole("a|b", "ab"), Some(false));
    assert_eq!(matches_whole("(", "x"), None);
}

#[test]
fn message_text() {
    assert_eq!(unused_text("Display", "Vec<u8>"), "implementation of Display for Vec<u8> is unused");
}

#[test]
fn registry_marks_only_checked_interfaces() {
    let prog = Program {
        interfaces: vec![iface("Trait"), Interface { name: "Hidden".to_string(), local: true, exported: false }],
        impls: vec![imp(0, TY_A, "A", "app", true, 1), imp(1, TY_A, "A", "app", true, 2)],
    };
    let mut reg = Registry::initialize(&prog, &ScopePolicy::Local);
    assert_eq!(reg.checked, vec![true, false]);
    reg.record(&prog, Evidence::ProofCandidate(0));
    reg.record(&prog, Evidence::DispatchEvent(1));
    reg.mark_impl(&prog, 5);
    assert_eq!(reg.used, vec![true, false]);
}

#[test]
fn dispatch_marks_matching_type_only() {
    let prog = two_impls();
    let mut reg = Registry::initialize(&prog, &ScopePolicy::Local);
    reg.walk_dispatch(&prog, DispatchEvent { source_ty: TY_B, interface: 0 });
    assert_eq!(reg.used, vec![false, true]);
    reg.walk_dispatch(&prog, DispatchEvent { source_ty: 99, interface: 0 });
    assert_eq!(reg.used, vec![false, true]);
}
