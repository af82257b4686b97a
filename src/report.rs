//! The reachability diff: every implementation of a checked interface,
//! from a unit the policy selects, that no instance used, reported once at
//! its declaration.
use vstd::prelude::*;
use vstd::string::StringExecFns;
use crate::model::{Implementation, Instance, Program, Span, instances_wf, some_instance_uses};
use crate::policy::{ConfigError, Route, ScopePolicy, route_of};
use crate::registry::Registry;

verus! {

/// One unused implementation.
pub struct Finding {
    pub implementation: usize,
    pub span: Span,
    pub route: Route,
    pub message: String,
}

/// `implementation of <interface> for <type> is unused`.
pub open spec fn unused_message(interface: Seq<char>, self_ty: Seq<char>) -> Seq<char> {
    "implementation of "@ + interface + " for "@ + self_ty + " is unused"@
}

/// Implementation `i` is to be reported, given which are used.
pub open spec fn reportable(prog: &Program, policy: &ScopePolicy, used: Seq<bool>, i: int) -> bool {
    policy.checks(prog.interface_of(i)) && policy.sources(prog.impls@[i]) && !used[i]
}

/// The reportable implementations among the first `n`, in declaration order.
pub open spec fn reported_upto(prog: &Program, policy: &ScopePolicy, used: Seq<bool>, n: int) -> Seq<
    usize,
>
    decreases n,
{
    if n <= 0 {
        Seq::empty()
    } else {
        let prev = reported_upto(prog, policy, used, n - 1);
        if reportable(prog, policy, used, n - 1) {
            prev.push((n - 1) as usize)
        } else {
            prev
        }
    }
}

/// The used set after every instance is walked: implementations of
/// checked interfaces that some instance uses.
pub open spec fn used_after(prog: &Program, policy: &ScopePolicy, insts: Seq<Instance>) -> Seq<
    bool,
> {
    Seq::new(
        prog.impls@.len(),
        |i: int| policy.checks(prog.interface_of(i)) && some_instance_uses(prog, insts, i),
    )
}

/// The implementations that the whole pass reports, in declaration order.
pub open spec fn unused_impls(prog: &Program, policy: &ScopePolicy, insts: Seq<Instance>) -> Seq<
    usize,
> {
    reported_upto(prog, policy, used_after(prog, policy, insts), prog.impls@.len() as int)
}

/// The finding that reports implementation `i`.
pub open spec fn finding_for(prog: &Program, f: Finding, i: usize) -> bool {
    let imp = prog.impls@[i as int];
    &&& f.implementation == i
    &&& f.span == imp.span
    &&& f.route == route_of(imp)
    &&& f.message@ == unused_message(prog.interface_of(i as int).name@, imp.self_ty_name@)
}

/// The findings report exactly the implementations `ids`, in that order.
pub open spec fn findings_for(prog: &Program, fs: Seq<Finding>, ids: Seq<usize>) -> bool {
    fs.len() == ids.len() && forall|k: int| 0 <= k < fs.len() ==> finding_for(prog, #[trigger] fs[k], ids[k])
}

/// Renders the message of a finding.
pub fn unused_text(interface: &str, self_ty: &str) -> (r: String)
    ensures
        r@ == unused_message(interface@, self_ty@),
{
    let mut r = String::from_str("implementation of ");
    r.append(interface);
    r.append(" for ");
    r.append(self_ty);
    r.append(" is unused");
    r
}

impl Registry {
    /// The registry's checked interfaces are the ones the policy selects.
    pub open spec fn built_for(&self, prog: &Program, policy: &ScopePolicy) -> bool {
        forall|t: int| 0 <= t < prog.interfaces@.len() ==> #[trigger] self.checked@[t] == policy.checks(prog.interfaces@[t])
    }

    /// Diffs the used set against every known implementation, once all
    /// instances have been walked.
    pub fn report(&self, prog: &Program, policy: &ScopePolicy) -> (r: Vec<Finding>)
        requires
            self.wf(prog),
            policy.valid(),
            self.built_for(prog, policy),
        ensures
            findings_for(prog, r@, reported_upto(prog, policy, self.used@, prog.impls@.len() as int)),
    {
        let mut out: Vec<Finding> = Vec::new();
        let mut i: usize = 0;
        while i < prog.impls.len()
            invariant
                self.wf(prog),
                policy.valid(),
                self.built_for(prog, policy),
                i <= prog.impls@.len(),
                findings_for(prog, out@, reported_upto(prog, policy, self.used@, i as int)),
            decreases prog.impls@.len() - i,
        {
            let imp: &Implementation = &prog.impls[i];
            assert(imp.interface < prog.interfaces@.len());
            if self.checked[imp.interface] && !self.used[i] && policy.is_source(imp) {
                let iface = &prog.interfaces[imp.interface];
                let message = unused_text(iface.name.as_str(), imp.self_ty_name.as_str());
                let route = if imp.local {
                    Route::UnitLint
                } else {
                    Route::DefaultWarn
                };
                let ghost before = out@;
                out.push(Finding { implementation: i, span: imp.span, route, message });
                assert forall|k: int| 0 <= k < out@.len() implies finding_for(
                    prog,
                    #[trigger] out@[k],
                    reported_upto(prog, policy, self.used@, i + 1)[k],
                ) by {
                    if k < before.len() {
                        assert(out@[k] == before[k]);
                    }
                }
            }
            i = i + 1;
        }
        out
    }
}

/// The whole pass: checks the policy, builds the registry, walks every
/// instance, and reports the implementations that none used.
pub fn analyze(prog: &Program, policy: &ScopePolicy, insts: &Vec<Instance>) -> (r: Result<
    Vec<Finding>,
    ConfigError,
>)
    requires
        prog.wf(),
        instances_wf(insts@),
    ensures
        policy.config_error() matches Some(e) ==> r == Err::<Vec<Finding>, ConfigError>(e),
        policy.config_error() is None ==> (r matches Ok(fs) && findings_for(
            prog,
            fs@,
            unused_impls(prog, policy, insts@),
        )),
{
    match policy.check() {
        Err(e) => Err(e),
        Ok(()) => {
            let mut reg = Registry::initialize(prog, policy);
            reg.walk_instances(prog, insts);
            assert(reg.used@ =~= used_after(prog, policy, insts@));
            Ok(reg.report(prog, policy))
        },
    }
}

} // verus!
