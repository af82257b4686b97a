//! The program as the host compiler describes it: interfaces,
//! implementations, and the function instances that will be emitted.
use vstd::prelude::*;
use crate::proof_tree::ProofTree;

verus! {

/// A source location, opaque to the analysis; it only anchors diagnostics.
#[derive(Clone, Copy, Debug, PartialEq, Eq, Structural)]
pub struct Span {
    pub lo: u32,
    pub hi: u32,
}

/// A declared interface (trait). Its id is its index in the program.
pub struct Interface {
    pub name: String,
    /// Declared in the unit under analysis.
    pub local: bool,
    /// Reachable from outside that unit, directly or through a generic bound.
    pub exported: bool,
}

/// An implementation of one interface for one concrete type. Its id is its
/// index in the program.
pub struct Implementation {
    /// Index of the interface implemented.
    pub interface: usize,
    /// The target type, interned by the host.
    pub self_ty: u64,
    /// The target type as written in diagnostics.
    pub self_ty_name: String,
    /// Name of the compiled unit that declares it.
    pub unit: String,
    /// Declared in the unit under analysis.
    pub local: bool,
    pub span: Span,
}

/// All declarations that the analysis considers.
pub struct Program {
    pub interfaces: Vec<Interface>,
    pub impls: Vec<Implementation>,
}

impl Program {
    /// Every implementation belongs to a declared interface.
    pub open spec fn wf(&self) -> bool {
        forall|i: int|
            0 <= i < self.impls@.len() ==> #[trigger] self.impls@[i].interface
                < self.interfaces@.len()
    }

    pub open spec fn interface_of(&self, i: int) -> Interface {
        self.interfaces@[self.impls@[i].interface as int]
    }
}

/// A coercion of a value of a concrete type into a dynamically dispatched
/// handle of an interface.
#[derive(Clone, Copy, Debug, PartialEq, Eq, Structural)]
pub struct DispatchEvent {
    pub source_ty: u64,
    pub interface: usize,
}

/// What the analysis reads in an instance's body.
pub struct Body {
    /// Proof trees of the obligations built from references to associated
    /// items (constants, functions) whose provider an implementation decides.
    pub assoc_refs: Vec<ProofTree>,
    /// Unsizing coercions into interface handles.
    pub coercions: Vec<DispatchEvent>,
}

/// A fully monomorphized function that will be emitted.
pub struct Instance {
    /// The implementation whose member this function is, if any.
    pub enclosing_impl: Option<usize>,
    /// Proof trees of the instance's own generic-bound obligations,
    /// instantiated with its type arguments.
    pub bounds: Vec<ProofTree>,
    /// `None` where the host has no analyzable body (an intrinsic, an
    /// item of another unit).
    pub body: Option<Body>,
}

impl Body {
    pub open spec fn wf(&self) -> bool {
        forall|k: int| 0 <= k < self.assoc_refs@.len() ==> #[trigger] self.assoc_refs@[k].wf()
    }
}

impl Instance {
    pub open spec fn wf(&self) -> bool {
        &&& forall|k: int| 0 <= k < self.bounds@.len() ==> #[trigger] self.bounds@[k].wf()
        &&& self.body matches Some(b) ==> b.wf()
    }
}

/// Every proof tree of every instance is well formed.
pub open spec fn instances_wf(insts: Seq<Instance>) -> bool {
    forall|k: int| 0 <= k < insts.len() ==> #[trigger] insts[k].wf()
}

/// A dispatch event names implementation `i` directly: same interface,
/// same target type.
pub open spec fn dispatch_names(prog: &Program, e: DispatchEvent, i: int) -> bool {
    0 <= i < prog.impls@.len() && prog.impls@[i].interface == e.interface && prog.impls@[i].self_ty
        == e.source_ty
}

/// Instance `inst` is evidence that implementation `i` is used. An instance
/// without a body contributes nothing.
pub open spec fn instance_uses(prog: &Program, inst: &Instance, i: int) -> bool {
    match inst.body {
        None => false,
        Some(body) => {
            ||| (inst.enclosing_impl is Some && inst.enclosing_impl.unwrap() == i)
            ||| trees_select(inst.bounds@, i)
            ||| trees_select(body.assoc_refs@, i)
            ||| coercions_name(prog, body.coercions@, i)
        },
    }
}

/// One of the proof trees selects implementation `i`.
pub open spec fn trees_select(trees: Seq<ProofTree>, i: int) -> bool {
    exists|k: int| 0 <= k < trees.len() && #[trigger] trees[k].selects(i)
}

/// One of the coercions names implementation `i`.
pub open spec fn coercions_name(prog: &Program, es: Seq<DispatchEvent>, i: int) -> bool {
    exists|k: int| 0 <= k < es.len() && dispatch_names(prog, #[trigger] es[k], i)
}

/// Some instance of `insts` uses implementation `i`.
pub open spec fn some_instance_uses(prog: &Program, insts: Seq<Instance>, i: int) -> bool {
    exists|k: int| #![trigger insts[k]] 0 <= k < insts.len() && instance_uses(prog, &insts[k], i)
}

} // verus!
