//! Detection of trait implementations that nothing in a program's
//! instantiated code ever uses.
//!
//! The host compiler hands the analysis plain values: the declared
//! interfaces and implementations (identified by their index), and for
//! every function instance that will be emitted the solver's proof trees
//! and the dynamic-dispatch coercions of its body. The analysis collects
//! which implementations that evidence uses and reports the others.
pub mod proof_tree;
pub mod model;
pub mod pattern;
pub mod policy;
pub mod registry;
pub mod report;
pub mod laws;
