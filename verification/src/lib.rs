//! Boolean-expression minimization core: a rewrite-rule catalog with proved
//! soundness, a constant-propagation lattice, monotonic cost functions with
//! randomized tie-breaking, a fixpoint extractor over an equivalence-class
//! graph, structural feature scoring, and candidate selection.

pub mod expr;
pub mod pattern;
pub mod rules;
pub mod cost;
pub mod graph;
pub mod fold;
pub mod features;
pub mod select;
