//! The constant-propagation lattice: per equivalence class, an optional proven
//! truth value with a witness expression. Facts are derived bottom-up from a
//! node's operator over its children's facts; merging two facts that disagree
//! on the value is a fatal inconsistency, reported, never silently resolved;
//! a class that gains a fact is to be unioned with its value's literal class,
//! the witness recorded as justification.

use crate::expr::{Expr, clone_expr, eval, expr_like};
use crate::graph::{ENode, wf_node};
use vstd::prelude::*;
use vstd::string::StringExecFns;

verus! {

/// A proven-constant fact: the truth value and a witness expression for it.
pub struct ConstFact {
    pub value: bool,
    pub witness: Expr,
}

/// The truth value recorded for one class, if any.
pub open spec fn fact_value(facts: Seq<Option<ConstFact>>, i: int) -> Option<bool> {
    match facts[i] {
        Option::Some(f) => Option::Some(f.value),
        Option::None => Option::None,
    }
}

/// The recorded truth value, read as false when absent; meaningful only where
/// a fact is present.
pub open spec fn fact_or_false(facts: Seq<Option<ConstFact>>, i: int) -> bool {
    match fact_value(facts, i) {
        Option::Some(v) => v,
        Option::None => false,
    }
}

/// The constant value a node derives from its children's facts: each operator
/// folds its children's proven values; a symbol proves nothing; a fact is
/// derived only when every child has one.
pub open spec fn make_value(n: ENode, facts: Seq<Option<ConstFact>>) -> Option<bool> {
    match n {
        ENode::Bool(b) => Option::Some(b),
        ENode::Symbol(_) => Option::None,
        ENode::Not(a) => match fact_value(facts, a as int) {
            Option::Some(x) => Option::Some(!x),
            Option::None => Option::None,
        },
        ENode::And(a, b) => match (fact_value(facts, a as int), fact_value(facts, b as int)) {
            (Option::Some(x), Option::Some(y)) => Option::Some(x && y),
            _ => Option::None,
        },
        ENode::Or(a, b) => match (fact_value(facts, a as int), fact_value(facts, b as int)) {
            (Option::Some(x), Option::Some(y)) => Option::Some(x || y),
            _ => Option::None,
        },
        ENode::Implies(a, b) => match (fact_value(facts, a as int), fact_value(facts, b as int)) {
            (Option::Some(x), Option::Some(y)) => Option::Some(!x || y),
            _ => Option::None,
        },
        ENode::Let(a, b) => match (fact_value(facts, a as int), fact_value(facts, b as int)) {
            (Option::Some(x), Option::Some(y)) => Option::Some(x == y),
            _ => Option::None,
        },
        ENode::Concat(a, b) => match (fact_value(facts, a as int), fact_value(facts, b as int)) {
            (Option::Some(x), Option::Some(y)) => Option::Some(x && !y),
            _ => Option::None,
        },
    }
}

/// The witness for a derived fact: the node's operator applied to the literal
/// values of its children. Meaningful only where `make_value` is present.
pub open spec fn make_witness(n: ENode, facts: Seq<Option<ConstFact>>) -> Expr {
    match n {
        ENode::Bool(b) => Expr::Bool(b),
        ENode::Symbol(_) => Expr::Bool(false),
        ENode::Not(a) => Expr::Not(Box::new(Expr::Bool(fact_or_false(facts, a as int)))),
        ENode::And(a, b) => Expr::And(
            Box::new(Expr::Bool(fact_or_false(facts, a as int))),
            Box::new(Expr::Bool(fact_or_false(facts, b as int))),
        ),
        ENode::Or(a, b) => Expr::Or(
            Box::new(Expr::Bool(fact_or_false(facts, a as int))),
            Box::new(Expr::Bool(fact_or_false(facts, b as int))),
        ),
        ENode::Implies(a, b) => Expr::Implies(
            Box::new(Expr::Bool(fact_or_false(facts, a as int))),
            Box::new(Expr::Bool(fact_or_false(facts, b as int))),
        ),
        ENode::Let(a, b) => Expr::Let(
            Box::new(Expr::Bool(fact_or_false(facts, a as int))),
            Box::new(Expr::Bool(fact_or_false(facts, b as int))),
        ),
        ENode::Concat(a, b) => Expr::Concat(
            Box::new(Expr::Bool(fact_or_false(facts, a as int))),
            Box::new(Expr::Bool(fact_or_false(facts, b as int))),
        ),
    }
}

/// A derived witness really evaluates to the derived value, under every
/// assignment: it is a closed proof expression.
pub proof fn lemma_witness_value(n: ENode, facts: Seq<Option<ConstFact>>, env: Map<Seq<char>, bool>)
    requires
        make_value(n, facts) is Some,
    ensures
        eval(make_witness(n, facts), env) == make_value(n, facts)->Some_0,
{
    reveal_with_fuel(eval, 3);
}

/// Read one class's recorded truth value.
fn child_value(facts: &Vec<Option<ConstFact>>, i: usize) -> (r: Option<bool>)
    requires
        (i as int) < facts@.len(),
    ensures
        r == fact_value(facts@, i as int),
{
    match &facts[i] {
        Some(f) => Some(f.value),
        None => None,
    }
}

/// Derive the constant fact of one node from its children's facts, with the
/// witness expression that proves it.
pub fn make(n: &ENode, facts: &Vec<Option<ConstFact>>) -> (r: Option<ConstFact>)
    requires
        wf_node(*n, facts@.len() as int),
    ensures
        r is Some <==> make_value(*n, facts@) is Some,
        r matches Some(f) ==> Option::Some(f.value) == make_value(*n, facts@) && f.witness
            == make_witness(*n, facts@),
{
    match n {
        ENode::Bool(b) => Some(ConstFact { value: *b, witness: Expr::Bool(*b) }),
        ENode::Symbol(_) => None,
        ENode::Not(a) => match child_value(facts, *a) {
            Some(x) => Some(
                ConstFact { value: !x, witness: Expr::Not(Box::new(Expr::Bool(x))) },
            ),
            None => None,
        },
        ENode::And(a, b) => match (child_value(facts, *a), child_value(facts, *b)) {
            (Some(x), Some(y)) => Some(
                ConstFact {
                    value: x && y,
                    witness: Expr::And(Box::new(Expr::Bool(x)), Box::new(Expr::Bool(y))),
                },
            ),
            _ => None,
        },
        ENode::Or(a, b) => match (child_value(facts, *a), child_value(facts, *b)) {
            (Some(x), Some(y)) => Some(
                ConstFact {
                    value: x || y,
                    witness: Expr::Or(Box::new(Expr::Bool(x)), Box::new(Expr::Bool(y))),
                },
            ),
            _ => None,
        },
        ENode::Implies(a, b) => match (child_value(facts, *a), child_value(facts, *b)) {
            (Some(x), Some(y)) => Some(
                ConstFact {
                    value: !x || y,
                    witness: Expr::Implies(Box::new(Expr::Bool(x)), Box::new(Expr::Bool(y))),
                },
            ),
            _ => None,
        },
        ENode::Let(a, b) => match (child_value(facts, *a), child_value(facts, *b)) {
            (Some(x), Some(y)) => Some(
                ConstFact {
                    value: x == y,
                    witness: Expr::Let(Box::new(Expr::Bool(x)), Box::new(Expr::Bool(y))),
                },
            ),
            _ => None,
        },
        ENode::Concat(a, b) => match (child_value(facts, *a), child_value(facts, *b)) {
            (Some(x), Some(y)) => Some(
                ConstFact {
                    value: x && !y,
                    witness: Expr::Concat(Box::new(Expr::Bool(x)), Box::new(Expr::Bool(y))),
                },
            ),
            _ => None,
        },
    }
}

/// What a merge did: whether the left side changed, whether the right side
/// differed from the result.
#[derive(PartialEq, Eq, Structural)]
pub struct DidMerge {
    pub to_changed: bool,
    pub from_changed: bool,
}

/// The one fatal lattice failure: two derivations proved different constants
/// for one class, so the rule set or the engine is unsound.
#[derive(Debug)]
pub enum FoldError {
    MergedUnequalConstants,
}

impl FoldError {
    /// A diagnostic line for the fatal report.
    pub fn message(&self) -> (r: String)
        ensures
            r@ == "merged non-equal constants"@,
    {
        "merged non-equal constants".to_owned()
    }
}

/// Merge an incoming fact into a class's recorded fact. An absent side leaves
/// the present one; two present facts must agree on the value — disagreement
/// is reported as fatal and changes nothing.
pub fn merge(to: &mut Option<ConstFact>, from: Option<ConstFact>) -> (r: Result<
    DidMerge,
    FoldError,
>)
    ensures
        match *old(to) {
            Option::None => match from {
                Option::None => r == Ok::<DidMerge, FoldError>(
                    DidMerge { to_changed: false, from_changed: false },
                ) && *final(to) is None,
                Option::Some(f) => r == Ok::<DidMerge, FoldError>(
                    DidMerge { to_changed: true, from_changed: false },
                ) && *final(to) == Option::Some(f),
            },
            Option::Some(t) => match from {
                Option::None => r == Ok::<DidMerge, FoldError>(
                    DidMerge { to_changed: false, from_changed: true },
                ) && *final(to) == *old(to),
                Option::Some(f) => *final(to) == *old(to) && if t.value == f.value {
                    r == Ok::<DidMerge, FoldError>(
                        DidMerge { to_changed: false, from_changed: false },
                    )
                } else {
                    r matches Err(_)
                },
            },
        },
{
    match (&*to, &from) {
        (None, None) => Ok(DidMerge { to_changed: false, from_changed: false }),
        (None, Some(_)) => {
            *to = from;
            Ok(DidMerge { to_changed: true, from_changed: false })
        },
        (Some(_), None) => Ok(DidMerge { to_changed: false, from_changed: true }),
        (Some(t), Some(f)) => {
            if t.value == f.value {
                Ok(DidMerge { to_changed: false, from_changed: false })
            } else {
                Err(FoldError::MergedUnequalConstants)
            }
        },
    }
}

/// The side effect a fresh fact demands of the engine: union the witness with
/// the literal of the proven value, the witness being the justification.
pub fn modify_pair(d: &Option<ConstFact>) -> (r: Option<(Expr, Expr)>)
    ensures
        r is Some <==> d is Some,
        d matches Some(f) ==> r matches Some(p) && expr_like(p.0, f.witness) && p.1 == Expr::Bool(
            f.value,
        ),
{
    match d {
        None => None,
        Some(f) => Some((clone_expr(&f.witness), Expr::Bool(f.value))),
    }
}

} // verus!
