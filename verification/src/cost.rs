//! Cost metrics over expression structure: Size, Depth, and the blended
//! metric, all computed per node from already-resolved child costs and
//! saturating at the machine maximum; the randomized tie-breaking helpers; and
//! the cost of a whole expression tree.

use crate::expr::{Expr, depth_spec, max_usize, size_spec};
use vstd::prelude::*;

verus! {

/// Which cost metric to resolve a node under.
#[derive(Clone, Copy)]
pub enum CostFn {
    Size,
    Depth,
    Mix,
}

/// Cap a mathematical value at the machine maximum.
pub open spec fn sat_cap(x: int) -> int {
    if x > usize::MAX as int {
        usize::MAX as int
    } else {
        x
    }
}

/// Cost of a childless node: always one.
pub open spec fn cost_leaf(cf: CostFn) -> int {
    1
}

/// Cost of a one-child node from its child's cost: all three metrics add one.
pub open spec fn cost_unary(cf: CostFn, a: int) -> int {
    sat_cap(1 + a)
}

/// Cost of a two-child node from its children's costs. Size sums, Depth takes
/// the maximum, and the blended metric gives each equal weight and rounds the
/// average to the nearest integer, halves upward.
pub open spec fn cost_binary(cf: CostFn, a: int, b: int) -> int {
    match cf {
        CostFn::Size => sat_cap(1 + a + b),
        CostFn::Depth => sat_cap(1 + vstd::math::max(a, b)),
        CostFn::Mix => (sat_cap(1 + a + b) + sat_cap(1 + vstd::math::max(a, b)) + 1) / 2,
    }
}

/// Cost of a whole expression tree under a metric.
pub open spec fn expr_cost(cf: CostFn, e: Expr) -> int
    decreases e,
{
    match e {
        Expr::Bool(_) => cost_leaf(cf),
        Expr::Symbol(_) => cost_leaf(cf),
        Expr::Not(a) => cost_unary(cf, expr_cost(cf, *a)),
        Expr::And(a, b) => cost_binary(cf, expr_cost(cf, *a), expr_cost(cf, *b)),
        Expr::Or(a, b) => cost_binary(cf, expr_cost(cf, *a), expr_cost(cf, *b)),
        Expr::Implies(a, b) => cost_binary(cf, expr_cost(cf, *a), expr_cost(cf, *b)),
        Expr::Let(a, b) => cost_binary(cf, expr_cost(cf, *a), expr_cost(cf, *b)),
        Expr::Concat(a, b) => cost_binary(cf, expr_cost(cf, *a), expr_cost(cf, *b)),
    }
}

/// Monotonicity and bounds of the per-node metrics: a node's cost is at least
/// each child's cost, stays within machine range, and never shrinks when a
/// child's cost grows.
pub proof fn lemma_cost_monotone(cf: CostFn, a: int, b: int)
    requires
        0 <= a <= usize::MAX,
        0 <= b <= usize::MAX,
    ensures
        a <= cost_unary(cf, a) <= usize::MAX,
        a <= cost_binary(cf, a, b) <= usize::MAX,
        b <= cost_binary(cf, a, b) <= usize::MAX,
        1 <= cost_binary(cf, a, b),
        1 <= cost_unary(cf, a),
{
}

/// The per-node metrics never shrink when a child's resolved cost shrinks.
pub proof fn lemma_cost_child_monotone(cf: CostFn, a1: int, a2: int, b1: int, b2: int)
    requires
        0 <= a1 <= a2 <= usize::MAX,
        0 <= b1 <= b2 <= usize::MAX,
    ensures
        cost_unary(cf, a1) <= cost_unary(cf, a2),
        cost_binary(cf, a1, b1) <= cost_binary(cf, a2, b2),
{
}

/// Below saturation, a two-child node is strictly dearer than each child.
pub proof fn lemma_cost_children_lt(cf: CostFn, a: int, b: int, k: int)
    requires
        0 <= a <= usize::MAX,
        0 <= b <= usize::MAX,
        k == cost_binary(cf, a, b),
        k < usize::MAX,
    ensures
        a < k,
        b < k,
{
    match cf {
        CostFn::Size => {},
        CostFn::Depth => {},
        CostFn::Mix => {
            let cs = sat_cap(1 + a + b);
            let cd = sat_cap(1 + vstd::math::max(a, b));
            assert(cd <= cs);
            assert(2 * cd <= cs + cd);
            assert(cd <= (cs + cd + 1) / 2);
        },
    }
}

/// A whole tree's cost lies in machine range.
pub proof fn lemma_expr_cost_bounds(cf: CostFn, e: Expr)
    ensures
        1 <= expr_cost(cf, e) <= usize::MAX,
    decreases e,
{
    match e {
        Expr::Bool(_) => {},
        Expr::Symbol(_) => {},
        Expr::Not(a) => {
            lemma_expr_cost_bounds(cf, *a);
        },
        Expr::And(a, b) => {
            lemma_expr_cost_bounds(cf, *a);
            lemma_expr_cost_bounds(cf, *b);
        },
        Expr::Or(a, b) => {
            lemma_expr_cost_bounds(cf, *a);
            lemma_expr_cost_bounds(cf, *b);
        },
        Expr::Implies(a, b) => {
            lemma_expr_cost_bounds(cf, *a);
            lemma_expr_cost_bounds(cf, *b);
        },
        Expr::Let(a, b) => {
            lemma_expr_cost_bounds(cf, *a);
            lemma_expr_cost_bounds(cf, *b);
        },
        Expr::Concat(a, b) => {
            lemma_expr_cost_bounds(cf, *a);
            lemma_expr_cost_bounds(cf, *b);
        },
    }
}

/// The Depth metric of a tree is its structural depth, capped at the machine
/// maximum; the Size metric is likewise its capped structural size.
pub proof fn lemma_expr_cost_structural(e: Expr)
    ensures
        expr_cost(CostFn::Depth, e) == sat_cap(depth_spec(e) as int),
        expr_cost(CostFn::Size, e) == sat_cap(size_spec(e) as int),
    decreases e,
{
    match e {
        Expr::Bool(_) => {},
        Expr::Symbol(_) => {},
        Expr::Not(a) => {
            lemma_expr_cost_structural(*a);
        },
        Expr::And(a, b) => {
            lemma_expr_cost_structural(*a);
            lemma_expr_cost_structural(*b);
        },
        Expr::Or(a, b) => {
            lemma_expr_cost_structural(*a);
            lemma_expr_cost_structural(*b);
        },
        Expr::Implies(a, b) => {
            lemma_expr_cost_structural(*a);
            lemma_expr_cost_structural(*b);
        },
        Expr::Let(a, b) => {
            lemma_expr_cost_structural(*a);
            lemma_expr_cost_structural(*b);
        },
        Expr::Concat(a, b) => {
            lemma_expr_cost_structural(*a);
            lemma_expr_cost_structural(*b);
        },
    }
}

/// Expressions equal up to symbol spelling cost the same under every metric.
pub proof fn lemma_expr_like_cost(cf: CostFn, a: Expr, b: Expr)
    requires
        crate::expr::expr_like(a, b),
    ensures
        expr_cost(cf, a) == expr_cost(cf, b),
    decreases a,
{
    match (a, b) {
        (Expr::Not(a1), Expr::Not(b1)) => {
            lemma_expr_like_cost(cf, *a1, *b1);
        },
        (Expr::And(a1, a2), Expr::And(b1, b2)) => {
            lemma_expr_like_cost(cf, *a1, *b1);
            lemma_expr_like_cost(cf, *a2, *b2);
        },
        (Expr::Or(a1, a2), Expr::Or(b1, b2)) => {
            lemma_expr_like_cost(cf, *a1, *b1);
            lemma_expr_like_cost(cf, *a2, *b2);
        },
        (Expr::Implies(a1, a2), Expr::Implies(b1, b2)) => {
            lemma_expr_like_cost(cf, *a1, *b1);
            lemma_expr_like_cost(cf, *a2, *b2);
        },
        (Expr::Let(a1, a2), Expr::Let(b1, b2)) => {
            lemma_expr_like_cost(cf, *a1, *b1);
            lemma_expr_like_cost(cf, *a2, *b2);
        },
        (Expr::Concat(a1, a2), Expr::Concat(b1, b2)) => {
            lemma_expr_like_cost(cf, *a1, *b1);
            lemma_expr_like_cost(cf, *a2, *b2);
        },
        _ => {},
    }
}

/// Resolve a one-child node's cost.
pub fn node_cost_unary(cf: CostFn, a: usize) -> (r: usize)
    ensures
        r == cost_unary(cf, a as int),
{
    1usize.saturating_add(a)
}

/// Resolve a two-child node's cost under the chosen metric.
pub fn node_cost_binary(cf: CostFn, a: usize, b: usize) -> (r: usize)
    ensures
        r == cost_binary(cf, a as int, b as int),
{
    match cf {
        CostFn::Size => 1usize.saturating_add(a.saturating_add(b)),
        CostFn::Depth => 1usize.saturating_add(max_usize(a, b)),
        CostFn::Mix => {
            let cs = 1usize.saturating_add(a.saturating_add(b));
            let cd = 1usize.saturating_add(max_usize(a, b));
            cs / 2 + cd / 2 + (cs % 2 + cd % 2 + 1) / 2
        },
    }
}

/// An unbiased random truth value for tie-breaking.
///
/// Relies on rand::random: an unbiased draw; nothing is promised of the
/// outcome, and callers must hold for either value.
#[verifier::external_body]
pub(crate) fn coin() -> bool {
    rand::random::<bool>()
}

/// The larger of two values; an exact tie is handed to a coin flip, which
/// cannot change the value returned.
pub fn max_random(a: i32, b: i32) -> (r: i32)
    ensures
        r == if a < b {
            b
        } else {
            a
        },
{
    if a == b {
        if coin() {
            a
        } else {
            b
        }
    } else if a < b {
        b
    } else {
        a
    }
}

/// The smaller of two values; an exact tie is handed to a coin flip.
pub fn min_random(a: i32, b: i32) -> (r: i32)
    ensures
        r == if a < b {
            a
        } else {
            b
        },
{
    if a == b {
        if coin() {
            a
        } else {
            b
        }
    } else if a < b {
        a
    } else {
        b
    }
}

/// A cost paired with the index of the item that achieved it.
#[derive(Clone, Copy)]
pub struct CostEntry {
    pub cost: usize,
    pub index: usize,
}

/// The entry with the smaller cost; on an exact cost tie the winner is chosen
/// by an unbiased coin flip, so either entry may be returned.
pub fn min_random_cmp(v1: CostEntry, v2: CostEntry) -> (r: CostEntry)
    ensures
        r == v1 || r == v2,
        r.cost == vstd::math::min(v1.cost as int, v2.cost as int),
{
    if v1.cost < v2.cost {
        v1
    } else if v2.cost < v1.cost {
        v2
    } else {
        if coin() {
            v1
        } else {
            v2
        }
    }
}

/// The minimum-cost entry of a list, ties broken at random among the minima.
/// Returns nothing only on an empty list.
pub fn min_by_random(v: &Vec<CostEntry>) -> (r: Option<CostEntry>)
    ensures
        r.is_some() <==> v@.len() > 0,
        r matches Some(m) ==> exists|i: int| 0 <= i < v@.len() && v@[i] == m,
        r matches Some(m) ==> forall|i: int| 0 <= i < v@.len() ==> m.cost <= #[trigger] v@[i].cost,
{
    if v.len() == 0 {
        return None;
    }
    let mut cur = CostEntry { cost: v[0].cost, index: v[0].index };
    proof {
        assert(cur == v@[0]);
    }
    let mut k: usize = 1;
    while k < v.len()
        invariant
            1 <= k <= v@.len(),
            exists|i: int| 0 <= i < k && v@[i] == cur,
            forall|i: int| 0 <= i < k ==> cur.cost <= #[trigger] v@[i].cost,
        decreases v@.len() - k,
    {
        let cand = CostEntry { cost: v[k].cost, index: v[k].index };
        proof {
            assert(cand == v@[k as int]);
        }
        cur = min_random_cmp(cur, cand);
        k = k + 1;
    }
    Some(cur)
}

/// Order two optional costs; an absent cost ranks above every present one.
/// Returns a negative, zero, or positive sign.
pub fn cmp(a: &Option<usize>, b: &Option<usize>) -> (r: i8)
    ensures
        r == opt_cmp(*a, *b),
{
    match (a, b) {
        (None, None) => 0,
        (None, Some(_)) => 1,
        (Some(_), None) => -1,
        (Some(x), Some(y)) => {
            if *x < *y {
                -1
            } else if *x == *y {
                0
            } else {
                1
            }
        },
    }
}

/// The sign that `cmp` returns: absent costs rank highest.
pub open spec fn opt_cmp(a: Option<usize>, b: Option<usize>) -> int {
    match (a, b) {
        (Option::None, Option::None) => 0,
        (Option::None, Option::Some(_)) => 1,
        (Option::Some(_), Option::None) => -1,
        (Option::Some(x), Option::Some(y)) => if x < y {
            -1
        } else if x == y {
            0
        } else {
            1
        },
    }
}

} // verus!
