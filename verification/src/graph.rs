//! The saturated equivalence-class graph, read-only here: classes of nodes
//! whose children are class indices. On it, the randomized fixpoint extractor:
//! repeatedly resolve the cheapest member node per class, ties between member
//! nodes broken by a coin flip, until no class improves; then read one
//! minimum-cost representative expression off the chosen nodes.

use crate::cost::{
    CostFn, cost_binary, cost_leaf, cost_unary, expr_cost, lemma_cost_children_lt,
    lemma_cost_child_monotone, lemma_cost_monotone, lemma_expr_cost_bounds, node_cost_binary,
    node_cost_unary,
};
use crate::cost::coin;
use crate::expr::{Expr, eval, expr_like};
use vstd::prelude::*;

verus! {

/// One member node of an equivalence class; children are class indices.
pub enum ENode {
    Bool(bool),
    Symbol(String),
    And(usize, usize),
    Or(usize, usize),
    Not(usize),
    Implies(usize, usize),
    Let(usize, usize),
    Concat(usize, usize),
}

/// One equivalence class: its member nodes.
pub struct EClass {
    pub nodes: Vec<ENode>,
}

/// A read-only snapshot of a saturated equivalence-class graph.
pub struct EGraph {
    pub classes: Vec<EClass>,
}

/// Every child index of the node lies below `k`.
pub open spec fn wf_node(n: ENode, k: int) -> bool {
    match n {
        ENode::Bool(_) => true,
        ENode::Symbol(_) => true,
        ENode::Not(a) => a < k,
        ENode::And(a, b) => a < k && b < k,
        ENode::Or(a, b) => a < k && b < k,
        ENode::Implies(a, b) => a < k && b < k,
        ENode::Let(a, b) => a < k && b < k,
        ENode::Concat(a, b) => a < k && b < k,
    }
}

/// Every node of every class points only at existing classes.
pub open spec fn wf_graph(g: EGraph) -> bool {
    forall|c: int, j: int|
        0 <= c < g.classes@.len() && 0 <= j < g.classes@[c].nodes@.len() ==> wf_node(
            #[trigger] g.classes@[c].nodes@[j],
            g.classes@.len() as int,
        )
}

/// The node is a symbol spelled `name`.
pub open spec fn node_is_symbol(n: ENode, name: Seq<char>) -> bool {
    match n {
        ENode::Symbol(s) => s@ == name,
        _ => false,
    }
}

/// The class `c` contains the expression `e`: some member node carries `e`'s
/// head operator and its children's classes contain `e`'s children.
pub open spec fn represents(g: EGraph, c: int, e: Expr) -> bool
    decreases e,
{
    0 <= c < g.classes@.len() && match e {
        Expr::Bool(v) => g.classes@[c].nodes@.contains(ENode::Bool(v)),
        Expr::Symbol(s) => exists|j: int|
            0 <= j < g.classes@[c].nodes@.len() && node_is_symbol(
                #[trigger] g.classes@[c].nodes@[j],
                s@,
            ),
        Expr::And(a, b) => exists|i: usize, j: usize|
            #[trigger] g.classes@[c].nodes@.contains(ENode::And(i, j)) && represents(g, i as int, *a)
                && represents(g, j as int, *b),
        Expr::Or(a, b) => exists|i: usize, j: usize|
            #[trigger] g.classes@[c].nodes@.contains(ENode::Or(i, j)) && represents(g, i as int, *a)
                && represents(g, j as int, *b),
        Expr::Not(a) => exists|i: usize|
            #[trigger] g.classes@[c].nodes@.contains(ENode::Not(i)) && represents(g, i as int, *a),
        Expr::Implies(a, b) => exists|i: usize, j: usize|
            #[trigger] g.classes@[c].nodes@.contains(ENode::Implies(i, j)) && represents(
                g,
                i as int,
                *a,
            ) && represents(g, j as int, *b),
        Expr::Let(a, b) => exists|i: usize, j: usize|
            #[trigger] g.classes@[c].nodes@.contains(ENode::Let(i, j)) && represents(g, i as int, *a)
                && represents(g, j as int, *b),
        Expr::Concat(a, b) => exists|i: usize, j: usize|
            #[trigger] g.classes@[c].nodes@.contains(ENode::Concat(i, j)) && represents(
                g,
                i as int,
                *a,
            ) && represents(g, j as int, *b),
    }
}

/// Truth value of one node, reading children's values from a per-class table.
pub open spec fn node_eval(n: ENode, env: Map<Seq<char>, bool>, vals: Seq<bool>) -> bool {
    match n {
        ENode::Bool(b) => b,
        ENode::Symbol(s) => env[s@],
        ENode::And(a, b) => vals[a as int] && vals[b as int],
        ENode::Or(a, b) => vals[a as int] || vals[b as int],
        ENode::Not(a) => !vals[a as int],
        ENode::Implies(a, b) => !vals[a as int] || vals[b as int],
        ENode::Let(a, b) => vals[a as int] == vals[b as int],
        ENode::Concat(a, b) => vals[a as int] && !vals[b as int],
    }
}

/// The graph is semantically coherent under `env`: the table `vals` gives each
/// class one truth value that every member node agrees with.
pub open spec fn sound_graph(g: EGraph, env: Map<Seq<char>, bool>, vals: Seq<bool>) -> bool {
    vals.len() == g.classes@.len() && forall|c: int, j: int|
        0 <= c < g.classes@.len() && 0 <= j < g.classes@[c].nodes@.len() ==> node_eval(
            #[trigger] g.classes@[c].nodes@[j],
            env,
            vals,
        ) == vals[c]
}

/// In a coherent graph, every expression a class contains evaluates to that
/// class's truth value.
pub proof fn lemma_represents_eval(
    g: EGraph,
    env: Map<Seq<char>, bool>,
    vals: Seq<bool>,
    c: int,
    e: Expr,
)
    requires
        sound_graph(g, env, vals),
        represents(g, c, e),
    ensures
        eval(e, env) == vals[c],
    decreases e,
{
    let nodes = g.classes@[c].nodes@;
    match e {
        Expr::Bool(v) => {
            let j = choose|j: int| 0 <= j < nodes.len() && nodes[j] == ENode::Bool(v);
            assert(node_eval(nodes[j], env, vals) == vals[c]);
        },
        Expr::Symbol(s) => {
            let j = choose|j: int| 0 <= j < nodes.len() && node_is_symbol(nodes[j], s@);
            assert(node_eval(nodes[j], env, vals) == vals[c]);
        },
        Expr::Not(a) => {
            let i = choose|i: usize|
                #[trigger] nodes.contains(ENode::Not(i)) && represents(g, i as int, *a);
            lemma_represents_eval(g, env, vals, i as int, *a);
            let j = choose|j: int| 0 <= j < nodes.len() && nodes[j] == ENode::Not(i);
            assert(node_eval(nodes[j], env, vals) == vals[c]);
        },
        Expr::And(a, b) => {
            let (i, k) = choose|i: usize, k: usize|
                #[trigger] nodes.contains(ENode::And(i, k)) && represents(g, i as int, *a)
                    && represents(g, k as int, *b);
            lemma_represents_eval(g, env, vals, i as int, *a);
            lemma_represents_eval(g, env, vals, k as int, *b);
            let j = choose|j: int| 0 <= j < nodes.len() && nodes[j] == ENode::And(i, k);
            assert(node_eval(nodes[j], env, vals) == vals[c]);
        },
        Expr::Or(a, b) => {
            let (i, k) = choose|i: usize, k: usize|
                #[trigger] nodes.contains(ENode::Or(i, k)) && represents(g, i as int, *a)
                    && represents(g, k as int, *b);
            lemma_represents_eval(g, env, vals, i as int, *a);
            lemma_represents_eval(g, env, vals, k as int, *b);
            let j = choose|j: int| 0 <= j < nodes.len() && nodes[j] == ENode::Or(i, k);
            assert(node_eval(nodes[j], env, vals) == vals[c]);
        },
        Expr::Implies(a, b) => {
            let (i, k) = choose|i: usize, k: usize|
                #[trigger] nodes.contains(ENode::Implies(i, k)) && represents(g, i as int, *a)
                    && represents(g, k as int, *b);
            lemma_represents_eval(g, env, vals, i as int, *a);
            lemma_represents_eval(g, env, vals, k as int, *b);
            let j = choose|j: int| 0 <= j < nodes.len() && nodes[j] == ENode::Implies(i, k);
            assert(node_eval(nodes[j], env, vals) == vals[c]);
        },
        Expr::Let(a, b) => {
            let (i, k) = choose|i: usize, k: usize|
                #[trigger] nodes.contains(ENode::Let(i, k)) && represents(g, i as int, *a)
                    && represents(g, k as int, *b);
            lemma_represents_eval(g, env, vals, i as int, *a);
            lemma_represents_eval(g, env, vals, k as int, *b);
            let j = choose|j: int| 0 <= j < nodes.len() && nodes[j] == ENode::Let(i, k);
            assert(node_eval(nodes[j], env, vals) == vals[c]);
        },
        Expr::Concat(a, b) => {
            let (i, k) = choose|i: usize, k: usize|
                #[trigger] nodes.contains(ENode::Concat(i, k)) && represents(g, i as int, *a)
                    && represents(g, k as int, *b);
            lemma_represents_eval(g, env, vals, i as int, *a);
            lemma_represents_eval(g, env, vals, k as int, *b);
            let j = choose|j: int| 0 <= j < nodes.len() && nodes[j] == ENode::Concat(i, k);
            assert(node_eval(nodes[j], env, vals) == vals[c]);
        },
    }
}

/// Extraction validity: in a coherent graph, any two expressions that one
/// class contains — in particular the input and anything extracted for the
/// root — have the same truth value under every assignment.
pub proof fn lemma_extraction_valid(
    g: EGraph,
    env: Map<Seq<char>, bool>,
    vals: Seq<bool>,
    root: int,
    a: Expr,
    b: Expr,
)
    requires
        sound_graph(g, env, vals),
        represents(g, root, a),
        represents(g, root, b),
    ensures
        eval(a, env) == eval(b, env),
{
    lemma_represents_eval(g, env, vals, root, a);
    lemma_represents_eval(g, env, vals, root, b);
}

/// All of the node's children already have a resolved cost.
pub open spec fn resolvable(n: ENode, costs: Seq<Option<usize>>) -> bool {
    match n {
        ENode::Bool(_) => true,
        ENode::Symbol(_) => true,
        ENode::Not(a) => costs[a as int] is Some,
        ENode::And(a, b) => costs[a as int] is Some && costs[b as int] is Some,
        ENode::Or(a, b) => costs[a as int] is Some && costs[b as int] is Some,
        ENode::Implies(a, b) => costs[a as int] is Some && costs[b as int] is Some,
        ENode::Let(a, b) => costs[a as int] is Some && costs[b as int] is Some,
        ENode::Concat(a, b) => costs[a as int] is Some && costs[b as int] is Some,
    }
}

/// A resolved cost, zero when still unresolved.
pub open spec fn cval(o: Option<usize>) -> int {
    match o {
        Option::Some(k) => k as int,
        Option::None => 0,
    }
}

/// The node's cost from its children's resolved costs.
pub open spec fn node_cost(cf: CostFn, n: ENode, costs: Seq<Option<usize>>) -> int {
    match n {
        ENode::Bool(_) => cost_leaf(cf),
        ENode::Symbol(_) => cost_leaf(cf),
        ENode::Not(a) => cost_unary(cf, cval(costs[a as int])),
        ENode::And(a, b) => cost_binary(cf, cval(costs[a as int]), cval(costs[b as int])),
        ENode::Or(a, b) => cost_binary(cf, cval(costs[a as int]), cval(costs[b as int])),
        ENode::Implies(a, b) => cost_binary(cf, cval(costs[a as int]), cval(costs[b as int])),
        ENode::Let(a, b) => cost_binary(cf, cval(costs[a as int]), cval(costs[b as int])),
        ENode::Concat(a, b) => cost_binary(cf, cval(costs[a as int]), cval(costs[b as int])),
    }
}

/// Cost monotonicity at the graph: a resolvable node's cost is at least each
/// child's resolved cost, under every metric.
pub proof fn lemma_node_cost_monotone(cf: CostFn, n: ENode, costs: Seq<Option<usize>>, a: int)
    requires
        0 <= a < costs.len(),
        resolvable(n, costs),
        match n {
            ENode::Not(x) => a == x,
            ENode::And(x, y) => a == x || a == y,
            ENode::Or(x, y) => a == x || a == y,
            ENode::Implies(x, y) => a == x || a == y,
            ENode::Let(x, y) => a == x || a == y,
            ENode::Concat(x, y) => a == x || a == y,
            _ => false,
        },
    ensures
        cval(costs[a]) <= node_cost(cf, n, costs) <= usize::MAX,
{
    match n {
        ENode::Not(x) => {
            lemma_cost_monotone(cf, cval(costs[x as int]), 0);
        },
        ENode::And(x, y) => {
            lemma_cost_monotone(cf, cval(costs[x as int]), cval(costs[y as int]));
        },
        ENode::Or(x, y) => {
            lemma_cost_monotone(cf, cval(costs[x as int]), cval(costs[y as int]));
        },
        ENode::Implies(x, y) => {
            lemma_cost_monotone(cf, cval(costs[x as int]), cval(costs[y as int]));
        },
        ENode::Let(x, y) => {
            lemma_cost_monotone(cf, cval(costs[x as int]), cval(costs[y as int]));
        },
        ENode::Concat(x, y) => {
            lemma_cost_monotone(cf, cval(costs[x as int]), cval(costs[y as int]));
        },
        _ => {},
    }
}

/// One table entry improves on another: a resolved cost never disappears and
/// never grows.
pub open spec fn imp_le(a: Option<usize>, b: Option<usize>) -> bool {
    match b {
        Option::None => true,
        Option::Some(k) => match a {
            Option::Some(k2) => k2 <= k,
            Option::None => false,
        },
    }
}

/// The whole table improves pointwise.
pub open spec fn improved(s1: Seq<Option<usize>>, s2: Seq<Option<usize>>) -> bool {
    s1.len() == s2.len() && forall|i: int| 0 <= i < s1.len() ==> imp_le(#[trigger] s1[i], s2[i])
}

/// A node that was resolvable stays resolvable when the table improves, and
/// its cost never grows.
proof fn lemma_node_cost_improved(
    cf: CostFn,
    n: ENode,
    s1: Seq<Option<usize>>,
    s2: Seq<Option<usize>>,
)
    requires
        improved(s1, s2),
        wf_node(n, s1.len() as int),
        resolvable(n, s2),
    ensures
        resolvable(n, s1),
        node_cost(cf, n, s1) <= node_cost(cf, n, s2),
{
    match n {
        ENode::Bool(_) => {},
        ENode::Symbol(_) => {},
        ENode::Not(a) => {
            assert(imp_le(s1[a as int], s2[a as int]));
            lemma_cost_child_monotone(cf, cval(s1[a as int]), cval(s2[a as int]), 0, 0);
        },
        ENode::And(a, b) => {
            assert(imp_le(s1[a as int], s2[a as int]));
            assert(imp_le(s1[b as int], s2[b as int]));
            lemma_cost_child_monotone(
                cf,
                cval(s1[a as int]),
                cval(s2[a as int]),
                cval(s1[b as int]),
                cval(s2[b as int]),
            );
        },
        ENode::Or(a, b) => {
            assert(imp_le(s1[a as int], s2[a as int]));
            assert(imp_le(s1[b as int], s2[b as int]));
            lemma_cost_child_monotone(
                cf,
                cval(s1[a as int]),
                cval(s2[a as int]),
                cval(s1[b as int]),
                cval(s2[b as int]),
            );
        },
        ENode::Implies(a, b) => {
            assert(imp_le(s1[a as int], s2[a as int]));
            assert(imp_le(s1[b as int], s2[b as int]));
            lemma_cost_child_monotone(
                cf,
                cval(s1[a as int]),
                cval(s2[a as int]),
                cval(s1[b as int]),
                cval(s2[b as int]),
            );
        },
        ENode::Let(a, b) => {
            assert(imp_le(s1[a as int], s2[a as int]));
            assert(imp_le(s1[b as int], s2[b as int]));
            lemma_cost_child_monotone(
                cf,
                cval(s1[a as int]),
                cval(s2[a as int]),
                cval(s1[b as int]),
                cval(s2[b as int]),
            );
        },
        ENode::Concat(a, b) => {
            assert(imp_le(s1[a as int], s2[a as int]));
            assert(imp_le(s1[b as int], s2[b as int]));
            lemma_cost_child_monotone(
                cf,
                cval(s1[a as int]),
                cval(s2[a as int]),
                cval(s1[b as int]),
                cval(s2[b as int]),
            );
        },
    }
}

/// The extractor's working state is consistent: wherever a class has a
/// resolved cost, a chosen member node realizes at most that cost.
pub open spec fn rec_ok(
    g: EGraph,
    cf: CostFn,
    costs: Seq<Option<usize>>,
    best: Seq<Option<usize>>,
    c: int,
) -> bool {
    match costs[c] {
        Option::None => best[c] is None,
        Option::Some(k) => match best[c] {
            Option::Some(j) => (j as int) < g.classes@[c].nodes@.len() && resolvable(
                g.classes@[c].nodes@[j as int],
                costs,
            ) && node_cost(cf, g.classes@[c].nodes@[j as int], costs) <= k as int,
            Option::None => false,
        },
    }
}

/// The working state is consistent for every class.
pub open spec fn costs_ok(
    g: EGraph,
    cf: CostFn,
    costs: Seq<Option<usize>>,
    best: Seq<Option<usize>>,
) -> bool {
    &&& costs.len() == g.classes@.len()
    &&& best.len() == g.classes@.len()
    &&& forall|c: int| 0 <= c < costs.len() ==> #[trigger] rec_ok(g, cf, costs, best, c)
}

/// No class below `upto` can still improve: every resolvable member node costs
/// at least the class's resolved cost.
pub open spec fn fixpoint_upto(
    g: EGraph,
    cf: CostFn,
    costs: Seq<Option<usize>>,
    upto: int,
) -> bool {
    forall|c: int, j: int|
        0 <= c < upto && 0 <= j < g.classes@[c].nodes@.len() && resolvable(
            #[trigger] g.classes@[c].nodes@[j],
            costs,
        ) ==> costs[c] is Some && cval(costs[c]) <= node_cost(cf, g.classes@[c].nodes@[j], costs)
}

/// No class at all can still improve.
pub open spec fn at_fixpoint(g: EGraph, cf: CostFn, costs: Seq<Option<usize>>) -> bool {
    fixpoint_upto(g, cf, costs, g.classes@.len() as int)
}

/// Number of unresolved classes.
pub open spec fn none_count(s: Seq<Option<usize>>) -> int
    decreases s.len(),
{
    if s.len() == 0 {
        0
    } else {
        (if s[0] is None {
            1int
        } else {
            0int
        }) + none_count(s.drop_first())
    }
}

/// Sum of the resolved costs.
pub open spec fn sum_costs(s: Seq<Option<usize>>) -> int
    decreases s.len(),
{
    if s.len() == 0 {
        0
    } else {
        cval(s[0]) + sum_costs(s.drop_first())
    }
}

/// The pair (unresolved count, resolved sum) shrinks lexicographically.
pub open spec fn lex_lt(s1: Seq<Option<usize>>, s2: Seq<Option<usize>>) -> bool {
    none_count(s1) < none_count(s2) || (none_count(s1) == none_count(s2) && sum_costs(s1)
        < sum_costs(s2))
}

/// Both measures are non-negative.
proof fn lemma_measure_nonneg(s: Seq<Option<usize>>)
    ensures
        0 <= none_count(s) <= s.len(),
        0 <= sum_costs(s),
    decreases s.len(),
{
    if s.len() > 0 {
        lemma_measure_nonneg(s.drop_first());
    }
}

/// How one table update moves the two measures.
proof fn lemma_measure_update(s: Seq<Option<usize>>, i: int, v: Option<usize>)
    requires
        0 <= i < s.len(),
    ensures
        none_count(s.update(i, v)) == none_count(s) - (if s[i] is None {
            1int
        } else {
            0int
        }) + (if v is None {
            1int
        } else {
            0int
        }),
        sum_costs(s.update(i, v)) == sum_costs(s) - cval(s[i]) + cval(v),
    decreases s.len(),
{
    if i == 0 {
        assert(s.update(0, v).drop_first() =~= s.drop_first());
    } else {
        assert(s.update(i, v).drop_first() =~= s.drop_first().update(i - 1, v));
        lemma_measure_update(s.drop_first(), i - 1, v);
    }
}

/// Resolve one node's cost; nothing when a child is still unresolved.
fn node_total_cost(cf: CostFn, n: &ENode, costs: &Vec<Option<usize>>) -> (r: Option<usize>)
    requires
        wf_node(*n, costs@.len() as int),
    ensures
        r is Some <==> resolvable(*n, costs@),
        r matches Some(k) ==> k as int == node_cost(cf, *n, costs@),
{
    match n {
        ENode::Bool(_) => Some(1),
        ENode::Symbol(_) => Some(1),
        ENode::Not(a) => match costs[*a] {
            Some(ca) => Some(node_cost_unary(cf, ca)),
            None => None,
        },
        ENode::And(a, b) => match (costs[*a], costs[*b]) {
            (Some(ca), Some(cb)) => Some(node_cost_binary(cf, ca, cb)),
            _ => None,
        },
        ENode::Or(a, b) => match (costs[*a], costs[*b]) {
            (Some(ca), Some(cb)) => Some(node_cost_binary(cf, ca, cb)),
            _ => None,
        },
        ENode::Implies(a, b) => match (costs[*a], costs[*b]) {
            (Some(ca), Some(cb)) => Some(node_cost_binary(cf, ca, cb)),
            _ => None,
        },
        ENode::Let(a, b) => match (costs[*a], costs[*b]) {
            (Some(ca), Some(cb)) => Some(node_cost_binary(cf, ca, cb)),
            _ => None,
        },
        ENode::Concat(a, b) => match (costs[*a], costs[*b]) {
            (Some(ca), Some(cb)) => Some(node_cost_binary(cf, ca, cb)),
            _ => None,
        },
    }
}

/// One sweep over all classes: resolve each class's cheapest member node (coin
/// flips break exact ties) and record it when it beats the class's current
/// cost. Reports whether anything improved; when nothing did, the table is at
/// a fixpoint and was left untouched.
fn pass(g: &EGraph, cf: CostFn, costs: &mut Vec<Option<usize>>, best: &mut Vec<Option<usize>>) -> (changed:
    bool)
    requires
        wf_graph(*g),
        costs_ok(*g, cf, old(costs)@, old(best)@),
    ensures
        costs_ok(*g, cf, final(costs)@, final(best)@),
        improved(final(costs)@, old(costs)@),
        !changed ==> final(costs)@ == old(costs)@ && at_fixpoint(*g, cf, final(costs)@),
        changed ==> lex_lt(final(costs)@, old(costs)@),
{
    let ghost costs0 = costs@;
    let mut changed = false;
    let n = g.classes.len();
    let mut c: usize = 0;
    while c < n
        invariant
            wf_graph(*g),
            n == g.classes@.len(),
            c <= n,
            costs_ok(*g, cf, costs@, best@),
            improved(costs@, costs0),
            !changed ==> costs@ == costs0 && fixpoint_upto(*g, cf, costs@, c as int),
            changed ==> lex_lt(costs@, costs0),
        decreases n - c,
    {
        let nodes_len = g.classes[c].nodes.len();
        let mut cur: Option<(usize, usize)> = None;
        let mut j: usize = 0;
        while j < nodes_len
            invariant
                wf_graph(*g),
                n == g.classes@.len(),
                c < n,
                costs@.len() == n,
                nodes_len == g.classes@[c as int].nodes@.len(),
                j <= nodes_len,
                cur matches Some((k, bj)) ==> (bj as int) < nodes_len && resolvable(
                    g.classes@[c as int].nodes@[bj as int],
                    costs@,
                ) && k as int == node_cost(cf, g.classes@[c as int].nodes@[bj as int], costs@),
                cur matches Some((k, bj)) ==> forall|j2: int|
                    0 <= j2 < j && resolvable(
                        #[trigger] g.classes@[c as int].nodes@[j2],
                        costs@,
                    ) ==> k as int <= node_cost(cf, g.classes@[c as int].nodes@[j2], costs@),
                cur is None ==> forall|j2: int|
                    0 <= j2 < j ==> !resolvable(#[trigger] g.classes@[c as int].nodes@[j2], costs@),
            decreases nodes_len - j,
        {
            let node = &g.classes[c].nodes[j];
            proof {
                assert(wf_node(g.classes@[c as int].nodes@[j as int], n as int));
            }
            let k_opt = node_total_cost(cf, node, costs);
            match k_opt {
                Some(k) => {
                    match cur {
                        None => {
                            cur = Some((k, j));
                        },
                        Some((bk, bj)) => {
                            if k < bk {
                                cur = Some((k, j));
                            } else if k == bk {
                                if coin() {
                                    cur = Some((k, j));
                                } else {
                                    cur = Some((bk, bj));
                                }
                            } else {
                                cur = Some((bk, bj));
                            }
                        },
                    }
                },
                None => {},
            }
            j = j + 1;
        }
        match cur {
            Some((k, bj)) => {
                let better = match costs[c] {
                    None => true,
                    Some(old_cost) => k < old_cost,
                };
                if better {
                    let ghost pre = costs@;
                    let ghost pre_best = best@;
                    proof {
                        lemma_measure_update(costs@, c as int, Some(k));
                    }
                    costs.set(c, Some(k));
                    best.set(c, Some(bj));
                    changed = true;
                    proof {
                        assert(improved(costs@, pre)) by {
                            assert forall|i: int| 0 <= i < costs@.len() implies imp_le(
                                #[trigger] costs@[i],
                                pre[i],
                            ) by {}
                        };
                        // each class's chosen node stays resolvable and no dearer
                        assert forall|c2: int| 0 <= c2 < costs@.len() implies #[trigger] rec_ok(
                            *g,
                            cf,
                            costs@,
                            best@,
                            c2,
                        ) by {
                            if c2 == c as int {
                                assert(wf_node(g.classes@[c2].nodes@[bj as int], n as int));
                                lemma_node_cost_improved(
                                    cf,
                                    g.classes@[c2].nodes@[bj as int],
                                    costs@,
                                    pre,
                                );
                            } else {
                                assert(rec_ok(*g, cf, pre, pre_best, c2));
                                assert(best@[c2] == pre_best[c2]);
                                if pre[c2] is Some {
                                    let jj = pre_best[c2]->Some_0;
                                    assert(wf_node(g.classes@[c2].nodes@[jj as int], n as int));
                                    lemma_node_cost_improved(
                                        cf,
                                        g.classes@[c2].nodes@[jj as int],
                                        costs@,
                                        pre,
                                    );
                                }
                            }
                        };
                        assert(improved(costs@, costs0)) by {
                            assert forall|i: int| 0 <= i < costs@.len() implies imp_le(
                                #[trigger] costs@[i],
                                costs0[i],
                            ) by {
                                assert(imp_le(pre[i], costs0[i]));
                                assert(imp_le(costs@[i], pre[i]));
                            };
                        };
                    }
                }
            },
            None => {},
        }
        proof {
            if !changed {
                // nothing was recorded for this class either, so every
                // resolvable member node already costs at least the record
                assert(costs@ == costs0);
                assert forall|c2: int, j2: int|
                    0 <= c2 < c as int + 1 && 0 <= j2 < g.classes@[c2].nodes@.len() && resolvable(
                        #[trigger] g.classes@[c2].nodes@[j2],
                        costs@,
                    ) implies costs@[c2] is Some && cval(costs@[c2]) <= node_cost(
                    cf,
                    g.classes@[c2].nodes@[j2],
                    costs@,
                ) by {
                    if c2 == c as int {
                        match cur {
                            Option::None => {
                                assert(!resolvable(g.classes@[c2].nodes@[j2], costs@));
                            },
                            Option::Some((k, bj)) => {
                                assert(k as int <= node_cost(cf, g.classes@[c2].nodes@[j2], costs@));
                            },
                        }
                    }
                };
                assert(fixpoint_upto(*g, cf, costs@, c as int + 1));
            }
        }
        c = c + 1;
    }
    changed
}

/// Extract one minimum-cost representative of the root class. The returned
/// cost is exactly the least cost of any expression the root class contains,
/// and the returned expression is one of the containing expressions that
/// realizes it; which one may differ from run to run on exact ties. Nothing is
/// returned only when the root class contains nothing, or costs saturate.
pub fn extract(g: &EGraph, root: usize, cf: CostFn) -> (r: Option<(usize, Expr)>)
    requires
        wf_graph(*g),
        (root as int) < g.classes@.len(),
    ensures
        r matches Some(p) ==> represents(*g, root as int, p.1) && expr_cost(cf, p.1) == p.0 as int
            && forall|e2: Expr| represents(*g, root as int, e2) ==> p.0 as int <= expr_cost(cf, e2),
        r is None ==> forall|e2: Expr|
            represents(*g, root as int, e2) ==> expr_cost(cf, e2) == usize::MAX as int,
{
    let n = g.classes.len();
    let mut costs: Vec<Option<usize>> = Vec::new();
    let mut best: Vec<Option<usize>> = Vec::new();
    while costs.len() < n
        invariant
            costs@.len() == best@.len() <= n,
            forall|i: int| 0 <= i < costs@.len() ==> costs@[i] is None && best@[i] is None,
        decreases n - costs@.len(),
    {
        costs.push(None);
        best.push(None);
    }
    let mut changed = true;
    while changed
        invariant
            wf_graph(*g),
            n == g.classes@.len(),
            costs_ok(*g, cf, costs@, best@),
            !changed ==> at_fixpoint(*g, cf, costs@),
        decreases
                none_count(costs@),
                sum_costs(costs@),
                (if changed {
                    1int
                } else {
                    0int
                }),
    {
        proof {
            lemma_measure_nonneg(costs@);
        }
        changed = pass(g, cf, &mut costs, &mut best);
        proof {
            lemma_measure_nonneg(costs@);
        }
    }
    let root_cost = costs[root];
    match root_cost {
        None => {
            proof {
                assert forall|e2: Expr| represents(*g, root as int, e2) implies expr_cost(cf, e2)
                    == usize::MAX as int by {
                    lemma_repr_min(*g, cf, costs@, root as int, e2);
                };
            }
            None
        },
        Some(k) => {
            if k == usize::MAX {
                proof {
                    assert forall|e2: Expr| represents(*g, root as int, e2) implies expr_cost(
                        cf,
                        e2,
                    ) == usize::MAX as int by {
                        lemma_repr_min(*g, cf, costs@, root as int, e2);
                        lemma_expr_cost_bounds(cf, e2);
                    };
                }
                None
            } else {
                let e = build_best(g, cf, &costs, &best, root);
                proof {
                    assert forall|e2: Expr| represents(*g, root as int, e2) implies k as int
                        <= expr_cost(cf, e2) by {
                        lemma_repr_min(*g, cf, costs@, root as int, e2);
                    };
                }
                Some((k, e))
            }
        },
    }
}

/// At a fixpoint, a class's resolved cost bounds the cost of every expression
/// the class contains: extraction never regresses past any contained form.
pub proof fn lemma_repr_min(g: EGraph, cf: CostFn, costs: Seq<Option<usize>>, c: int, e: Expr)
    requires
        wf_graph(g),
        costs.len() == g.classes@.len(),
        at_fixpoint(g, cf, costs),
        represents(g, c, e),
    ensures
        costs[c] is Some,
        cval(costs[c]) <= expr_cost(cf, e),
    decreases e,
{
    let nodes = g.classes@[c].nodes@;
    match e {
        Expr::Bool(v) => {
            let j = choose|j: int| 0 <= j < nodes.len() && nodes[j] == ENode::Bool(v);
            assert(resolvable(nodes[j], costs));
        },
        Expr::Symbol(s) => {
            let j = choose|j: int| 0 <= j < nodes.len() && node_is_symbol(nodes[j], s@);
            assert(resolvable(nodes[j], costs));
        },
        Expr::Not(a) => {
            let i = choose|i: usize|
                #[trigger] nodes.contains(ENode::Not(i)) && represents(g, i as int, *a);
            lemma_repr_min(g, cf, costs, i as int, *a);
            lemma_expr_cost_bounds(cf, *a);
            let j = choose|j: int| 0 <= j < nodes.len() && nodes[j] == ENode::Not(i);
            assert(resolvable(nodes[j], costs));
            lemma_cost_child_monotone(cf, cval(costs[i as int]), expr_cost(cf, *a), 0, 0);
        },
        Expr::And(a, b) => {
            let (i, k) = choose|i: usize, k: usize|
                #[trigger] nodes.contains(ENode::And(i, k)) && represents(g, i as int, *a)
                    && represents(g, k as int, *b);
            lemma_repr_min(g, cf, costs, i as int, *a);
            lemma_repr_min(g, cf, costs, k as int, *b);
            lemma_expr_cost_bounds(cf, *a);
            lemma_expr_cost_bounds(cf, *b);
            let j = choose|j: int| 0 <= j < nodes.len() && nodes[j] == ENode::And(i, k);
            assert(resolvable(nodes[j], costs));
            lemma_cost_child_monotone(
                cf,
                cval(costs[i as int]),
                expr_cost(cf, *a),
                cval(costs[k as int]),
                expr_cost(cf, *b),
            );
        },
        Expr::Or(a, b) => {
            let (i, k) = choose|i: usize, k: usize|
                #[trigger] nodes.contains(ENode::Or(i, k)) && represents(g, i as int, *a)
                    && represents(g, k as int, *b);
            lemma_repr_min(g, cf, costs, i as int, *a);
            lemma_repr_min(g, cf, costs, k as int, *b);
            lemma_expr_cost_bounds(cf, *a);
            lemma_expr_cost_bounds(cf, *b);
            let j = choose|j: int| 0 <= j < nodes.len() && nodes[j] == ENode::Or(i, k);
            assert(resolvable(nodes[j], costs));
            lemma_cost_child_monotone(
                cf,
                cval(costs[i as int]),
                expr_cost(cf, *a),
                cval(costs[k as int]),
                expr_cost(cf, *b),
            );
        },
        Expr::Implies(a, b) => {
            let (i, k) = choose|i: usize, k: usize|
                #[trigger] nodes.contains(ENode::Implies(i, k)) && represents(g, i as int, *a)
                    && represents(g, k as int, *b);
            lemma_repr_min(g, cf, costs, i as int, *a);
            lemma_repr_min(g, cf, costs, k as int, *b);
            lemma_expr_cost_bounds(cf, *a);
            lemma_expr_cost_bounds(cf, *b);
            let j = choose|j: int| 0 <= j < nodes.len() && nodes[j] == ENode::Implies(i, k);
            assert(resolvable(nodes[j], costs));
            lemma_cost_child_monotone(
                cf,
                cval(costs[i as int]),
                expr_cost(cf, *a),
                cval(costs[k as int]),
                expr_cost(cf, *b),
            );
        },
        Expr::Let(a, b) => {
            let (i, k) = choose|i: usize, k: usize|
                #[trigger] nodes.contains(ENode::Let(i, k)) && represents(g, i as int, *a)
                    && represents(g, k as int, *b);
            lemma_repr_min(g, cf, costs, i as int, *a);
            lemma_repr_min(g, cf, costs, k as int, *b);
            lemma_expr_cost_bounds(cf, *a);
            lemma_expr_cost_bounds(cf, *b);
            let j = choose|j: int| 0 <= j < nodes.len() && nodes[j] == ENode::Let(i, k);
            assert(resolvable(nodes[j], costs));
            lemma_cost_child_monotone(
                cf,
                cval(costs[i as int]),
                expr_cost(cf, *a),
                cval(costs[k as int]),
                expr_cost(cf, *b),
            );
        },
        Expr::Concat(a, b) => {
            let (i, k) = choose|i: usize, k: usize|
                #[trigger] nodes.contains(ENode::Concat(i, k)) && represents(g, i as int, *a)
                    && represents(g, k as int, *b);
            lemma_repr_min(g, cf, costs, i as int, *a);
            lemma_repr_min(g, cf, costs, k as int, *b);
            lemma_expr_cost_bounds(cf, *a);
            lemma_expr_cost_bounds(cf, *b);
            let j = choose|j: int| 0 <= j < nodes.len() && nodes[j] == ENode::Concat(i, k);
            assert(resolvable(nodes[j], costs));
            lemma_cost_child_monotone(
                cf,
                cval(costs[i as int]),
                expr_cost(cf, *a),
                cval(costs[k as int]),
                expr_cost(cf, *b),
            );
        },
    }
}

/// Read the chosen representative off the fixpoint tables, from class `c` down.
fn build_best(
    g: &EGraph,
    cf: CostFn,
    costs: &Vec<Option<usize>>,
    best: &Vec<Option<usize>>,
    c: usize,
) -> (e: Expr)
    requires
        wf_graph(*g),
        costs_ok(*g, cf, costs@, best@),
        at_fixpoint(*g, cf, costs@),
        (c as int) < g.classes@.len(),
        costs@[c as int] is Some,
        cval(costs@[c as int]) < usize::MAX,
    ensures
        represents(*g, c as int, e),
        expr_cost(cf, e) == cval(costs@[c as int]),
    decreases cval(costs@[c as int]),
{
    proof {
        assert(rec_ok(*g, cf, costs@, best@, c as int));
    }
    let j = match best[c] {
        Some(j) => j,
        None => {
            proof {
                assert(false);
            }
            0
        },
    };
    let ghost k = cval(costs@[c as int]);
    proof {
        // at the fixpoint, the chosen node realizes the cost exactly
        assert(node_cost(cf, g.classes@[c as int].nodes@[j as int], costs@) == k);
    }
    let node = &g.classes[c].nodes[j];
    match node {
        ENode::Bool(v) => {
            let e = Expr::Bool(*v);
            proof {
                assert(g.classes@[c as int].nodes@.contains(ENode::Bool(*v)));
            }
            e
        },
        ENode::Symbol(s) => {
            let e = Expr::Symbol(s.clone());
            proof {
                assert(node_is_symbol(g.classes@[c as int].nodes@[j as int], s@));
            }
            e
        },
        ENode::Not(a) => {
            proof {
                assert(cost_binary(cf, cval(costs@[*a as int]), 0) == cost_unary(
                    cf,
                    cval(costs@[*a as int]),
                ));
                lemma_cost_children_lt(cf, cval(costs@[*a as int]), 0, k);
            }
            let ea = build_best(g, cf, costs, best, *a);
            let e = Expr::Not(Box::new(ea));
            proof {
                assert(g.classes@[c as int].nodes@.contains(ENode::Not(*a)));
            }
            e
        },
        ENode::And(a, b) => {
            proof {
                lemma_cost_children_lt(cf, cval(costs@[*a as int]), cval(costs@[*b as int]), k);
            }
            let ea = build_best(g, cf, costs, best, *a);
            let eb = build_best(g, cf, costs, best, *b);
            let e = Expr::And(Box::new(ea), Box::new(eb));
            proof {
                assert(g.classes@[c as int].nodes@.contains(ENode::And(*a, *b)));
            }
            e
        },
        ENode::Or(a, b) => {
            proof {
                lemma_cost_children_lt(cf, cval(costs@[*a as int]), cval(costs@[*b as int]), k);
            }
            let ea = build_best(g, cf, costs, best, *a);
            let eb = build_best(g, cf, costs, best, *b);
            let e = Expr::Or(Box::new(ea), Box::new(eb));
            proof {
                assert(g.classes@[c as int].nodes@.contains(ENode::Or(*a, *b)));
            }
            e
        },
        ENode::Implies(a, b) => {
            proof {
                lemma_cost_children_lt(cf, cval(costs@[*a as int]), cval(costs@[*b as int]), k);
            }
            let ea = build_best(g, cf, costs, best, *a);
            let eb = build_best(g, cf, costs, best, *b);
            let e = Expr::Implies(Box::new(ea), Box::new(eb));
            proof {
                assert(g.classes@[c as int].nodes@.contains(ENode::Implies(*a, *b)));
            }
            e
        },
        ENode::Let(a, b) => {
            proof {
                lemma_cost_children_lt(cf, cval(costs@[*a as int]), cval(costs@[*b as int]), k);
            }
            let ea = build_best(g, cf, costs, best, *a);
            let eb = build_best(g, cf, costs, best, *b);
            let e = Expr::Let(Box::new(ea), Box::new(eb));
            proof {
                assert(g.classes@[c as int].nodes@.contains(ENode::Let(*a, *b)));
            }
            e
        },
        ENode::Concat(a, b) => {
            proof {
                lemma_cost_children_lt(cf, cval(costs@[*a as int]), cval(costs@[*b as int]), k);
            }
            let ea = build_best(g, cf, costs, best, *a);
            let eb = build_best(g, cf, costs, best, *b);
            let e = Expr::Concat(Box::new(ea), Box::new(eb));
            proof {
                assert(g.classes@[c as int].nodes@.contains(ENode::Concat(*a, *b)));
            }
            e
        },
    }
}


/// Every class holds exactly one member node: the graph of an expression to
/// which no rewrite applied.
pub open spec fn singleton_classes(g: EGraph) -> bool {
    forall|c: int| 0 <= c < g.classes@.len() ==> #[trigger] g.classes@[c].nodes@.len() == 1
}

/// The shape an expression must take to live in a singleton class: it carries
/// the lone node's head, and its children live in the node's child classes.
pub open spec fn unique_shape(g: EGraph, n: ENode, x: Expr) -> bool {
    match n {
        ENode::Bool(v) => x == Expr::Bool(v),
        ENode::Symbol(s) => match x {
            Expr::Symbol(t) => t@ == s@,
            _ => false,
        },
        ENode::Not(i) => match x {
            Expr::Not(xa) => represents(g, i as int, *xa),
            _ => false,
        },
        ENode::And(i, j) => match x {
            Expr::And(xa, xb) => represents(g, i as int, *xa) && represents(g, j as int, *xb),
            _ => false,
        },
        ENode::Or(i, j) => match x {
            Expr::Or(xa, xb) => represents(g, i as int, *xa) && represents(g, j as int, *xb),
            _ => false,
        },
        ENode::Implies(i, j) => match x {
            Expr::Implies(xa, xb) => represents(g, i as int, *xa) && represents(g, j as int, *xb),
            _ => false,
        },
        ENode::Let(i, j) => match x {
            Expr::Let(xa, xb) => represents(g, i as int, *xa) && represents(g, j as int, *xb),
            _ => false,
        },
        ENode::Concat(i, j) => match x {
            Expr::Concat(xa, xb) => represents(g, i as int, *xa) && represents(g, j as int, *xb),
            _ => false,
        },
    }
}

/// In a singleton class, anything the class contains takes the lone node's shape.
proof fn lemma_repr_shape(g: EGraph, c: int, x: Expr)
    requires
        singleton_classes(g),
        represents(g, c, x),
    ensures
        unique_shape(g, g.classes@[c].nodes@[0], x),
{
    let nodes = g.classes@[c].nodes@;
    match x {
        Expr::Bool(v) => {
            let idx = choose|idx: int| 0 <= idx < nodes.len() && nodes[idx] == ENode::Bool(v);
            assert(idx == 0);
        },
        Expr::Symbol(s) => {
            let idx = choose|idx: int| 0 <= idx < nodes.len() && node_is_symbol(nodes[idx], s@);
            assert(idx == 0);
        },
        Expr::Not(xa) => {
            let i = choose|i: usize|
                #[trigger] nodes.contains(ENode::Not(i)) && represents(g, i as int, *xa);
            let idx = choose|idx: int| 0 <= idx < nodes.len() && nodes[idx] == ENode::Not(i);
            assert(idx == 0);
        },
        Expr::And(xa, xb) => {
            let (i, k) = choose|i: usize, k: usize|
                #[trigger] nodes.contains(ENode::And(i, k)) && represents(g, i as int, *xa)
                    && represents(g, k as int, *xb);
            let idx = choose|idx: int| 0 <= idx < nodes.len() && nodes[idx] == ENode::And(i, k);
            assert(idx == 0);
        },
        Expr::Or(xa, xb) => {
            let (i, k) = choose|i: usize, k: usize|
                #[trigger] nodes.contains(ENode::Or(i, k)) && represents(g, i as int, *xa)
                    && represents(g, k as int, *xb);
            let idx = choose|idx: int| 0 <= idx < nodes.len() && nodes[idx] == ENode::Or(i, k);
            assert(idx == 0);
        },
        Expr::Implies(xa, xb) => {
            let (i, k) = choose|i: usize, k: usize|
                #[trigger] nodes.contains(ENode::Implies(i, k)) && represents(g, i as int, *xa)
                    && represents(g, k as int, *xb);
            let idx = choose|idx: int|
                0 <= idx < nodes.len() && nodes[idx] == ENode::Implies(i, k);
            assert(idx == 0);
        },
        Expr::Let(xa, xb) => {
            let (i, k) = choose|i: usize, k: usize|
                #[trigger] nodes.contains(ENode::Let(i, k)) && represents(g, i as int, *xa)
                    && represents(g, k as int, *xb);
            let idx = choose|idx: int| 0 <= idx < nodes.len() && nodes[idx] == ENode::Let(i, k);
            assert(idx == 0);
        },
        Expr::Concat(xa, xb) => {
            let (i, k) = choose|i: usize, k: usize|
                #[trigger] nodes.contains(ENode::Concat(i, k)) && represents(g, i as int, *xa)
                    && represents(g, k as int, *xb);
            let idx = choose|idx: int|
                0 <= idx < nodes.len() && nodes[idx] == ENode::Concat(i, k);
            assert(idx == 0);
        },
    }
}

/// A singleton class contains exactly one expression up to symbol spelling.
pub proof fn lemma_singleton_unique(g: EGraph, c: int, a: Expr, b: Expr)
    requires
        singleton_classes(g),
        represents(g, c, a),
        represents(g, c, b),
    ensures
        expr_like(a, b),
    decreases a,
{
    lemma_repr_shape(g, c, a);
    lemma_repr_shape(g, c, b);
    let n0 = g.classes@[c].nodes@[0];
    match n0 {
        ENode::Bool(_) => {},
        ENode::Symbol(_) => {},
        ENode::Not(i) => {
            match (a, b) {
                (Expr::Not(aa), Expr::Not(ba)) => {
                    lemma_singleton_unique(g, i as int, *aa, *ba);
                },
                _ => {},
            }
        },
        ENode::And(i, j) => {
            match (a, b) {
                (Expr::And(aa, ab), Expr::And(ba, bb)) => {
                    lemma_singleton_unique(g, i as int, *aa, *ba);
                    lemma_singleton_unique(g, j as int, *ab, *bb);
                },
                _ => {},
            }
        },
        ENode::Or(i, j) => {
            match (a, b) {
                (Expr::Or(aa, ab), Expr::Or(ba, bb)) => {
                    lemma_singleton_unique(g, i as int, *aa, *ba);
                    lemma_singleton_unique(g, j as int, *ab, *bb);
                },
                _ => {},
            }
        },
        ENode::Implies(i, j) => {
            match (a, b) {
                (Expr::Implies(aa, ab), Expr::Implies(ba, bb)) => {
                    lemma_singleton_unique(g, i as int, *aa, *ba);
                    lemma_singleton_unique(g, j as int, *ab, *bb);
                },
                _ => {},
            }
        },
        ENode::Let(i, j) => {
            match (a, b) {
                (Expr::Let(aa, ab), Expr::Let(ba, bb)) => {
                    lemma_singleton_unique(g, i as int, *aa, *ba);
                    lemma_singleton_unique(g, j as int, *ab, *bb);
                },
                _ => {},
            }
        },
        ENode::Concat(i, j) => {
            match (a, b) {
                (Expr::Concat(aa, ab), Expr::Concat(ba, bb)) => {
                    lemma_singleton_unique(g, i as int, *aa, *ba);
                    lemma_singleton_unique(g, j as int, *ab, *bb);
                },
                _ => {},
            }
        },
    }
}

/// Idempotence of the pipeline on an already-minimal expression: when no rule
/// applied — the saturated graph still has one node per class — anything
/// extracted for the root costs exactly what the input costs, under any metric.
pub proof fn lemma_idempotent_cost(g: EGraph, cf: CostFn, root: int, input: Expr, picked: Expr)
    requires
        singleton_classes(g),
        represents(g, root, input),
        represents(g, root, picked),
    ensures
        expr_cost(cf, picked) == expr_cost(cf, input),
{
    lemma_singleton_unique(g, root, picked, input);
    crate::cost::lemma_expr_like_cost(cf, picked, input);
}

} // verus!
