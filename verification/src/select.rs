//! The candidate pool and the selector: drive the randomized extractor many
//! times against one saturated graph, rank the scored candidates ascending by
//! quality score, keep the lowest-scoring ten as the shortlist, and pick the
//! winner among them by minimal truncated score, position breaking ties.

use crate::cost::{CostFn, expr_cost};
use crate::expr::Expr;
use crate::graph::{EGraph, extract, represents, wf_graph};
use vstd::multiset::Multiset;
use vstd::prelude::*;

verus! {

broadcast use vstd::seq_lib::group_to_multiset_ensures;

/// One extracted candidate: an expression and its Depth extraction cost.
pub struct Candidate {
    pub expr: Expr,
    pub cost: usize,
}

/// Build the candidate pool: run the randomized extractor `iterations + 1`
/// times against the same saturated graph and root, under the Depth metric.
/// Every candidate is a minimum-cost representative of the root class; runs
/// may differ only in which expression of that one least cost they pick. The
/// pool falls short only when extraction yields nothing at all.
pub fn build_pool(g: &EGraph, root: usize, iterations: usize) -> (r: Vec<Candidate>)
    requires
        wf_graph(*g),
        (root as int) < g.classes@.len(),
        iterations < usize::MAX,
    ensures
        r@.len() <= iterations + 1,
        forall|i: int|
            0 <= i < r@.len() ==> represents(*g, root as int, #[trigger] r@[i].expr) && expr_cost(
                CostFn::Depth,
                r@[i].expr,
            ) == r@[i].cost as int,
        forall|i: int, e2: Expr|
            0 <= i < r@.len() && represents(*g, root as int, e2) ==> #[trigger] r@[i].cost as int
                <= #[trigger] expr_cost(CostFn::Depth, e2),
        r@.len() < iterations + 1 ==> forall|e2: Expr|
            represents(*g, root as int, e2) ==> expr_cost(CostFn::Depth, e2)
                == usize::MAX as int,
{
    let mut out: Vec<Candidate> = Vec::new();
    let mut k: usize = 0;
    while k < iterations + 1
        invariant
            wf_graph(*g),
            (root as int) < g.classes@.len(),
            iterations < usize::MAX,
            k <= iterations + 1,
            out@.len() <= k,
            forall|i: int|
                0 <= i < out@.len() ==> represents(*g, root as int, #[trigger] out@[i].expr)
                    && expr_cost(CostFn::Depth, out@[i].expr) == out@[i].cost as int,
            forall|i: int, e2: Expr|
                0 <= i < out@.len() && represents(*g, root as int, e2)
                    ==> #[trigger] out@[i].cost as int <= #[trigger] expr_cost(CostFn::Depth, e2),
            out@.len() < k ==> forall|e2: Expr|
                represents(*g, root as int, e2) ==> expr_cost(CostFn::Depth, e2)
                    == usize::MAX as int,
        decreases iterations + 1 - k,
    {
        match extract(g, root, CostFn::Depth) {
            Some((cost, e)) => {
                out.push(Candidate { expr: e, cost });
            },
            None => {},
        }
        k = k + 1;
    }
    out
}

/// One scored candidate: its pool index, an order key that compares exactly as
/// the quality scores compare, and the score truncated to an integer.
#[derive(Clone, Copy)]
pub struct ScoredCandidate {
    pub index: usize,
    pub key: i64,
    pub trunc: i64,
}

/// Candidates stand in non-decreasing quality-score order.
pub open spec fn sorted_keys(s: Seq<ScoredCandidate>) -> bool {
    forall|i: int, j: int| 0 <= i < j < s.len() ==> #[trigger] s[i].key <= #[trigger] s[j].key
}

/// Rank candidates ascending by quality score. The result is a permutation of
/// the input in non-decreasing key order.
pub fn rank_candidates(v: Vec<ScoredCandidate>) -> (r: Vec<ScoredCandidate>)
    ensures
        sorted_keys(r@),
        r@.to_multiset() == v@.to_multiset(),
        r@.len() == v@.len(),
{
    let mut rest = v;
    let mut out: Vec<ScoredCandidate> = Vec::new();
    proof {
        assert(out@.to_multiset().add(rest@.to_multiset()) =~= v@.to_multiset());
    }
    while rest.len() > 0
        invariant
            sorted_keys(out@),
            out@.to_multiset().add(rest@.to_multiset()) == v@.to_multiset(),
            out@.len() + rest@.len() == v@.len(),
            forall|i: int, j: int|
                0 <= i < out@.len() && 0 <= j < rest@.len() ==> #[trigger] out@[i].key
                    <= #[trigger] rest@[j].key,
        decreases rest@.len(),
    {
        let mut m: usize = 0;
        let mut i: usize = 1;
        while i < rest.len()
            invariant
                rest@.len() > 0,
                (m as int) < rest@.len(),
                i <= rest@.len(),
                forall|j: int| 0 <= j < i ==> rest@[m as int].key <= #[trigger] rest@[j].key,
            decreases rest@.len() - i,
        {
            if rest[i].key < rest[m].key {
                m = i;
            }
            i = i + 1;
        }
        let ghost pre_out = out@;
        let ghost pre_rest = rest@;
        let x = rest.remove(m);
        out.push(x);
        proof {
            assert(pre_rest.contains(x)) by {
                assert(pre_rest[m as int] == x);
            };
            assert(out@.to_multiset() =~= pre_out.to_multiset().insert(x));
            assert(rest@.to_multiset() =~= pre_rest.to_multiset().remove(x));
            assert(out@.to_multiset().add(rest@.to_multiset()) =~= pre_out.to_multiset().add(
                pre_rest.to_multiset(),
            ));
            assert forall|i2: int, j2: int|
                0 <= i2 < out@.len() && 0 <= j2 < rest@.len() implies #[trigger] out@[i2].key
                <= #[trigger] rest@[j2].key by {
                assert(rest@[j2] == if j2 < m as int {
                    pre_rest[j2]
                } else {
                    pre_rest[j2 + 1]
                });
                if i2 < pre_out.len() {
                    assert(out@[i2] == pre_out[i2]);
                } else {
                    assert(out@[i2] == x);
                }
            };
        }
    }
    proof {
        assert(rest@.to_multiset() =~= Multiset::<ScoredCandidate>::empty());
        assert(out@.to_multiset() =~= v@.to_multiset());
    }
    out
}

/// The shortlist: the first ten ranked candidates, fewer when the pool is
/// smaller.
pub fn take_shortlist(ranked: &Vec<ScoredCandidate>) -> (r: Vec<ScoredCandidate>)
    ensures
        r@ == ranked@.take(vstd::math::min(10, ranked@.len() as int)),
{
    let n = if ranked.len() < 10 {
        ranked.len()
    } else {
        10
    };
    let mut out: Vec<ScoredCandidate> = Vec::new();
    let mut i: usize = 0;
    while i < n
        invariant
            n == vstd::math::min(10, ranked@.len() as int),
            i <= n,
            out@ == ranked@.take(i as int),
        decreases n - i,
    {
        out.push(ranked[i]);
        proof {
            assert(out@ =~= ranked@.take(i as int + 1));
        }
        i = i + 1;
    }
    out
}

/// The winner's position in the shortlist: the first entry whose truncated
/// score is minimal; equal truncated scores resolve to the earlier position.
/// Nothing is picked only from an empty shortlist.
pub fn pick_winner(shortlist: &Vec<ScoredCandidate>) -> (r: Option<usize>)
    ensures
        r is Some <==> shortlist@.len() > 0,
        r matches Some(w) ==> (w as int) < shortlist@.len() && (forall|j: int|
            0 <= j < shortlist@.len() ==> shortlist@[w as int].trunc
                <= #[trigger] shortlist@[j].trunc) && (forall|j: int|
            0 <= j < w as int ==> shortlist@[w as int].trunc < #[trigger] shortlist@[j].trunc),
{
    if shortlist.len() == 0 {
        return None;
    }
    let mut w: usize = 0;
    let mut i: usize = 1;
    while i < shortlist.len()
        invariant
            shortlist@.len() > 0,
            (w as int) < i as int <= shortlist@.len(),
            forall|j: int| 0 <= j < i ==> shortlist@[w as int].trunc <= #[trigger] shortlist@[j].trunc,
            forall|j: int| 0 <= j < w as int ==> shortlist@[w as int].trunc < #[trigger] shortlist@[j].trunc,
        decreases shortlist@.len() - i,
    {
        if shortlist[i].trunc < shortlist[w].trunc {
            w = i;
        }
        i = i + 1;
    }
    Some(w)
}

/// Rank the scored pool, keep the lowest-scoring ten as the shortlist in
/// non-decreasing score order, and pick the winner among them by minimal
/// truncated score.
pub fn select(scored: Vec<ScoredCandidate>) -> (r: (Vec<ScoredCandidate>, Option<usize>))
    ensures
        sorted_keys(r.0@),
        r.0@.len() == vstd::math::min(10, scored@.len() as int),
        forall|i: int| 0 <= i < r.0@.len() ==> scored@.contains(#[trigger] r.0@[i]),
        exists|s: Seq<ScoredCandidate>|
            s.to_multiset() == scored@.to_multiset() && sorted_keys(s) && r.0@ == s.take(
                r.0@.len() as int,
            ),
        r.1 is Some <==> r.0@.len() > 0,
        r.1 matches Some(w) ==> (w as int) < r.0@.len() && (forall|j: int|
            0 <= j < r.0@.len() ==> r.0@[w as int].trunc <= #[trigger] r.0@[j].trunc) && (
        forall|j: int| 0 <= j < w as int ==> r.0@[w as int].trunc < #[trigger] r.0@[j].trunc),
{
    let ghost orig = scored@;
    let ranked = rank_candidates(scored);
    let shortlist = take_shortlist(&ranked);
    let winner = pick_winner(&shortlist);
    proof {
        assert forall|i: int| 0 <= i < shortlist@.len() implies orig.contains(
            #[trigger] shortlist@[i],
        ) by {
            assert(shortlist@[i] == ranked@[i]);
            assert(ranked@.contains(ranked@[i]));
            assert(ranked@.to_multiset().contains(ranked@[i]));
        };
        assert(sorted_keys(shortlist@)) by {
            assert forall|i: int, j: int|
                0 <= i < j < shortlist@.len() implies #[trigger] shortlist@[i].key
                <= #[trigger] shortlist@[j].key by {
                assert(shortlist@[i] == ranked@[i]);
                assert(shortlist@[j] == ranked@[j]);
            };
        };
    }
    (shortlist, winner)
}

} // verus!
