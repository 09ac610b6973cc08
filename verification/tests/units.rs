use e_rewriter::cost::{
    cmp, max_random, min_by_random, min_random, min_random_cmp, node_cost_binary, node_cost_unary,
    CostEntry, CostFn,
};
use e_rewriter::expr::Expr;
use e_rewriter::fold::{make, merge, modify_pair, ConstFact, FoldError};
use e_rewriter::graph::ENode;
use e_rewriter::select::{pick_winner, rank_candidates, select, take_shortlist, ScoredCandidate};

#[test]
fn size_depth_and_blended_node_costs() {
    assert_eq!(node_cost_binary(CostFn::Size, 3, 5), 9);
    assert_eq!(node_cost_binary(CostFn::Depth, 3, 5), 6);
    // blended: the average of 9 and 6, rounded
    assert_eq!(node_cost_binary(CostFn::Mix, 3, 5), 8);
    assert_eq!(node_cost_unary(CostFn::Size, 4), 5);
    assert_eq!(node_cost_unary(CostFn::Depth, 4), 5);
    assert_eq!(node_cost_unary(CostFn::Mix, 4), 5);
}

#[test]
fn size_cost_saturates_at_the_maximum() {
    assert_eq!(node_cost_binary(CostFn::Size, usize::MAX, 1), usize::MAX);
    assert_eq!(node_cost_binary(CostFn::Size, usize::MAX - 1, 0), usize::MAX);
    assert_eq!(node_cost_unary(CostFn::Depth, usize::MAX), usize::MAX);
}

#[test]
fn random_extrema_agree_with_plain_extrema() {
    assert_eq!(max_random(2, 5), 5);
    assert_eq!(max_random(5, 2), 5);
    assert_eq!(max_random(4, 4), 4);
    assert_eq!(min_random(2, 5), 2);
    assert_eq!(min_random(5, 2), 2);
    assert_eq!(min_random(-3, -3), -3);
}

#[test]
fn random_min_stays_within_the_tie() {
    let a = CostEntry { cost: 7, index: 0 };
    let b = CostEntry { cost: 7, index: 1 };
    let mut seen = [false, false];
    for _ in 0..200 {
        let r = min_random_cmp(a, b);
        assert_eq!(r.cost, 7);
        seen[r.index] = true;
    }
    assert!(seen[0] && seen[1]);
    let c = CostEntry { cost: 3, index: 2 };
    assert_eq!(min_random_cmp(a, c).index, 2);
    assert_eq!(min_random_cmp(c, b).index, 2);
}

#[test]
fn random_min_over_a_list() {
    let v = vec![
        CostEntry { cost: 4, index: 0 },
        CostEntry { cost: 2, index: 1 },
        CostEntry { cost: 9, index: 2 },
        CostEntry { cost: 2, index: 3 },
    ];
    let m = min_by_random(&v).unwrap();
    assert_eq!(m.cost, 2);
    assert!(m.index == 1 || m.index == 3);
    let empty: Vec<CostEntry> = vec![];
    assert!(min_by_random(&empty).is_none());
}

#[test]
fn optional_costs_order_with_none_high() {
    assert_eq!(cmp(&None, &None), 0);
    assert_eq!(cmp(&None, &Some(3)), 1);
    assert_eq!(cmp(&Some(3), &None), -1);
    assert_eq!(cmp(&Some(2), &Some(3)), -1);
    assert_eq!(cmp(&Some(3), &Some(3)), 0);
    assert_eq!(cmp(&Some(4), &Some(3)), 1);
}

fn fact(value: bool) -> Option<ConstFact> {
    Some(ConstFact { value, witness: Expr::Bool(value) })
}

#[test]
fn facts_fold_through_operators() {
    let facts = vec![fact(true), fact(false)];
    let and_fact = make(&ENode::And(0, 1), &facts).unwrap();
    assert!(!and_fact.value);
    let or_fact = make(&ENode::Or(0, 1), &facts).unwrap();
    assert!(or_fact.value);
    let imp_fact = make(&ENode::Implies(0, 1), &facts).unwrap();
    assert!(!imp_fact.value);
    let let_fact = make(&ENode::Let(0, 1), &facts).unwrap();
    assert!(!let_fact.value);
    // CONCAT is the greater-than tie relation: true > false
    let cat_fact = make(&ENode::Concat(0, 1), &facts).unwrap();
    assert!(cat_fact.value);
    let not_fact = make(&ENode::Not(1), &facts).unwrap();
    assert!(not_fact.value);
    let lit_fact = make(&ENode::Bool(false), &facts).unwrap();
    assert!(!lit_fact.value);
}

#[test]
fn missing_child_fact_blocks_derivation() {
    let facts = vec![fact(true), None];
    assert!(make(&ENode::And(0, 1), &facts).is_none());
    assert!(make(&ENode::Not(1), &facts).is_none());
    assert!(make(&ENode::Symbol("a".to_string()), &facts).is_none());
}

#[test]
fn fact_witness_spells_the_derivation() {
    let facts = vec![fact(true), fact(false)];
    let f = make(&ENode::And(0, 1), &facts).unwrap();
    assert_eq!(e_rewriter::expr::print_expr(&f.witness), "(* true false)");
}

#[test]
fn merging_agreeing_facts_keeps_the_record() {
    let mut to = fact(true);
    let d = merge(&mut to, fact(true)).unwrap();
    assert!(!d.to_changed && !d.from_changed);
    assert!(to.unwrap().value);
}

#[test]
fn merging_into_nothing_adopts_the_fact() {
    let mut to: Option<ConstFact> = None;
    let d = merge(&mut to, fact(false)).unwrap();
    assert!(d.to_changed && !d.from_changed);
    assert!(!to.unwrap().value);
    let mut kept = fact(true);
    let d = merge(&mut kept, None).unwrap();
    assert!(!d.to_changed && d.from_changed);
    assert!(kept.unwrap().value);
}

#[test]
fn conflicting_facts_are_fatal() {
    let mut to = fact(true);
    let r = merge(&mut to, fact(false));
    match r {
        Err(e) => assert_eq!(e.message(), "merged non-equal constants"),
        Ok(_) => panic!("a constant conflict must be reported"),
    }
    // the record is left as it was
    assert!(to.unwrap().value);
}

#[test]
fn fresh_fact_demands_a_union_with_its_literal() {
    let d = fact(true);
    let (witness, literal) = modify_pair(&d).unwrap();
    assert_eq!(e_rewriter::expr::print_expr(&witness), "true");
    assert_eq!(e_rewriter::expr::print_expr(&literal), "true");
    assert!(modify_pair(&None).is_none());
}

fn scored(index: usize, key: i64, trunc: i64) -> ScoredCandidate {
    ScoredCandidate { index, key, trunc }
}

#[test]
fn ranking_sorts_by_score_key() {
    let v = vec![scored(0, 30, 30), scored(1, 10, 10), scored(2, 20, 20), scored(3, 10, 10)];
    let r = rank_candidates(v);
    let keys: Vec<i64> = r.iter().map(|s| s.key).collect();
    assert_eq!(keys, vec![10, 10, 20, 30]);
    let mut idx: Vec<usize> = r.iter().map(|s| s.index).collect();
    idx.sort();
    assert_eq!(idx, vec![0, 1, 2, 3]);
}

#[test]
fn shortlist_keeps_at_most_ten() {
    let v: Vec<ScoredCandidate> = (0..15).map(|i| scored(i, i as i64, i as i64)).collect();
    let s = take_shortlist(&v);
    assert_eq!(s.len(), 10);
    assert_eq!(s[9].key, 9);
    let small: Vec<ScoredCandidate> = (0..3).map(|i| scored(i, i as i64, i as i64)).collect();
    assert_eq!(take_shortlist(&small).len(), 3);
}

#[test]
fn winner_is_first_minimal_truncated_score() {
    let s = vec![scored(0, 50, 5), scored(1, 31, 3), scored(2, 39, 3), scored(3, 70, 7)];
    assert_eq!(pick_winner(&s), Some(1));
    let empty: Vec<ScoredCandidate> = vec![];
    assert_eq!(pick_winner(&empty), None);
}

#[test]
fn selection_end_to_end() {
    // twelve candidates with descending scores: the ten smallest survive,
    // ascending, and the winner sits at the front of the shortlist
    let v: Vec<ScoredCandidate> = (0..12).map(|i| scored(i, (100 - i) as i64, (100 - i) as i64)).collect();
    let (shortlist, winner) = select(v);
    assert_eq!(shortlist.len(), 10);
    let keys: Vec<i64> = shortlist.iter().map(|s| s.key).collect();
    assert_eq!(keys, vec![89, 90, 91, 92, 93, 94, 95, 96, 97, 98]);
    assert_eq!(winner, Some(0));
    assert_eq!(shortlist[0].index, 11);
}
