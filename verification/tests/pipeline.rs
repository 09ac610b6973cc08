use e_rewriter::cost::CostFn;
use e_rewriter::expr::{ast_depth, ast_size, print_expr, Expr};
use e_rewriter::graph::{extract, EClass, EGraph, ENode};
use e_rewriter::pattern::pat_text;
use e_rewriter::rules::{make_rules, make_rules_enhance, Rule};
use e_rewriter::select::build_pool;
use egg::{Id, Pattern, RecExpr, Rewrite, Runner, SymbolLang};

fn to_rewrites(rules: &[Rule]) -> Vec<Rewrite<SymbolLang, ()>> {
    let mut out = Vec::new();
    for r in rules {
        let lhs: Pattern<SymbolLang> = pat_text(&r.lhs).parse().unwrap();
        let rhs: Pattern<SymbolLang> = pat_text(&r.rhs).parse().unwrap();
        out.push(Rewrite::new(r.name.clone(), lhs.clone(), rhs.clone()).unwrap());
        if r.bidirectional {
            out.push(Rewrite::new(format!("{}-rev", r.name), rhs, lhs).unwrap());
        }
    }
    out
}

fn snapshot(eg: &egg::EGraph<SymbolLang, ()>, root: Id) -> (EGraph, usize) {
    let mut ids: Vec<Id> = eg.classes().map(|c| c.id).collect();
    ids.sort();
    let index_of = |id: Id| ids.binary_search(&eg.find(id)).unwrap();
    let mut classes = Vec::new();
    for id in &ids {
        let mut nodes = Vec::new();
        for n in eg[*id].nodes.iter() {
            let ch: Vec<usize> = n.children.iter().map(|c| index_of(*c)).collect();
            let node = match (n.op.as_str(), ch.len()) {
                ("*", 2) => ENode::And(ch[0], ch[1]),
                ("+", 2) => ENode::Or(ch[0], ch[1]),
                ("!", 1) => ENode::Not(ch[0]),
                ("->", 2) => ENode::Implies(ch[0], ch[1]),
                ("let", 2) => ENode::Let(ch[0], ch[1]),
                ("&", 2) => ENode::Concat(ch[0], ch[1]),
                ("true", 0) => ENode::Bool(true),
                ("false", 0) => ENode::Bool(false),
                (s, 0) => ENode::Symbol(s.to_string()),
                _ => panic!("node with unexpected arity"),
            };
            nodes.push(node);
        }
        classes.push(EClass { nodes });
    }
    (EGraph { classes }, index_of(root))
}

fn saturate_and_snapshot(input: &str, rules: &[Rule]) -> (EGraph, usize) {
    let expr: RecExpr<SymbolLang> = input.parse().unwrap();
    let rewrites = to_rewrites(rules);
    let runner = Runner::<SymbolLang, ()>::default().with_expr(&expr).run(&rewrites);
    snapshot(&runner.egraph, runner.roots[0])
}

#[test]
fn covering_law_produces_single_symbol() {
    let (g, root) = saturate_and_snapshot("(* a (+ a b))", &make_rules_enhance());
    let (cost, best) = extract(&g, root, CostFn::Depth).unwrap();
    assert_eq!(print_expr(&best), "a");
    assert_eq!(cost, 1);
    let input = Expr::And(
        Box::new(Expr::Symbol("a".to_string())),
        Box::new(Expr::Or(
            Box::new(Expr::Symbol("a".to_string())),
            Box::new(Expr::Symbol("b".to_string())),
        )),
    );
    assert!(ast_size(&best) < ast_size(&input));
}

#[test]
fn involution_produces_bare_symbol() {
    let (g, root) = saturate_and_snapshot("(! (! x))", &make_rules_enhance());
    let (cost, best) = extract(&g, root, CostFn::Depth).unwrap();
    assert_eq!(print_expr(&best), "x");
    assert_eq!(cost, 1);
}

#[test]
fn implication_theorem_reaches_disjunction_or_cheaper() {
    let (g, root) = saturate_and_snapshot("(-> x y)", &make_rules());
    let (cost, _best) = extract(&g, root, CostFn::Depth).unwrap();
    // Depth of (+ (! x) y) is 3; the best candidate may not exceed it.
    assert!(cost <= 3);
    // The disjunctive form itself must be reachable: under the Size metric the
    // graph offers a candidate no larger than (+ (! x) y), which has size 4.
    let (size_cost, _) = extract(&g, root, CostFn::Size).unwrap();
    assert!(size_cost <= 4);
}

#[test]
fn non_regression_against_input_depth() {
    let (g, root) = saturate_and_snapshot("(+ a (+ a a))", &make_rules_enhance());
    let (cost, _best) = extract(&g, root, CostFn::Depth).unwrap();
    let input = Expr::Or(
        Box::new(Expr::Symbol("a".to_string())),
        Box::new(Expr::Or(
            Box::new(Expr::Symbol("a".to_string())),
            Box::new(Expr::Symbol("a".to_string())),
        )),
    );
    assert!(cost <= ast_depth(&input));
    // idempotency collapses the whole disjunction
    assert_eq!(cost, 1);
}

#[test]
fn minimal_input_keeps_its_cost() {
    // No one-way theorem touches a bare CONCAT of two symbols, so the
    // saturated graph is the input's own; the output cost equals the input's.
    let (g, root) = saturate_and_snapshot("(& a b)", &make_rules());
    for class in &g.classes {
        assert_eq!(class.nodes.len(), 1);
    }
    let (cost, best) = extract(&g, root, CostFn::Depth).unwrap();
    let input = Expr::Concat(
        Box::new(Expr::Symbol("a".to_string())),
        Box::new(Expr::Symbol("b".to_string())),
    );
    assert_eq!(cost, ast_depth(&input));
    assert_eq!(print_expr(&best), "(& a b)");
}

#[test]
fn pool_holds_minimum_cost_candidates() {
    let (g, root) = saturate_and_snapshot("(* a (+ a b))", &make_rules_enhance());
    let pool = build_pool(&g, root, 20);
    assert_eq!(pool.len(), 21);
    for cand in &pool {
        assert_eq!(cand.cost, 1);
        assert_eq!(print_expr(&cand.expr), "a");
    }
}

#[test]
fn tie_break_picks_either_member() {
    // One class, two symbols of equal cost: repeated extraction must stay
    // within the tie and, being randomized, reach both representatives.
    let g = EGraph {
        classes: vec![EClass {
            nodes: vec![ENode::Symbol("x".to_string()), ENode::Symbol("y".to_string())],
        }],
    };
    let mut seen_x = false;
    let mut seen_y = false;
    for _ in 0..200 {
        let (cost, best) = extract(&g, 0, CostFn::Depth).unwrap();
        assert_eq!(cost, 1);
        let text = print_expr(&best);
        match text.as_str() {
            "x" => seen_x = true,
            "y" => seen_y = true,
            other => panic!("unexpected representative {}", other),
        }
    }
    assert!(seen_x && seen_y);
}

#[test]
fn unreachable_root_extracts_nothing() {
    // A root class whose only node waits on an empty class can never resolve.
    let g = EGraph {
        classes: vec![
            EClass { nodes: vec![ENode::Not(1)] },
            EClass { nodes: vec![] },
        ],
    };
    assert!(extract(&g, 0, CostFn::Depth).is_none());
}

fn eval_expr(e: &Expr, env: &dyn Fn(&str) -> bool) -> bool {
    match e {
        Expr::Bool(c) => *c,
        Expr::Symbol(s) => env(s),
        Expr::And(a, b) => eval_expr(a, env) && eval_expr(b, env),
        Expr::Or(a, b) => eval_expr(a, env) || eval_expr(b, env),
        Expr::Not(a) => !eval_expr(a, env),
        Expr::Implies(a, b) => !eval_expr(a, env) || eval_expr(b, env),
        Expr::Let(a, b) => eval_expr(a, env) == eval_expr(b, env),
        Expr::Concat(a, b) => eval_expr(a, env) && !eval_expr(b, env),
    }
}

#[test]
fn extracted_candidate_keeps_the_truth_table() {
    let (g, root) = saturate_and_snapshot("(+ (* a b) (* a (! b)))", &make_rules_enhance());
    let (_cost, best) = extract(&g, root, CostFn::Depth).unwrap();
    // the combining law reduces this to a; whatever was picked, it must agree
    // with the input on every assignment of a and b
    for bits in 0..4u32 {
        let env = |name: &str| match name {
            "a" => bits & 1 != 0,
            _ => bits & 2 != 0,
        };
        let input = Expr::Or(
            Box::new(Expr::And(
                Box::new(Expr::Symbol("a".to_string())),
                Box::new(Expr::Symbol("b".to_string())),
            )),
            Box::new(Expr::And(
                Box::new(Expr::Symbol("a".to_string())),
                Box::new(Expr::Not(Box::new(Expr::Symbol("b".to_string())))),
            )),
        );
        assert_eq!(eval_expr(&best, &env), eval_expr(&input, &env));
    }
}

#[test]
fn extraction_cost_matches_the_engine_extractor() {
    for input in ["(* a (+ a b))", "(! (! x))", "(+ a (+ a a))"] {
        let expr: RecExpr<SymbolLang> = input.parse().unwrap();
        let rewrites = to_rewrites(&make_rules_enhance());
        let runner = Runner::<SymbolLang, ()>::default().with_expr(&expr).run(&rewrites);
        let engine = egg::Extractor::new(&runner.egraph, egg::AstDepth);
        let (engine_cost, _) = engine.find_best(runner.roots[0]);
        let (g, root) = snapshot(&runner.egraph, runner.roots[0]);
        let (cost, _) = extract(&g, root, CostFn::Depth).unwrap();
        assert_eq!(cost, engine_cost);
    }
}
