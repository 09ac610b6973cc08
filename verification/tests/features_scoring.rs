use e_rewriter::expr::{ast_depth, ast_size, clone_expr, print_expr, Expr};
use e_rewriter::features::{count_ast_size_and_depth, count_operators, features};
use egg::{RecExpr, SymbolLang};

fn sym(name: &str) -> Box<Expr> {
    Box::new(Expr::Symbol(name.to_string()))
}

#[test]
fn feature_vector_of_simple_disjunction() {
    let e = Expr::Or(sym("a"), sym("b"));
    let fv = features(&e);
    assert_eq!(fv.or_ops, 1);
    assert_eq!(fv.and_ops, 0);
    assert_eq!(fv.not_ops, 0);
    assert_eq!(fv.concat_ops, 0);
    assert_eq!(fv.size, 3);
    assert_eq!(fv.depth, 2);
}

#[test]
fn operator_counts_off_the_text() {
    let counts = count_operators("(* a (+ a b))");
    assert_eq!(counts.and_ops, 1);
    assert_eq!(counts.or_ops, 1);
    assert_eq!(counts.not_ops, 0);
    assert_eq!(counts.concat_ops, 0);
    let counts = count_operators("(-> x (! y))");
    assert_eq!(counts.dash_ops, 1);
    assert_eq!(counts.gt_ops, 1);
    assert_eq!(counts.not_ops, 1);
}

#[test]
fn counts_include_operator_characters_inside_names() {
    // the counter reads the raw text, exactly as the scorer consumes it
    let counts = count_operators("x+y");
    assert_eq!(counts.or_ops, 1);
}

#[test]
fn size_and_depth_recounted_structurally() {
    let e = Expr::And(sym("a"), Box::new(Expr::Or(sym("a"), sym("b"))));
    let (size, depth) = count_ast_size_and_depth(&e);
    assert_eq!(size, 5);
    assert_eq!(depth, 3);
    assert_eq!(ast_size(&e), 5);
    assert_eq!(ast_depth(&e), 3);
}

#[test]
fn printed_form_parses_back() {
    let e = Expr::Implies(
        Box::new(Expr::Not(sym("x"))),
        Box::new(Expr::Let(Box::new(Expr::Bool(true)), Box::new(Expr::Concat(sym("y"), sym("z"))))),
    );
    let text = print_expr(&e);
    assert_eq!(text, "(-> (! x) (let true (& y z)))");
    let parsed: RecExpr<SymbolLang> = text.parse().unwrap();
    assert_eq!(parsed.to_string(), text);
}

#[test]
fn clone_preserves_printed_form() {
    let e = Expr::Or(Box::new(Expr::Not(sym("p"))), Box::new(Expr::Bool(false)));
    let copy = clone_expr(&e);
    assert_eq!(print_expr(&copy), print_expr(&e));
}

#[test]
fn feature_vector_of_deep_candidate() {
    // (+ (! (* a b)) (& a b)) : one OR, one NOT, one AND, one CONCAT
    let e = Expr::Or(
        Box::new(Expr::Not(Box::new(Expr::And(sym("a"), sym("b"))))),
        Box::new(Expr::Concat(sym("a"), sym("b"))),
    );
    let fv = features(&e);
    assert_eq!(fv.or_ops, 1);
    assert_eq!(fv.not_ops, 1);
    assert_eq!(fv.and_ops, 1);
    assert_eq!(fv.concat_ops, 1);
    assert_eq!(fv.size, 8);
    assert_eq!(fv.depth, 4);
}
