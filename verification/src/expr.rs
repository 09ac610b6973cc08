//! The boolean expression grammar: a closed sum type with one case per
//! operator, its truth-table semantics, structural size and depth, and the
//! textual prefix form used for input and output.

use vstd::prelude::*;
use vstd::string::StringExecFns;

verus! {

/// A boolean expression tree. `Concat` is the ordering tie operator: it is
/// "greater-than" over truth values, not a logical connective.
pub enum Expr {
    Bool(bool),
    Symbol(String),
    And(Box<Expr>, Box<Expr>),
    Or(Box<Expr>, Box<Expr>),
    Not(Box<Expr>),
    Implies(Box<Expr>, Box<Expr>),
    Let(Box<Expr>, Box<Expr>),
    Concat(Box<Expr>, Box<Expr>),
}

/// Truth value of an expression under an assignment of symbol names to booleans.
/// A name absent from the assignment still denotes one fixed (unknown) value.
pub open spec fn eval(e: Expr, env: Map<Seq<char>, bool>) -> bool
    decreases e,
{
    match e {
        Expr::Bool(c) => c,
        Expr::Symbol(s) => env[s@],
        Expr::And(a, b) => eval(*a, env) && eval(*b, env),
        Expr::Or(a, b) => eval(*a, env) || eval(*b, env),
        Expr::Not(a) => !eval(*a, env),
        Expr::Implies(a, b) => !eval(*a, env) || eval(*b, env),
        Expr::Let(a, b) => eval(*a, env) == eval(*b, env),
        Expr::Concat(a, b) => eval(*a, env) && !eval(*b, env),
    }
}

/// Structural size: one per node.
pub open spec fn size_spec(e: Expr) -> nat
    decreases e,
{
    match e {
        Expr::Bool(_) => 1,
        Expr::Symbol(_) => 1,
        Expr::And(a, b) => 1 + size_spec(*a) + size_spec(*b),
        Expr::Or(a, b) => 1 + size_spec(*a) + size_spec(*b),
        Expr::Not(a) => 1 + size_spec(*a),
        Expr::Implies(a, b) => 1 + size_spec(*a) + size_spec(*b),
        Expr::Let(a, b) => 1 + size_spec(*a) + size_spec(*b),
        Expr::Concat(a, b) => 1 + size_spec(*a) + size_spec(*b),
    }
}

/// Structural depth: one plus the deepest child.
pub open spec fn depth_spec(e: Expr) -> nat
    decreases e,
{
    match e {
        Expr::Bool(_) => 1,
        Expr::Symbol(_) => 1,
        Expr::And(a, b) => (1 + vstd::math::max(depth_spec(*a) as int, depth_spec(*b) as int)) as nat,
        Expr::Or(a, b) => (1 + vstd::math::max(depth_spec(*a) as int, depth_spec(*b) as int)) as nat,
        Expr::Not(a) => 1 + depth_spec(*a),
        Expr::Implies(a, b) => (1 + vstd::math::max(depth_spec(*a) as int, depth_spec(*b) as int)) as nat,
        Expr::Let(a, b) => (1 + vstd::math::max(depth_spec(*a) as int, depth_spec(*b) as int)) as nat,
        Expr::Concat(a, b) => (1 + vstd::math::max(depth_spec(*a) as int, depth_spec(*b) as int)) as nat,
    }
}

/// Structural equality up to symbol spelling: symbols compare by their text.
pub open spec fn expr_like(a: Expr, b: Expr) -> bool
    decreases a,
{
    match (a, b) {
        (Expr::Bool(x), Expr::Bool(y)) => x == y,
        (Expr::Symbol(x), Expr::Symbol(y)) => x@ == y@,
        (Expr::And(a1, a2), Expr::And(b1, b2)) => expr_like(*a1, *b1) && expr_like(*a2, *b2),
        (Expr::Or(a1, a2), Expr::Or(b1, b2)) => expr_like(*a1, *b1) && expr_like(*a2, *b2),
        (Expr::Not(a1), Expr::Not(b1)) => expr_like(*a1, *b1),
        (Expr::Implies(a1, a2), Expr::Implies(b1, b2)) => expr_like(*a1, *b1) && expr_like(
            *a2,
            *b2,
        ),
        (Expr::Let(a1, a2), Expr::Let(b1, b2)) => expr_like(*a1, *b1) && expr_like(*a2, *b2),
        (Expr::Concat(a1, a2), Expr::Concat(b1, b2)) => expr_like(*a1, *b1) && expr_like(*a2, *b2),
        _ => false,
    }
}

/// The textual prefix form: leaves bare, operator nodes fully parenthesized.
pub open spec fn print_spec(e: Expr) -> Seq<char>
    decreases e,
{
    match e {
        Expr::Bool(c) => if c {
            "true"@
        } else {
            "false"@
        },
        Expr::Symbol(s) => s@,
        Expr::And(a, b) => "(* "@ + print_spec(*a) + " "@ + print_spec(*b) + ")"@,
        Expr::Or(a, b) => "(+ "@ + print_spec(*a) + " "@ + print_spec(*b) + ")"@,
        Expr::Not(a) => "(! "@ + print_spec(*a) + ")"@,
        Expr::Implies(a, b) => "(-> "@ + print_spec(*a) + " "@ + print_spec(*b) + ")"@,
        Expr::Let(a, b) => "(let "@ + print_spec(*a) + " "@ + print_spec(*b) + ")"@,
        Expr::Concat(a, b) => "(& "@ + print_spec(*a) + " "@ + print_spec(*b) + ")"@,
    }
}

/// Structural size, saturating at the machine maximum.
pub fn ast_size(e: &Expr) -> (r: usize)
    ensures
        r == if size_spec(*e) > usize::MAX {
            usize::MAX as nat
        } else {
            size_spec(*e)
        },
    decreases *e,
{
    match e {
        Expr::Bool(_) => 1,
        Expr::Symbol(_) => 1,
        Expr::Not(a) => 1usize.saturating_add(ast_size(&**a)),
        Expr::And(a, b) => 1usize.saturating_add(ast_size(&**a).saturating_add(ast_size(&**b))),
        Expr::Or(a, b) => 1usize.saturating_add(ast_size(&**a).saturating_add(ast_size(&**b))),
        Expr::Implies(a, b) => 1usize.saturating_add(
            ast_size(&**a).saturating_add(ast_size(&**b)),
        ),
        Expr::Let(a, b) => 1usize.saturating_add(ast_size(&**a).saturating_add(ast_size(&**b))),
        Expr::Concat(a, b) => 1usize.saturating_add(ast_size(&**a).saturating_add(ast_size(&**b))),
    }
}

/// Structural depth, saturating at the machine maximum.
pub fn ast_depth(e: &Expr) -> (r: usize)
    ensures
        r == if depth_spec(*e) > usize::MAX {
            usize::MAX as nat
        } else {
            depth_spec(*e)
        },
    decreases *e,
{
    match e {
        Expr::Bool(_) => 1,
        Expr::Symbol(_) => 1,
        Expr::Not(a) => 1usize.saturating_add(ast_depth(&**a)),
        Expr::And(a, b) => 1usize.saturating_add(max_usize(ast_depth(&**a), ast_depth(&**b))),
        Expr::Or(a, b) => 1usize.saturating_add(max_usize(ast_depth(&**a), ast_depth(&**b))),
        Expr::Implies(a, b) => 1usize.saturating_add(max_usize(ast_depth(&**a), ast_depth(&**b))),
        Expr::Let(a, b) => 1usize.saturating_add(max_usize(ast_depth(&**a), ast_depth(&**b))),
        Expr::Concat(a, b) => 1usize.saturating_add(max_usize(ast_depth(&**a), ast_depth(&**b))),
    }
}

/// The larger of two machine integers.
pub fn max_usize(a: usize, b: usize) -> (r: usize)
    ensures
        r == vstd::math::max(a as int, b as int),
{
    if a < b {
        b
    } else {
        a
    }
}

/// Copy an expression; the copy matches its source up to symbol spelling.
pub fn clone_expr(e: &Expr) -> (r: Expr)
    ensures
        expr_like(r, *e),
    decreases *e,
{
    match e {
        Expr::Bool(c) => Expr::Bool(*c),
        Expr::Symbol(s) => Expr::Symbol(s.clone()),
        Expr::And(a, b) => Expr::And(Box::new(clone_expr(&**a)), Box::new(clone_expr(&**b))),
        Expr::Or(a, b) => Expr::Or(Box::new(clone_expr(&**a)), Box::new(clone_expr(&**b))),
        Expr::Not(a) => Expr::Not(Box::new(clone_expr(&**a))),
        Expr::Implies(a, b) => Expr::Implies(
            Box::new(clone_expr(&**a)),
            Box::new(clone_expr(&**b)),
        ),
        Expr::Let(a, b) => Expr::Let(Box::new(clone_expr(&**a)), Box::new(clone_expr(&**b))),
        Expr::Concat(a, b) => Expr::Concat(Box::new(clone_expr(&**a)), Box::new(clone_expr(&**b))),
    }
}

/// Render an expression in its textual prefix form.
pub fn print_expr(e: &Expr) -> (r: String)
    ensures
        r@ == print_spec(*e),
    decreases size_spec(*e),
{
    match e {
        Expr::Bool(c) => {
            if *c {
                "true".to_owned()
            } else {
                "false".to_owned()
            }
        },
        Expr::Symbol(s) => s.clone(),
        Expr::And(a, b) => print_binary("(* ", &**a, &**b),
        Expr::Or(a, b) => print_binary("(+ ", &**a, &**b),
        Expr::Implies(a, b) => print_binary("(-> ", &**a, &**b),
        Expr::Let(a, b) => print_binary("(let ", &**a, &**b),
        Expr::Concat(a, b) => print_binary("(& ", &**a, &**b),
        Expr::Not(a) => {
            let mut s = "(! ".to_owned();
            let sa = print_expr(&**a);
            s.append(sa.as_str());
            s.append(")");
            proof {
                assert(s@ =~= "(! "@ + print_spec(**a) + ")"@);
            }
            s
        },
    }
}

/// Render one binary node: the opening token, both children, a closing paren.
fn print_binary(head: &str, a: &Expr, b: &Expr) -> (r: String)
    ensures
        r@ == head@ + print_spec(*a) + " "@ + print_spec(*b) + ")"@,
    decreases size_spec(*a) + size_spec(*b),
{
    proof {
        assert(size_spec(*a) >= 1);
        assert(size_spec(*b) >= 1);
    }
    let mut s = head.to_owned();
    let sa = print_expr(a);
    s.append(sa.as_str());
    s.append(" ");
    let sb = print_expr(b);
    s.append(sb.as_str());
    s.append(")");
    proof {
        assert(s@ =~= head@ + print_spec(*a) + " "@ + print_spec(*b) + ")"@);
    }
    s
}

} // verus!
