//! Rewrite-rule patterns: expression shapes over numbered pattern variables,
//! their truth-table semantics, and their textual form. In the rule text the
//! boolean constants are written `0` and `1`.

use vstd::prelude::*;
use vstd::string::StringExecFns;

verus! {

/// A rule pattern: a pattern variable standing for an arbitrary boolean, a
/// boolean constant, or an operator applied to sub-patterns.
pub enum Pattern {
    Var(u32),
    Lit(bool),
    And(Box<Pattern>, Box<Pattern>),
    Or(Box<Pattern>, Box<Pattern>),
    Not(Box<Pattern>),
    Implies(Box<Pattern>, Box<Pattern>),
    Let(Box<Pattern>, Box<Pattern>),
    Concat(Box<Pattern>, Box<Pattern>),
}

/// Truth value of a pattern under an assignment of pattern variables to booleans.
pub open spec fn peval(p: Pattern, env: Map<u32, bool>) -> bool
    decreases p,
{
    match p {
        Pattern::Var(v) => env[v],
        Pattern::Lit(c) => c,
        Pattern::And(a, b) => peval(*a, env) && peval(*b, env),
        Pattern::Or(a, b) => peval(*a, env) || peval(*b, env),
        Pattern::Not(a) => !peval(*a, env),
        Pattern::Implies(a, b) => !peval(*a, env) || peval(*b, env),
        Pattern::Let(a, b) => peval(*a, env) == peval(*b, env),
        Pattern::Concat(a, b) => peval(*a, env) && !peval(*b, env),
    }
}

/// A left and right side evaluate identically under every assignment of the
/// pattern variables to truth values.
pub open spec fn sides_sound(l: Pattern, r: Pattern) -> bool {
    forall|env: Map<u32, bool>| peval(l, env) == peval(r, env)
}

pub open spec fn pvar(i: u32) -> Pattern {
    Pattern::Var(i)
}

pub open spec fn plit(c: bool) -> Pattern {
    Pattern::Lit(c)
}

pub open spec fn pand(a: Pattern, b: Pattern) -> Pattern {
    Pattern::And(Box::new(a), Box::new(b))
}

pub open spec fn por(a: Pattern, b: Pattern) -> Pattern {
    Pattern::Or(Box::new(a), Box::new(b))
}

pub open spec fn pnot(a: Pattern) -> Pattern {
    Pattern::Not(Box::new(a))
}

pub open spec fn pimp(a: Pattern, b: Pattern) -> Pattern {
    Pattern::Implies(Box::new(a), Box::new(b))
}

pub open spec fn plet(a: Pattern, b: Pattern) -> Pattern {
    Pattern::Let(Box::new(a), Box::new(b))
}

pub open spec fn pcat(a: Pattern, b: Pattern) -> Pattern {
    Pattern::Concat(Box::new(a), Box::new(b))
}

/// Build a pattern variable.
pub fn bvar(i: u32) -> (r: Pattern)
    ensures
        r == pvar(i),
{
    Pattern::Var(i)
}

/// Build a boolean constant.
pub fn blit(c: bool) -> (r: Pattern)
    ensures
        r == plit(c),
{
    Pattern::Lit(c)
}

/// Build a conjunction pattern.
pub fn band(a: Pattern, b: Pattern) -> (r: Pattern)
    ensures
        r == pand(a, b),
{
    Pattern::And(Box::new(a), Box::new(b))
}

/// Build a disjunction pattern.
pub fn bor(a: Pattern, b: Pattern) -> (r: Pattern)
    ensures
        r == por(a, b),
{
    Pattern::Or(Box::new(a), Box::new(b))
}

/// Build a negation pattern.
pub fn bnot(a: Pattern) -> (r: Pattern)
    ensures
        r == pnot(a),
{
    Pattern::Not(Box::new(a))
}

/// Build an implication pattern.
pub fn bimp(a: Pattern, b: Pattern) -> (r: Pattern)
    ensures
        r == pimp(a, b),
{
    Pattern::Implies(Box::new(a), Box::new(b))
}

/// Build an equivalence-test pattern.
pub fn blet(a: Pattern, b: Pattern) -> (r: Pattern)
    ensures
        r == plet(a, b),
{
    Pattern::Let(Box::new(a), Box::new(b))
}

/// Build an ordering-test pattern.
pub fn bcat(a: Pattern, b: Pattern) -> (r: Pattern)
    ensures
        r == pcat(a, b),
{
    Pattern::Concat(Box::new(a), Box::new(b))
}

/// Textual name of a pattern variable. Three variables suffice for the catalog.
pub open spec fn var_text(i: u32) -> Seq<char> {
    if i == 0 {
        "?v0"@
    } else if i == 1 {
        "?v1"@
    } else {
        "?v2"@
    }
}

/// The textual prefix form of a pattern, with `0` and `1` for the constants.
pub open spec fn pat_print_spec(p: Pattern) -> Seq<char>
    decreases p,
{
    match p {
        Pattern::Var(i) => var_text(i),
        Pattern::Lit(c) => if c {
            "1"@
        } else {
            "0"@
        },
        Pattern::And(a, b) => "(* "@ + pat_print_spec(*a) + " "@ + pat_print_spec(*b) + ")"@,
        Pattern::Or(a, b) => "(+ "@ + pat_print_spec(*a) + " "@ + pat_print_spec(*b) + ")"@,
        Pattern::Not(a) => "(! "@ + pat_print_spec(*a) + ")"@,
        Pattern::Implies(a, b) => "(-> "@ + pat_print_spec(*a) + " "@ + pat_print_spec(*b) + ")"@,
        Pattern::Let(a, b) => "(let "@ + pat_print_spec(*a) + " "@ + pat_print_spec(*b) + ")"@,
        Pattern::Concat(a, b) => "(& "@ + pat_print_spec(*a) + " "@ + pat_print_spec(*b) + ")"@,
    }
}

/// Structural size of a pattern; drives the printer's recursion.
pub open spec fn pat_size(p: Pattern) -> nat
    decreases p,
{
    match p {
        Pattern::Var(_) => 1,
        Pattern::Lit(_) => 1,
        Pattern::And(a, b) => 1 + pat_size(*a) + pat_size(*b),
        Pattern::Or(a, b) => 1 + pat_size(*a) + pat_size(*b),
        Pattern::Not(a) => 1 + pat_size(*a),
        Pattern::Implies(a, b) => 1 + pat_size(*a) + pat_size(*b),
        Pattern::Let(a, b) => 1 + pat_size(*a) + pat_size(*b),
        Pattern::Concat(a, b) => 1 + pat_size(*a) + pat_size(*b),
    }
}

/// Render a pattern in its textual prefix form.
pub fn pat_text(p: &Pattern) -> (r: String)
    ensures
        r@ == pat_print_spec(*p),
    decreases pat_size(*p),
{
    match p {
        Pattern::Var(i) => {
            if *i == 0 {
                "?v0".to_owned()
            } else if *i == 1 {
                "?v1".to_owned()
            } else {
                "?v2".to_owned()
            }
        },
        Pattern::Lit(c) => {
            if *c {
                "1".to_owned()
            } else {
                "0".to_owned()
            }
        },
        Pattern::And(a, b) => pat_binary("(* ", &**a, &**b),
        Pattern::Or(a, b) => pat_binary("(+ ", &**a, &**b),
        Pattern::Implies(a, b) => pat_binary("(-> ", &**a, &**b),
        Pattern::Let(a, b) => pat_binary("(let ", &**a, &**b),
        Pattern::Concat(a, b) => pat_binary("(& ", &**a, &**b),
        Pattern::Not(a) => {
            let mut s = "(! ".to_owned();
            let sa = pat_text(&**a);
            s.append(sa.as_str());
            s.append(")");
            proof {
                assert(s@ =~= "(! "@ + pat_print_spec(**a) + ")"@);
            }
            s
        },
    }
}

/// Render one binary pattern node.
fn pat_binary(head: &str, a: &Pattern, b: &Pattern) -> (r: String)
    ensures
        r@ == head@ + pat_print_spec(*a) + " "@ + pat_print_spec(*b) + ")"@,
    decreases pat_size(*a) + pat_size(*b),
{
    proof {
        assert(pat_size(*a) >= 1);
        assert(pat_size(*b) >= 1);
    }
    let mut s = head.to_owned();
    let sa = pat_text(a);
    s.append(sa.as_str());
    s.append(" ");
    let sb = pat_text(b);
    s.append(sb.as_str());
    s.append(")");
    proof {
        assert(s@ =~= head@ + pat_print_spec(*a) + " "@ + pat_print_spec(*b) + ")"@);
    }
    s
}

} // verus!
