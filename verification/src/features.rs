//! The structural feature vector of a candidate: counts of the four operator
//! symbols in its serialized form, plus its structural size and depth. The
//! counts are taken off the text, exactly as the quality scorer consumes them,
//! and proved equal to the structural operator counts for expressions whose
//! symbol names stay clear of the operator characters.

use crate::expr::{Expr, ast_depth, ast_size, depth_spec, print_expr, print_spec, size_spec};
use vstd::string::StringSliceAdditionalSpecFns;
use vstd::prelude::*;

verus! {

/// Occurrences of one character in a text.
pub open spec fn count_char(s: Seq<char>, c: char) -> int
    decreases s.len(),
{
    if s.len() == 0 {
        0
    } else {
        count_char(s.drop_last(), c) + (if s.last() == c {
            1int
        } else {
            0int
        })
    }
}

/// A count never exceeds the text's length.
pub proof fn lemma_count_char_bounds(s: Seq<char>, c: char)
    ensures
        0 <= count_char(s, c) <= s.len(),
    decreases s.len(),
{
    if s.len() > 0 {
        lemma_count_char_bounds(s.drop_last(), c);
    }
}

/// Counting distributes over concatenation.
pub proof fn lemma_count_char_add(a: Seq<char>, b: Seq<char>, c: char)
    ensures
        count_char(a + b, c) == count_char(a, c) + count_char(b, c),
    decreases b.len(),
{
    if b.len() == 0 {
        assert(a + b =~= a);
    } else {
        assert((a + b).drop_last() =~= a + b.drop_last());
        lemma_count_char_add(a, b.drop_last(), c);
    }
}

/// Structural count of OR nodes.
pub open spec fn or_count(e: Expr) -> int
    decreases e,
{
    match e {
        Expr::Bool(_) => 0,
        Expr::Symbol(_) => 0,
        Expr::Not(a) => or_count(*a),
        Expr::Or(a, b) => 1 + or_count(*a) + or_count(*b),
        Expr::And(a, b) => or_count(*a) + or_count(*b),
        Expr::Implies(a, b) => or_count(*a) + or_count(*b),
        Expr::Let(a, b) => or_count(*a) + or_count(*b),
        Expr::Concat(a, b) => or_count(*a) + or_count(*b),
    }
}

/// Structural count of NOT nodes.
pub open spec fn not_count(e: Expr) -> int
    decreases e,
{
    match e {
        Expr::Bool(_) => 0,
        Expr::Symbol(_) => 0,
        Expr::Not(a) => 1 + not_count(*a),
        Expr::Or(a, b) => not_count(*a) + not_count(*b),
        Expr::And(a, b) => not_count(*a) + not_count(*b),
        Expr::Implies(a, b) => not_count(*a) + not_count(*b),
        Expr::Let(a, b) => not_count(*a) + not_count(*b),
        Expr::Concat(a, b) => not_count(*a) + not_count(*b),
    }
}

/// Structural count of AND nodes.
pub open spec fn and_count(e: Expr) -> int
    decreases e,
{
    match e {
        Expr::Bool(_) => 0,
        Expr::Symbol(_) => 0,
        Expr::Not(a) => and_count(*a),
        Expr::Or(a, b) => and_count(*a) + and_count(*b),
        Expr::And(a, b) => 1 + and_count(*a) + and_count(*b),
        Expr::Implies(a, b) => and_count(*a) + and_count(*b),
        Expr::Let(a, b) => and_count(*a) + and_count(*b),
        Expr::Concat(a, b) => and_count(*a) + and_count(*b),
    }
}

/// Structural count of CONCAT nodes.
pub open spec fn concat_count(e: Expr) -> int
    decreases e,
{
    match e {
        Expr::Bool(_) => 0,
        Expr::Symbol(_) => 0,
        Expr::Not(a) => concat_count(*a),
        Expr::Or(a, b) => concat_count(*a) + concat_count(*b),
        Expr::And(a, b) => concat_count(*a) + concat_count(*b),
        Expr::Implies(a, b) => concat_count(*a) + concat_count(*b),
        Expr::Let(a, b) => concat_count(*a) + concat_count(*b),
        Expr::Concat(a, b) => 1 + concat_count(*a) + concat_count(*b),
    }
}

/// Structural count of IMPLIES nodes.
pub open spec fn implies_count(e: Expr) -> int
    decreases e,
{
    match e {
        Expr::Bool(_) => 0,
        Expr::Symbol(_) => 0,
        Expr::Not(a) => implies_count(*a),
        Expr::Or(a, b) => implies_count(*a) + implies_count(*b),
        Expr::And(a, b) => implies_count(*a) + implies_count(*b),
        Expr::Implies(a, b) => 1 + implies_count(*a) + implies_count(*b),
        Expr::Let(a, b) => implies_count(*a) + implies_count(*b),
        Expr::Concat(a, b) => implies_count(*a) + implies_count(*b),
    }
}

/// An ASCII character that is none of the six operator characters.
pub open spec fn symbol_char(c: char) -> bool {
    '\0' <= c <= '\u{7f}' && c != '+' && c != '!' && c != '*' && c != '&' && c != '-' && c != '>'
}

/// Every symbol name consists of such characters, so operator counts taken off
/// the text cannot be polluted by names.
pub open spec fn tidy_symbols(e: Expr) -> bool
    decreases e,
{
    match e {
        Expr::Bool(_) => true,
        Expr::Symbol(s) => forall|i: int| 0 <= i < s@.len() ==> symbol_char(#[trigger] s@[i]),
        Expr::Not(a) => tidy_symbols(*a),
        Expr::Or(a, b) => tidy_symbols(*a) && tidy_symbols(*b),
        Expr::And(a, b) => tidy_symbols(*a) && tidy_symbols(*b),
        Expr::Implies(a, b) => tidy_symbols(*a) && tidy_symbols(*b),
        Expr::Let(a, b) => tidy_symbols(*a) && tidy_symbols(*b),
        Expr::Concat(a, b) => tidy_symbols(*a) && tidy_symbols(*b),
    }
}

/// A text of symbol characters contains no occurrence of an operator character.
proof fn lemma_count_symbol_text(s: Seq<char>, c: char)
    requires
        forall|i: int| 0 <= i < s.len() ==> symbol_char(#[trigger] s[i]),
        !symbol_char(c),
        '\0' <= c <= '\u{7f}',
    ensures
        count_char(s, c) == 0,
    decreases s.len(),
{
    if s.len() > 0 {
        lemma_count_symbol_text(s.drop_last(), c);
    }
}

/// ASCII-ness is preserved by concatenation.
proof fn lemma_ascii_add(a: Seq<char>, b: Seq<char>)
    requires
        vstd::utf8::is_ascii_chars(a),
        vstd::utf8::is_ascii_chars(b),
    ensures
        vstd::utf8::is_ascii_chars(a + b),
{
    assert forall|i: int| 0 <= i < (a + b).len() implies '\0' <= #[trigger] (a + b)[i]
        <= '\u{7f}' by {
        if i < a.len() {
            assert((a + b)[i] == a[i]);
        } else {
            assert((a + b)[i] == b[i - a.len()]);
        }
    };
}

/// The printed form of a tidy expression is ASCII throughout.
pub proof fn lemma_print_ascii(e: Expr)
    requires
        tidy_symbols(e),
    ensures
        vstd::utf8::is_ascii_chars(print_spec(e)),
    decreases e,
{
    reveal_strlit("true");
    reveal_strlit("false");
    reveal_strlit("(* ");
    reveal_strlit("(+ ");
    reveal_strlit("(! ");
    reveal_strlit("(-> ");
    reveal_strlit("(let ");
    reveal_strlit("(& ");
    reveal_strlit(" ");
    reveal_strlit(")");
    match e {
        Expr::Bool(_) => {},
        Expr::Symbol(_) => {},
        Expr::Not(a) => {
            lemma_print_ascii(*a);
            lemma_ascii_add("(! "@, print_spec(*a));
            lemma_ascii_add("(! "@ + print_spec(*a), ")"@);
        },
        Expr::Or(a, b) => {
            lemma_print_ascii(*a);
            lemma_print_ascii(*b);
            lemma_ascii_add("(+ "@, print_spec(*a));
            lemma_ascii_add("(+ "@ + print_spec(*a), " "@);
            lemma_ascii_add("(+ "@ + print_spec(*a) + " "@, print_spec(*b));
            lemma_ascii_add("(+ "@ + print_spec(*a) + " "@ + print_spec(*b), ")"@);
        },
        Expr::And(a, b) => {
            lemma_print_ascii(*a);
            lemma_print_ascii(*b);
            lemma_ascii_add("(* "@, print_spec(*a));
            lemma_ascii_add("(* "@ + print_spec(*a), " "@);
            lemma_ascii_add("(* "@ + print_spec(*a) + " "@, print_spec(*b));
            lemma_ascii_add("(* "@ + print_spec(*a) + " "@ + print_spec(*b), ")"@);
        },
        Expr::Implies(a, b) => {
            lemma_print_ascii(*a);
            lemma_print_ascii(*b);
            lemma_ascii_add("(-> "@, print_spec(*a));
            lemma_ascii_add("(-> "@ + print_spec(*a), " "@);
            lemma_ascii_add("(-> "@ + print_spec(*a) + " "@, print_spec(*b));
            lemma_ascii_add("(-> "@ + print_spec(*a) + " "@ + print_spec(*b), ")"@);
        },
        Expr::Let(a, b) => {
            lemma_print_ascii(*a);
            lemma_print_ascii(*b);
            lemma_ascii_add("(let "@, print_spec(*a));
            lemma_ascii_add("(let "@ + print_spec(*a), " "@);
            lemma_ascii_add("(let "@ + print_spec(*a) + " "@, print_spec(*b));
            lemma_ascii_add("(let "@ + print_spec(*a) + " "@ + print_spec(*b), ")"@);
        },
        Expr::Concat(a, b) => {
            lemma_print_ascii(*a);
            lemma_print_ascii(*b);
            lemma_ascii_add("(& "@, print_spec(*a));
            lemma_ascii_add("(& "@ + print_spec(*a), " "@);
            lemma_ascii_add("(& "@ + print_spec(*a) + " "@, print_spec(*b));
            lemma_ascii_add("(& "@ + print_spec(*a) + " "@ + print_spec(*b), ")"@);
        },
    }
}

/// Operator occurrences in the printed text are exactly the structural
/// operator counts, for a tidy expression; the two implication characters each
/// count the IMPLIES nodes.
pub proof fn lemma_operator_counts(e: Expr, c: char)
    requires
        tidy_symbols(e),
        c == '+' || c == '!' || c == '*' || c == '&' || c == '-' || c == '>',
    ensures
        c == '+' ==> count_char(print_spec(e), c) == or_count(e),
        c == '!' ==> count_char(print_spec(e), c) == not_count(e),
        c == '*' ==> count_char(print_spec(e), c) == and_count(e),
        c == '&' ==> count_char(print_spec(e), c) == concat_count(e),
        c == '-' ==> count_char(print_spec(e), c) == implies_count(e),
        c == '>' ==> count_char(print_spec(e), c) == implies_count(e),
    decreases e,
{
    reveal_strlit("true");
    reveal_strlit("false");
    reveal_strlit("(* ");
    reveal_strlit("(+ ");
    reveal_strlit("(! ");
    reveal_strlit("(-> ");
    reveal_strlit("(let ");
    reveal_strlit("(& ");
    reveal_strlit(" ");
    reveal_strlit(")");
    reveal_with_fuel(count_char, 6);
    match e {
        Expr::Bool(_) => {},
        Expr::Symbol(s) => {
            lemma_count_symbol_text(s@, c);
        },
        Expr::Not(a) => {
            lemma_operator_counts(*a, c);
            lemma_count_char_add("(! "@, print_spec(*a), c);
            lemma_count_char_add("(! "@ + print_spec(*a), ")"@, c);
        },
        Expr::Or(a, b) => {
            lemma_operator_counts(*a, c);
            lemma_operator_counts(*b, c);
            lemma_count_char_add("(+ "@, print_spec(*a), c);
            lemma_count_char_add("(+ "@ + print_spec(*a), " "@, c);
            lemma_count_char_add("(+ "@ + print_spec(*a) + " "@, print_spec(*b), c);
            lemma_count_char_add("(+ "@ + print_spec(*a) + " "@ + print_spec(*b), ")"@, c);
        },
        Expr::And(a, b) => {
            lemma_operator_counts(*a, c);
            lemma_operator_counts(*b, c);
            lemma_count_char_add("(* "@, print_spec(*a), c);
            lemma_count_char_add("(* "@ + print_spec(*a), " "@, c);
            lemma_count_char_add("(* "@ + print_spec(*a) + " "@, print_spec(*b), c);
            lemma_count_char_add("(* "@ + print_spec(*a) + " "@ + print_spec(*b), ")"@, c);
        },
        Expr::Implies(a, b) => {
            lemma_operator_counts(*a, c);
            lemma_operator_counts(*b, c);
            lemma_count_char_add("(-> "@, print_spec(*a), c);
            lemma_count_char_add("(-> "@ + print_spec(*a), " "@, c);
            lemma_count_char_add("(-> "@ + print_spec(*a) + " "@, print_spec(*b), c);
            lemma_count_char_add("(-> "@ + print_spec(*a) + " "@ + print_spec(*b), ")"@, c);
        },
        Expr::Let(a, b) => {
            lemma_operator_counts(*a, c);
            lemma_operator_counts(*b, c);
            lemma_count_char_add("(let "@, print_spec(*a), c);
            lemma_count_char_add("(let "@ + print_spec(*a), " "@, c);
            lemma_count_char_add("(let "@ + print_spec(*a) + " "@, print_spec(*b), c);
            lemma_count_char_add("(let "@ + print_spec(*a) + " "@ + print_spec(*b), ")"@, c);
        },
        Expr::Concat(a, b) => {
            lemma_operator_counts(*a, c);
            lemma_operator_counts(*b, c);
            lemma_count_char_add("(& "@, print_spec(*a), c);
            lemma_count_char_add("(& "@ + print_spec(*a), " "@, c);
            lemma_count_char_add("(& "@ + print_spec(*a) + " "@, print_spec(*b), c);
            lemma_count_char_add("(& "@ + print_spec(*a) + " "@ + print_spec(*b), ")"@, c);
        },
    }
}

/// Occurrence counts of the six operator characters in a text.
pub struct OpCounts {
    pub or_ops: usize,
    pub not_ops: usize,
    pub and_ops: usize,
    pub concat_ops: usize,
    pub dash_ops: usize,
    pub gt_ops: usize,
}

/// Count the six operator characters of one serialized expression.
pub fn count_operators(s: &str) -> (r: OpCounts)
    requires
        s.is_ascii(),
    ensures
        r.or_ops == count_char(s@, '+'),
        r.not_ops == count_char(s@, '!'),
        r.and_ops == count_char(s@, '*'),
        r.concat_ops == count_char(s@, '&'),
        r.dash_ops == count_char(s@, '-'),
        r.gt_ops == count_char(s@, '>'),
{
    proof {
        vstd::string::is_ascii_spec_bytes(s);
    }
    let bytes = s.as_bytes();
    let n = bytes.len();
    let mut or_ops: usize = 0;
    let mut not_ops: usize = 0;
    let mut and_ops: usize = 0;
    let mut concat_ops: usize = 0;
    let mut dash_ops: usize = 0;
    let mut gt_ops: usize = 0;
    let mut i: usize = 0;
    while i < n
        invariant
            s.is_ascii(),
            bytes@ == s.spec_bytes(),
            bytes@ =~= Seq::new(s@.len(), |k: int| s@.index(k) as u8),
            n == bytes@.len(),
            i <= n,
            or_ops == count_char(s@.take(i as int), '+'),
            not_ops == count_char(s@.take(i as int), '!'),
            and_ops == count_char(s@.take(i as int), '*'),
            concat_ops == count_char(s@.take(i as int), '&'),
            dash_ops == count_char(s@.take(i as int), '-'),
            gt_ops == count_char(s@.take(i as int), '>'),
        decreases n - i,
    {
        proof {
            lemma_count_char_bounds(s@.take(i as int), '+');
            lemma_count_char_bounds(s@.take(i as int), '!');
            lemma_count_char_bounds(s@.take(i as int), '*');
            lemma_count_char_bounds(s@.take(i as int), '&');
            lemma_count_char_bounds(s@.take(i as int), '-');
            lemma_count_char_bounds(s@.take(i as int), '>');
            assert(s@.take(i as int + 1).drop_last() =~= s@.take(i as int));
            assert(s@.take(i as int + 1).last() == s@.index(i as int));
        }
        let b = bytes[i];
        if b == 43 {
            or_ops = or_ops + 1;
        } else if b == 33 {
            not_ops = not_ops + 1;
        } else if b == 42 {
            and_ops = and_ops + 1;
        } else if b == 38 {
            concat_ops = concat_ops + 1;
        } else if b == 45 {
            dash_ops = dash_ops + 1;
        } else if b == 62 {
            gt_ops = gt_ops + 1;
        }
        i = i + 1;
    }
    proof {
        assert(s@.take(n as int) =~= s@);
    }
    OpCounts { or_ops, not_ops, and_ops, concat_ops, dash_ops, gt_ops }
}

/// The six feature values of one candidate: four operator counts, structural
/// size, structural depth.
pub struct FeatureVec {
    pub or_ops: usize,
    pub not_ops: usize,
    pub and_ops: usize,
    pub concat_ops: usize,
    pub size: usize,
    pub depth: usize,
}

/// Structural size and depth, re-derived from the expression itself.
pub fn count_ast_size_and_depth(e: &Expr) -> (r: (usize, usize))
    ensures
        r.0 == if size_spec(*e) > usize::MAX {
            usize::MAX as nat
        } else {
            size_spec(*e)
        },
        r.1 == if depth_spec(*e) > usize::MAX {
            usize::MAX as nat
        } else {
            depth_spec(*e)
        },
{
    (ast_size(e), ast_depth(e))
}

/// Derive one candidate's feature vector: serialize it, count the four
/// operator characters off the text, and recount size and depth structurally.
pub fn features(e: &Expr) -> (r: FeatureVec)
    requires
        tidy_symbols(*e),
    ensures
        r.or_ops == or_count(*e),
        r.not_ops == not_count(*e),
        r.and_ops == and_count(*e),
        r.concat_ops == concat_count(*e),
        r.size == if size_spec(*e) > usize::MAX {
            usize::MAX as nat
        } else {
            size_spec(*e)
        },
        r.depth == if depth_spec(*e) > usize::MAX {
            usize::MAX as nat
        } else {
            depth_spec(*e)
        },
{
    let text = print_expr(e);
    proof {
        lemma_print_ascii(*e);
        lemma_operator_counts(*e, '+');
        lemma_operator_counts(*e, '!');
        lemma_operator_counts(*e, '*');
        lemma_operator_counts(*e, '&');
    }
    let ops = count_operators(text.as_str());
    let (size, depth) = count_ast_size_and_depth(e);
    FeatureVec {
        or_ops: ops.or_ops,
        not_ops: ops.not_ops,
        and_ops: ops.and_ops,
        concat_ops: ops.concat_ops,
        size,
        depth,
    }
}

} // verus!
