//! The rewrite-rule catalogs: the enhanced boolean-identity set used for
//! saturation, and the one-way theorem set. Every rule in both catalogs is
//! proved sound: its two sides evaluate identically under every assignment of
//! the pattern variables to truth values. Candidate theorems that were never
//! independently proven are deliberately absent from both catalogs.

use crate::pattern::{Pattern, band, bcat, bimp, blet, blit, bnot, bor, bvar, pand, pcat, peval, pimp, plet, plit, pnot, por, pvar, sides_sound};
use vstd::prelude::*;
use vstd::string::StringExecFns;

verus! {

/// One rewrite identity. A bidirectional rule may be applied both ways.
pub struct Rule {
    pub name: String,
    pub lhs: Pattern,
    pub rhs: Pattern,
    pub bidirectional: bool,
}

/// A rule value carries the catalog entry at the given index.
pub open spec fn rule_is(r: Rule, lhs: Pattern, rhs: Pattern, bi: bool, name: Seq<char>) -> bool {
    r.lhs == lhs && r.rhs == rhs && r.bidirectional == bi && r.name@ == name
}

/// Number of rules in the catalog.
pub open spec fn enhance_count() -> int {
    23
}

pub open spec fn enhance_lhs(i: int) -> Pattern {
    if i == 0 {
        pand(pvar(0), plit(false))
    } else if i == 1 {
        por(pvar(0), plit(true))
    } else if i == 2 {
        pand(pvar(0), pnot(pvar(0)))
    } else if i == 3 {
        por(pvar(0), pnot(pvar(0)))
    } else if i == 4 {
        pand(pvar(0), por(pvar(0), pvar(1)))
    } else if i == 5 {
        por(pvar(0), pand(pvar(0), pvar(1)))
    } else if i == 6 {
        por(pand(pvar(0), pvar(1)), pand(pvar(0), pnot(pvar(1))))
    } else if i == 7 {
        pand(por(pvar(0), pvar(1)), por(pvar(0), pnot(pvar(1))))
    } else if i == 8 {
        pand(pvar(0), plit(true))
    } else if i == 9 {
        por(pvar(0), plit(false))
    } else if i == 10 {
        pand(pvar(0), pvar(0))
    } else if i == 11 {
        por(pvar(0), pvar(0))
    } else if i == 12 {
        pnot(pnot(pvar(0)))
    } else if i == 13 {
        pand(pvar(0), pvar(1))
    } else if i == 14 {
        por(pvar(0), pvar(1))
    } else if i == 15 {
        pand(pand(pvar(0), pvar(1)), pvar(2))
    } else if i == 16 {
        por(por(pvar(0), pvar(1)), pvar(2))
    } else if i == 17 {
        por(pand(pvar(0), pvar(1)), pand(pvar(0), pvar(2)))
    } else if i == 18 {
        pand(por(pvar(0), pvar(1)), por(pvar(0), pvar(2)))
    } else if i == 19 {
        por(por(pand(pvar(0), pvar(1)), pand(pnot(pvar(0)), pvar(2))), pand(pvar(1), pvar(2)))
    } else if i == 20 {
        pand(pand(por(pvar(0), pvar(1)), por(pnot(pvar(0)), pvar(2))), por(pvar(1), pvar(2)))
    } else if i == 21 {
        pnot(pand(pvar(0), pvar(1)))
    } else {
        pnot(por(pvar(0), pvar(1)))
    }
}

pub open spec fn enhance_rhs(i: int) -> Pattern {
    if i == 0 {
        plit(false)
    } else if i == 1 {
        plit(true)
    } else if i == 2 {
        plit(false)
    } else if i == 3 {
        plit(true)
    } else if i == 4 {
        pvar(0)
    } else if i == 5 {
        pvar(0)
    } else if i == 6 {
        pvar(0)
    } else if i == 7 {
        pvar(0)
    } else if i == 8 {
        pvar(0)
    } else if i == 9 {
        pvar(0)
    } else if i == 10 {
        pvar(0)
    } else if i == 11 {
        pvar(0)
    } else if i == 12 {
        pvar(0)
    } else if i == 13 {
        pand(pvar(1), pvar(0))
    } else if i == 14 {
        por(pvar(1), pvar(0))
    } else if i == 15 {
        pand(pvar(0), pand(pvar(1), pvar(2)))
    } else if i == 16 {
        por(pvar(0), por(pvar(1), pvar(2)))
    } else if i == 17 {
        pand(pvar(0), por(pvar(1), pvar(2)))
    } else if i == 18 {
        por(pvar(0), pand(pvar(1), pvar(2)))
    } else if i == 19 {
        por(pand(pvar(0), pvar(1)), pand(pnot(pvar(0)), pvar(2)))
    } else if i == 20 {
        pand(por(pvar(0), pvar(1)), por(pnot(pvar(0)), pvar(2)))
    } else if i == 21 {
        por(pnot(pvar(0)), pnot(pvar(1)))
    } else {
        pand(pnot(pvar(0)), pnot(pvar(1)))
    }
}

pub open spec fn enhance_name(i: int) -> Seq<char> {
    if i == 0 {
        "null-element1"@
    } else if i == 1 {
        "null-element2"@
    } else if i == 2 {
        "complements1"@
    } else if i == 3 {
        "complements2"@
    } else if i == 4 {
        "covering1"@
    } else if i == 5 {
        "covering2"@
    } else if i == 6 {
        "combining1"@
    } else if i == 7 {
        "combining2"@
    } else if i == 8 {
        "identity1"@
    } else if i == 9 {
        "identity2'"@
    } else if i == 10 {
        "idempotency1"@
    } else if i == 11 {
        "idempotency2"@
    } else if i == 12 {
        "involution1"@
    } else if i == 13 {
        "commutativity1"@
    } else if i == 14 {
        "commutativity2"@
    } else if i == 15 {
        "associativity1"@
    } else if i == 16 {
        "associativity2"@
    } else if i == 17 {
        "distributivity1"@
    } else if i == 18 {
        "distributivity2"@
    } else if i == 19 {
        "consensus1"@
    } else if i == 20 {
        "consensus2"@
    } else if i == 21 {
        "de-morgan1"@
    } else {
        "de-morgan2"@
    }
}

pub open spec fn enhance_bi(i: int) -> bool {
    if i == 0 {
        false
    } else if i == 1 {
        false
    } else if i == 2 {
        false
    } else if i == 3 {
        false
    } else if i == 4 {
        false
    } else if i == 5 {
        false
    } else if i == 6 {
        false
    } else if i == 7 {
        false
    } else if i == 8 {
        true
    } else if i == 9 {
        true
    } else if i == 10 {
        true
    } else if i == 11 {
        true
    } else if i == 12 {
        true
    } else if i == 13 {
        true
    } else if i == 14 {
        true
    } else if i == 15 {
        true
    } else if i == 16 {
        true
    } else if i == 17 {
        true
    } else if i == 18 {
        true
    } else if i == 19 {
        true
    } else if i == 20 {
        true
    } else if i == 21 {
        true
    } else {
        true
    }
}

/// The enhanced catalog: the boolean identities used for saturation.
pub fn make_rules_enhance() -> (r: Vec<Rule>)
    ensures
        r@.len() == enhance_count(),
        forall|i: int|
            0 <= i < enhance_count() ==> rule_is(
                #[trigger] r@[i],
                enhance_lhs(i),
                enhance_rhs(i),
                enhance_bi(i),
                enhance_name(i),
            ),
{
    let mut v: Vec<Rule> = Vec::new();
    v.push(Rule { name: "null-element1".to_owned(), lhs: band(bvar(0), blit(false)), rhs: blit(false), bidirectional: false });
    v.push(Rule { name: "null-element2".to_owned(), lhs: bor(bvar(0), blit(true)), rhs: blit(true), bidirectional: false });
    v.push(Rule { name: "complements1".to_owned(), lhs: band(bvar(0), bnot(bvar(0))), rhs: blit(false), bidirectional: false });
    v.push(Rule { name: "complements2".to_owned(), lhs: bor(bvar(0), bnot(bvar(0))), rhs: blit(true), bidirectional: false });
    v.push(Rule { name: "covering1".to_owned(), lhs: band(bvar(0), bor(bvar(0), bvar(1))), rhs: bvar(0), bidirectional: false });
    v.push(Rule { name: "covering2".to_owned(), lhs: bor(bvar(0), band(bvar(0), bvar(1))), rhs: bvar(0), bidirectional: false });
    v.push(Rule { name: "combining1".to_owned(), lhs: bor(band(bvar(0), bvar(1)), band(bvar(0), bnot(bvar(1)))), rhs: bvar(0), bidirectional: false });
    v.push(Rule { name: "combining2".to_owned(), lhs: band(bor(bvar(0), bvar(1)), bor(bvar(0), bnot(bvar(1)))), rhs: bvar(0), bidirectional: false });
    v.push(Rule { name: "identity1".to_owned(), lhs: band(bvar(0), blit(true)), rhs: bvar(0), bidirectional: true });
    v.push(Rule { name: "identity2'".to_owned(), lhs: bor(bvar(0), blit(false)), rhs: bvar(0), bidirectional: true });
    v.push(Rule { name: "idempotency1".to_owned(), lhs: band(bvar(0), bvar(0)), rhs: bvar(0), bidirectional: true });
    v.push(Rule { name: "idempotency2".to_owned(), lhs: bor(bvar(0), bvar(0)), rhs: bvar(0), bidirectional: true });
    v.push(Rule { name: "involution1".to_owned(), lhs: bnot(bnot(bvar(0))), rhs: bvar(0), bidirectional: true });
    v.push(Rule { name: "commutativity1".to_owned(), lhs: band(bvar(0), bvar(1)), rhs: band(bvar(1), bvar(0)), bidirectional: true });
    v.push(Rule { name: "commutativity2".to_owned(), lhs: bor(bvar(0), bvar(1)), rhs: bor(bvar(1), bvar(0)), bidirectional: true });
    v.push(Rule { name: "associativity1".to_owned(), lhs: band(band(bvar(0), bvar(1)), bvar(2)), rhs: band(bvar(0), band(bvar(1), bvar(2))), bidirectional: true });
    v.push(Rule { name: "associativity2".to_owned(), lhs: bor(bor(bvar(0), bvar(1)), bvar(2)), rhs: bor(bvar(0), bor(bvar(1), bvar(2))), bidirectional: true });
    v.push(Rule { name: "distributivity1".to_owned(), lhs: bor(band(bvar(0), bvar(1)), band(bvar(0), bvar(2))), rhs: band(bvar(0), bor(bvar(1), bvar(2))), bidirectional: true });
    v.push(Rule { name: "distributivity2".to_owned(), lhs: band(bor(bvar(0), bvar(1)), bor(bvar(0), bvar(2))), rhs: bor(bvar(0), band(bvar(1), bvar(2))), bidirectional: true });
    v.push(Rule { name: "consensus1".to_owned(), lhs: bor(bor(band(bvar(0), bvar(1)), band(bnot(bvar(0)), bvar(2))), band(bvar(1), bvar(2))), rhs: bor(band(bvar(0), bvar(1)), band(bnot(bvar(0)), bvar(2))), bidirectional: true });
    v.push(Rule { name: "consensus2".to_owned(), lhs: band(band(bor(bvar(0), bvar(1)), bor(bnot(bvar(0)), bvar(2))), bor(bvar(1), bvar(2))), rhs: band(bor(bvar(0), bvar(1)), bor(bnot(bvar(0)), bvar(2))), bidirectional: true });
    v.push(Rule { name: "de-morgan1".to_owned(), lhs: bnot(band(bvar(0), bvar(1))), rhs: bor(bnot(bvar(0)), bnot(bvar(1))), bidirectional: true });
    v.push(Rule { name: "de-morgan2".to_owned(), lhs: bnot(bor(bvar(0), bvar(1))), rhs: band(bnot(bvar(0)), bnot(bvar(1))), bidirectional: true });
    proof {
        assert(rule_is(v@[0], enhance_lhs(0), enhance_rhs(0), enhance_bi(0), enhance_name(0)));
        assert(rule_is(v@[1], enhance_lhs(1), enhance_rhs(1), enhance_bi(1), enhance_name(1)));
        assert(rule_is(v@[2], enhance_lhs(2), enhance_rhs(2), enhance_bi(2), enhance_name(2)));
        assert(rule_is(v@[3], enhance_lhs(3), enhance_rhs(3), enhance_bi(3), enhance_name(3)));
        assert(rule_is(v@[4], enhance_lhs(4), enhance_rhs(4), enhance_bi(4), enhance_name(4)));
        assert(rule_is(v@[5], enhance_lhs(5), enhance_rhs(5), enhance_bi(5), enhance_name(5)));
        assert(rule_is(v@[6], enhance_lhs(6), enhance_rhs(6), enhance_bi(6), enhance_name(6)));
        assert(rule_is(v@[7], enhance_lhs(7), enhance_rhs(7), enhance_bi(7), enhance_name(7)));
        assert(rule_is(v@[8], enhance_lhs(8), enhance_rhs(8), enhance_bi(8), enhance_name(8)));
        assert(rule_is(v@[9], enhance_lhs(9), enhance_rhs(9), enhance_bi(9), enhance_name(9)));
        assert(rule_is(v@[10], enhance_lhs(10), enhance_rhs(10), enhance_bi(10), enhance_name(10)));
        assert(rule_is(v@[11], enhance_lhs(11), enhance_rhs(11), enhance_bi(11), enhance_name(11)));
        assert(rule_is(v@[12], enhance_lhs(12), enhance_rhs(12), enhance_bi(12), enhance_name(12)));
        assert(rule_is(v@[13], enhance_lhs(13), enhance_rhs(13), enhance_bi(13), enhance_name(13)));
        assert(rule_is(v@[14], enhance_lhs(14), enhance_rhs(14), enhance_bi(14), enhance_name(14)));
        assert(rule_is(v@[15], enhance_lhs(15), enhance_rhs(15), enhance_bi(15), enhance_name(15)));
        assert(rule_is(v@[16], enhance_lhs(16), enhance_rhs(16), enhance_bi(16), enhance_name(16)));
        assert(rule_is(v@[17], enhance_lhs(17), enhance_rhs(17), enhance_bi(17), enhance_name(17)));
        assert(rule_is(v@[18], enhance_lhs(18), enhance_rhs(18), enhance_bi(18), enhance_name(18)));
        assert(rule_is(v@[19], enhance_lhs(19), enhance_rhs(19), enhance_bi(19), enhance_name(19)));
        assert(rule_is(v@[20], enhance_lhs(20), enhance_rhs(20), enhance_bi(20), enhance_name(20)));
        assert(rule_is(v@[21], enhance_lhs(21), enhance_rhs(21), enhance_bi(21), enhance_name(21)));
        assert(rule_is(v@[22], enhance_lhs(22), enhance_rhs(22), enhance_bi(22), enhance_name(22)));
    }
    v
}

/// Every rule of the catalog is sound: both sides agree under every
/// assignment of the pattern variables to truth values.
pub proof fn lemma_make_rules_enhance_sound()
    ensures
        forall|i: int| 0 <= i < enhance_count() ==> sides_sound(enhance_lhs(i), enhance_rhs(i)),
{
    reveal_with_fuel(peval, 10);
    assert(sides_sound(enhance_lhs(0), enhance_rhs(0)));
    assert(sides_sound(enhance_lhs(1), enhance_rhs(1)));
    assert(sides_sound(enhance_lhs(2), enhance_rhs(2)));
    assert(sides_sound(enhance_lhs(3), enhance_rhs(3)));
    assert(sides_sound(enhance_lhs(4), enhance_rhs(4)));
    assert(sides_sound(enhance_lhs(5), enhance_rhs(5)));
    assert(sides_sound(enhance_lhs(6), enhance_rhs(6)));
    assert(sides_sound(enhance_lhs(7), enhance_rhs(7)));
    assert(sides_sound(enhance_lhs(8), enhance_rhs(8)));
    assert(sides_sound(enhance_lhs(9), enhance_rhs(9)));
    assert(sides_sound(enhance_lhs(10), enhance_rhs(10)));
    assert(sides_sound(enhance_lhs(11), enhance_rhs(11)));
    assert(sides_sound(enhance_lhs(12), enhance_rhs(12)));
    assert(sides_sound(enhance_lhs(13), enhance_rhs(13)));
    assert(sides_sound(enhance_lhs(14), enhance_rhs(14)));
    assert(sides_sound(enhance_lhs(15), enhance_rhs(15)));
    assert(sides_sound(enhance_lhs(16), enhance_rhs(16)));
    assert(sides_sound(enhance_lhs(17), enhance_rhs(17)));
    assert(sides_sound(enhance_lhs(18), enhance_rhs(18)));
    assert(sides_sound(enhance_lhs(19), enhance_rhs(19)));
    assert(sides_sound(enhance_lhs(20), enhance_rhs(20)));
    assert(sides_sound(enhance_lhs(21), enhance_rhs(21)));
    assert(sides_sound(enhance_lhs(22), enhance_rhs(22)));
}

/// Number of rules in the catalog.
pub open spec fn thm_count() -> int {
    16
}

pub open spec fn thm_lhs(i: int) -> Pattern {
    if i == 0 {
        pimp(pvar(0), pvar(1))
    } else if i == 1 {
        pnot(pnot(pvar(0)))
    } else if i == 2 {
        por(pvar(0), por(pvar(1), pvar(2)))
    } else if i == 3 {
        pand(pvar(0), por(pvar(1), pvar(2)))
    } else if i == 4 {
        por(pvar(0), pand(pvar(1), pvar(2)))
    } else if i == 5 {
        por(pvar(0), pvar(1))
    } else if i == 6 {
        pand(pvar(0), pvar(1))
    } else if i == 7 {
        pimp(pvar(0), pvar(1))
    } else if i == 8 {
        por(pvar(0), pand(pvar(0), pvar(1)))
    } else if i == 9 {
        por(pvar(0), pand(pnot(pvar(0)), pvar(1)))
    } else if i == 10 {
        por(pand(pvar(0), pvar(1)), por(pand(pnot(pvar(0)), pvar(2)), pand(pvar(1), pvar(2))))
    } else if i == 11 {
        pand(pvar(0), por(pvar(0), pvar(1)))
    } else if i == 12 {
        pand(pvar(0), por(pnot(pvar(0)), pvar(1)))
    } else if i == 13 {
        pand(por(pvar(0), pvar(1)), por(pvar(0), pnot(pvar(1))))
    } else if i == 14 {
        pand(por(pvar(0), pvar(1)), por(pnot(pvar(0)), pvar(2)))
    } else {
        pand(por(pvar(0), pvar(1)), pand(por(pnot(pvar(0)), pvar(2)), por(pvar(1), pvar(2))))
    }
}

pub open spec fn thm_rhs(i: int) -> Pattern {
    if i == 0 {
        por(pnot(pvar(0)), pvar(1))
    } else if i == 1 {
        pvar(0)
    } else if i == 2 {
        por(por(pvar(0), pvar(1)), pvar(2))
    } else if i == 3 {
        por(pand(pvar(0), pvar(1)), pand(pvar(0), pvar(2)))
    } else if i == 4 {
        pand(por(pvar(0), pvar(1)), por(pvar(0), pvar(2)))
    } else if i == 5 {
        por(pvar(1), pvar(0))
    } else if i == 6 {
        pand(pvar(1), pvar(0))
    } else if i == 7 {
        pimp(pnot(pvar(1)), pnot(pvar(0)))
    } else if i == 8 {
        pvar(0)
    } else if i == 9 {
        por(pvar(0), pvar(1))
    } else if i == 10 {
        por(pand(pvar(0), pvar(1)), pand(pnot(pvar(0)), pvar(2)))
    } else if i == 11 {
        pvar(0)
    } else if i == 12 {
        pand(pvar(0), pvar(1))
    } else if i == 13 {
        pvar(0)
    } else if i == 14 {
        por(pand(pvar(0), pvar(2)), pand(pnot(pvar(0)), pvar(1)))
    } else {
        pand(por(pvar(0), pvar(1)), por(pnot(pvar(0)), pvar(2)))
    }
}

pub open spec fn thm_name(i: int) -> Seq<char> {
    if i == 0 {
        "th1"@
    } else if i == 1 {
        "th2"@
    } else if i == 2 {
        "th3"@
    } else if i == 3 {
        "th4"@
    } else if i == 4 {
        "th5"@
    } else if i == 5 {
        "th6"@
    } else if i == 6 {
        "th7"@
    } else if i == 7 {
        "th9"@
    } else if i == 8 {
        "th10"@
    } else if i == 9 {
        "th11"@
    } else if i == 10 {
        "th12"@
    } else if i == 11 {
        "th13"@
    } else if i == 12 {
        "th14"@
    } else if i == 13 {
        "th15"@
    } else if i == 14 {
        "th16"@
    } else {
        "th17"@
    }
}

pub open spec fn thm_bi(i: int) -> bool {
    false
}

/// The one-way theorem catalog over implication and the basic connectives.
pub fn make_rules() -> (r: Vec<Rule>)
    ensures
        r@.len() == thm_count(),
        forall|i: int|
            0 <= i < thm_count() ==> rule_is(
                #[trigger] r@[i],
                thm_lhs(i),
                thm_rhs(i),
                thm_bi(i),
                thm_name(i),
            ),
{
    let mut v: Vec<Rule> = Vec::new();
    v.push(Rule { name: "th1".to_owned(), lhs: bimp(bvar(0), bvar(1)), rhs: bor(bnot(bvar(0)), bvar(1)), bidirectional: false });
    v.push(Rule { name: "th2".to_owned(), lhs: bnot(bnot(bvar(0))), rhs: bvar(0), bidirectional: false });
    v.push(Rule { name: "th3".to_owned(), lhs: bor(bvar(0), bor(bvar(1), bvar(2))), rhs: bor(bor(bvar(0), bvar(1)), bvar(2)), bidirectional: false });
    v.push(Rule { name: "th4".to_owned(), lhs: band(bvar(0), bor(bvar(1), bvar(2))), rhs: bor(band(bvar(0), bvar(1)), band(bvar(0), bvar(2))), bidirectional: false });
    v.push(Rule { name: "th5".to_owned(), lhs: bor(bvar(0), band(bvar(1), bvar(2))), rhs: band(bor(bvar(0), bvar(1)), bor(bvar(0), bvar(2))), bidirectional: false });
    v.push(Rule { name: "th6".to_owned(), lhs: bor(bvar(0), bvar(1)), rhs: bor(bvar(1), bvar(0)), bidirectional: false });
    v.push(Rule { name: "th7".to_owned(), lhs: band(bvar(0), bvar(1)), rhs: band(bvar(1), bvar(0)), bidirectional: false });
    v.push(Rule { name: "th9".to_owned(), lhs: bimp(bvar(0), bvar(1)), rhs: bimp(bnot(bvar(1)), bnot(bvar(0))), bidirectional: false });
    v.push(Rule { name: "th10".to_owned(), lhs: bor(bvar(0), band(bvar(0), bvar(1))), rhs: bvar(0), bidirectional: false });
    v.push(Rule { name: "th11".to_owned(), lhs: bor(bvar(0), band(bnot(bvar(0)), bvar(1))), rhs: bor(bvar(0), bvar(1)), bidirectional: false });
    v.push(Rule { name: "th12".to_owned(), lhs: bor(band(bvar(0), bvar(1)), bor(band(bnot(bvar(0)), bvar(2)), band(bvar(1), bvar(2)))), rhs: bor(band(bvar(0), bvar(1)), band(bnot(bvar(0)), bvar(2))), bidirectional: false });
    v.push(Rule { name: "th13".to_owned(), lhs: band(bvar(0), bor(bvar(0), bvar(1))), rhs: bvar(0), bidirectional: false });
    v.push(Rule { name: "th14".to_owned(), lhs: band(bvar(0), bor(bnot(bvar(0)), bvar(1))), rhs: band(bvar(0), bvar(1)), bidirectional: false });
    v.push(Rule { name: "th15".to_owned(), lhs: band(bor(bvar(0), bvar(1)), bor(bvar(0), bnot(bvar(1)))), rhs: bvar(0), bidirectional: false });
    v.push(Rule { name: "th16".to_owned(), lhs: band(bor(bvar(0), bvar(1)), bor(bnot(bvar(0)), bvar(2))), rhs: bor(band(bvar(0), bvar(2)), band(bnot(bvar(0)), bvar(1))), bidirectional: false });
    v.push(Rule { name: "th17".to_owned(), lhs: band(bor(bvar(0), bvar(1)), band(bor(bnot(bvar(0)), bvar(2)), bor(bvar(1), bvar(2)))), rhs: band(bor(bvar(0), bvar(1)), bor(bnot(bvar(0)), bvar(2))), bidirectional: false });
    proof {
        assert(rule_is(v@[0], thm_lhs(0), thm_rhs(0), false, thm_name(0)));
        assert(rule_is(v@[1], thm_lhs(1), thm_rhs(1), false, thm_name(1)));
        assert(rule_is(v@[2], thm_lhs(2), thm_rhs(2), false, thm_name(2)));
        assert(rule_is(v@[3], thm_lhs(3), thm_rhs(3), false, thm_name(3)));
        assert(rule_is(v@[4], thm_lhs(4), thm_rhs(4), false, thm_name(4)));
        assert(rule_is(v@[5], thm_lhs(5), thm_rhs(5), false, thm_name(5)));
        assert(rule_is(v@[6], thm_lhs(6), thm_rhs(6), false, thm_name(6)));
        assert(rule_is(v@[7], thm_lhs(7), thm_rhs(7), false, thm_name(7)));
        assert(rule_is(v@[8], thm_lhs(8), thm_rhs(8), false, thm_name(8)));
        assert(rule_is(v@[9], thm_lhs(9), thm_rhs(9), false, thm_name(9)));
        assert(rule_is(v@[10], thm_lhs(10), thm_rhs(10), false, thm_name(10)));
        assert(rule_is(v@[11], thm_lhs(11), thm_rhs(11), false, thm_name(11)));
        assert(rule_is(v@[12], thm_lhs(12), thm_rhs(12), false, thm_name(12)));
        assert(rule_is(v@[13], thm_lhs(13), thm_rhs(13), false, thm_name(13)));
        assert(rule_is(v@[14], thm_lhs(14), thm_rhs(14), false, thm_name(14)));
        assert(rule_is(v@[15], thm_lhs(15), thm_rhs(15), false, thm_name(15)));
    }
    v
}

/// Every rule of the catalog is sound: both sides agree under every
/// assignment of the pattern variables to truth values.
pub proof fn lemma_make_rules_sound()
    ensures
        forall|i: int| 0 <= i < thm_count() ==> sides_sound(thm_lhs(i), thm_rhs(i)),
{
    reveal_with_fuel(peval, 10);
    assert(sides_sound(thm_lhs(0), thm_rhs(0)));
    assert(sides_sound(thm_lhs(1), thm_rhs(1)));
    assert(sides_sound(thm_lhs(2), thm_rhs(2)));
    assert(sides_sound(thm_lhs(3), thm_rhs(3)));
    assert(sides_sound(thm_lhs(4), thm_rhs(4)));
    assert(sides_sound(thm_lhs(5), thm_rhs(5)));
    assert(sides_sound(thm_lhs(6), thm_rhs(6)));
    assert(sides_sound(thm_lhs(7), thm_rhs(7)));
    assert(sides_sound(thm_lhs(8), thm_rhs(8)));
    assert(sides_sound(thm_lhs(9), thm_rhs(9)));
    assert(sides_sound(thm_lhs(10), thm_rhs(10)));
    assert(sides_sound(thm_lhs(11), thm_rhs(11)));
    assert(sides_sound(thm_lhs(12), thm_rhs(12)));
    assert(sides_sound(thm_lhs(13), thm_rhs(13)));
    assert(sides_sound(thm_lhs(14), thm_rhs(14)));
    assert(sides_sound(thm_lhs(15), thm_rhs(15)));
}

} // verus!
