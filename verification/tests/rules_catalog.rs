use e_rewriter::pattern::{pat_text, Pattern};
use e_rewriter::rules::{make_rules, make_rules_enhance, Rule};

fn eval_pattern(p: &Pattern, env: &[bool; 3]) -> bool {
    match p {
        Pattern::Var(i) => env[*i as usize],
        Pattern::Lit(c) => *c,
        Pattern::And(a, b) => eval_pattern(a, env) && eval_pattern(b, env),
        Pattern::Or(a, b) => eval_pattern(a, env) || eval_pattern(b, env),
        Pattern::Not(a) => !eval_pattern(a, env),
        Pattern::Implies(a, b) => !eval_pattern(a, env) || eval_pattern(b, env),
        Pattern::Let(a, b) => eval_pattern(a, env) == eval_pattern(b, env),
        Pattern::Concat(a, b) => eval_pattern(a, env) && !eval_pattern(b, env),
    }
}

fn assert_sound(rules: &[Rule]) {
    for r in rules {
        for bits in 0..8u32 {
            let env = [bits & 1 != 0, bits & 2 != 0, bits & 4 != 0];
            assert_eq!(
                eval_pattern(&r.lhs, &env),
                eval_pattern(&r.rhs, &env),
                "rule {} differs under {:?}",
                r.name,
                env
            );
        }
    }
}

#[test]
fn enhanced_rules_sound_on_every_assignment() {
    assert_sound(&make_rules_enhance());
}

#[test]
fn theorem_rules_sound_on_every_assignment() {
    assert_sound(&make_rules());
}

#[test]
fn enhanced_catalog_shape() {
    let rules = make_rules_enhance();
    assert_eq!(rules.len(), 23);
    assert_eq!(rules[0].name, "null-element1");
    assert!(!rules[0].bidirectional);
    assert_eq!(rules[4].name, "covering1");
    assert_eq!(pat_text(&rules[4].lhs), "(* ?v0 (+ ?v0 ?v1))");
    assert_eq!(pat_text(&rules[4].rhs), "?v0");
    assert_eq!(rules[22].name, "de-morgan2");
    assert!(rules[22].bidirectional);
    // the one-way simplifications come first, the bidirectional identities after
    assert!(rules.iter().take(8).all(|r| !r.bidirectional));
    assert!(rules.iter().skip(8).all(|r| r.bidirectional));
}

#[test]
fn theorem_catalog_shape() {
    let rules = make_rules();
    assert_eq!(rules.len(), 16);
    assert!(rules.iter().all(|r| !r.bidirectional));
    assert_eq!(rules[0].name, "th1");
    assert_eq!(pat_text(&rules[0].lhs), "(-> ?v0 ?v1)");
    assert_eq!(pat_text(&rules[0].rhs), "(+ (! ?v0) ?v1)");
    assert_eq!(rules[15].name, "th17");
}

#[test]
fn rule_names_are_unique() {
    let mut names: Vec<String> = make_rules_enhance()
        .iter()
        .chain(make_rules().iter())
        .map(|r| r.name.clone())
        .collect();
    let before = names.len();
    names.sort();
    names.dedup();
    assert_eq!(names.len(), before);
}

#[test]
fn constants_render_as_zero_and_one() {
    let rules = make_rules_enhance();
    assert_eq!(pat_text(&rules[0].lhs), "(* ?v0 0)");
    assert_eq!(pat_text(&rules[0].rhs), "0");
    assert_eq!(pat_text(&rules[1].lhs), "(+ ?v0 1)");
    assert_eq!(pat_text(&rules[1].rhs), "1");
}
