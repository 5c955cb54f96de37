//! The declarative rule layer compiled into the primitive engine.

use aristid::interpreted::Production;
use aristid::interpreted::Symbol;
use aristid::interpreted::SymbolExpression;
use aristid::interpreted::SymbolPattern;
use aristid::interpreted::new;

fn sym(label: &str) -> Symbol {
    Symbol { label: String::from(label), params: vec![] }
}

fn pat(label: &str) -> SymbolPattern {
    SymbolPattern { label: String::from(label), params: vec![] }
}

fn out(label: &str) -> SymbolExpression {
    SymbolExpression { label: String::from(label), params: vec![] }
}

#[test]
fn interpreted_no_matching_rules_produces_same_symbol() {
    let system = new(
        vec![sym("A")],
        vec![Production {
            pattern: (None, pat("B"), None),
            guard: None,
            replacement_expression: vec![out("C")],
        }],
    )
    .unwrap();
    assert_eq!(vec![sym("A")], system.apply().unwrap().symbols);
}

#[test]
fn interpreted_matching_rule_is_applied() {
    let system = new(
        vec![sym("A")],
        vec![Production {
            pattern: (None, pat("A"), None),
            guard: None,
            replacement_expression: vec![out("B")],
        }],
    )
    .unwrap();
    assert_eq!(vec![sym("B")], system.apply().unwrap().symbols);
}

#[test]
fn interpreted_when_a_contextual_rule_matches_only_the_target_symbol_is_replaced() {
    let system = new(
        vec![sym("B"), sym("A"), sym("C")],
        vec![Production {
            pattern: (Some(pat("B")), pat("A"), Some(pat("C"))),
            guard: None,
            replacement_expression: vec![out("A"), out("A")],
        }],
    )
    .unwrap();
    assert_eq!(
        vec![sym("B"), sym("A"), sym("A"), sym("C")],
        system.apply().unwrap().symbols
    );
}

#[test]
fn interpreted_prior_context_rule_compiles_to_the_prior_shape() {
    let system = new(
        vec![sym("B"), sym("A")],
        vec![Production {
            pattern: (Some(pat("B")), pat("A"), None),
            guard: None,
            replacement_expression: vec![out("C")],
        }],
    )
    .unwrap();
    assert_eq!(vec![sym("B"), sym("C")], system.apply().unwrap().symbols);
}

#[test]
fn interpreted_following_context_rule_compiles_to_the_following_shape() {
    let system = new(
        vec![sym("A"), sym("B")],
        vec![Production {
            pattern: (None, pat("A"), Some(pat("B"))),
            guard: None,
            replacement_expression: vec![out("C")],
        }],
    )
    .unwrap();
    assert_eq!(vec![sym("C"), sym("B")], system.apply().unwrap().symbols);
}
