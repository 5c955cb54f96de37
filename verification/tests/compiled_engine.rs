//! The four-shape engine: identity fallback, priority, deletion and
//! expansion, parallel replacement, and context requirements at boundaries.

use aristid::compiled::LSystem;
use aristid::compiled::Production;
use aristid::interpreted::BooleanExpr;
use aristid::interpreted::Symbol;
use aristid::interpreted::SymbolExpression;
use aristid::interpreted::SymbolPattern;

fn sym(label: &str) -> Symbol {
    Symbol { label: String::from(label), params: vec![] }
}

fn pat(label: &str) -> SymbolPattern {
    SymbolPattern { label: String::from(label), params: vec![] }
}

fn out(label: &str) -> SymbolExpression {
    SymbolExpression { label: String::from(label), params: vec![] }
}

fn rule(target: &str, replacement: Vec<SymbolExpression>) -> Production {
    Production::ContextFree { target: pat(target), guard: None, replacement }
}

#[test]
fn compiled_no_matching_rules_produces_same_symbol() {
    let system = LSystem::new(vec![sym("A")], vec![rule("B", vec![out("C")])]).unwrap();
    assert_eq!(vec![sym("A")], system.apply().unwrap().symbols);
}

#[test]
fn compiled_matching_rule_is_applied() {
    let system = LSystem::new(vec![sym("A")], vec![rule("A", vec![out("B")])]).unwrap();
    assert_eq!(vec![sym("B")], system.apply().unwrap().symbols);
}

#[test]
fn compiled_first_matching_rule_is_applied() {
    let system = LSystem::new(
        vec![sym("A")],
        vec![rule("A", vec![out("B")]), rule("A", vec![out("C")])],
    )
    .unwrap();
    assert_eq!(vec![sym("B")], system.apply().unwrap().symbols);
}

#[test]
fn compiled_symbols_can_be_replaced_with_multiple_symbols() {
    let system = LSystem::new(vec![sym("A")], vec![rule("A", vec![out("B"), out("C")])]).unwrap();
    assert_eq!(vec![sym("B"), sym("C")], system.apply().unwrap().symbols);
}

#[test]
fn compiled_symbols_can_be_relpaced_with_no_symbols() {
    let system = LSystem::new(vec![sym("A")], vec![rule("A", vec![])]).unwrap();
    assert_eq!(Vec::<Symbol>::new(), system.apply().unwrap().symbols);
}

#[test]
fn compiled_multiple_replacements_happen_in_parallel() {
    let system = LSystem::new(
        vec![sym("A"), sym("B"), sym("A")],
        vec![rule("A", vec![out("B")]), rule("B", vec![out("C")])],
    )
    .unwrap();
    assert_eq!(vec![sym("B"), sym("C"), sym("B")], system.apply().unwrap().symbols);
}

#[test]
fn when_a_contextual_rule_doesnt_match_use_the_identity_rule() {
    let system = LSystem::new(
        vec![sym("A")],
        vec![Production::SurroundingContext {
            predecessor: pat("B"),
            target: pat("A"),
            successor: pat("C"),
            guard: None,
            replacement: vec![out("A"), out("A")],
        }],
    )
    .unwrap();
    assert_eq!(vec![sym("A")], system.apply().unwrap().symbols);
}

#[test]
fn compiled_when_a_contextual_rule_matches_only_the_target_symbol_is_replaced() {
    let system = LSystem::new(
        vec![sym("B"), sym("A"), sym("C")],
        vec![Production::SurroundingContext {
            predecessor: pat("B"),
            target: pat("A"),
            successor: pat("C"),
            guard: None,
            replacement: vec![out("A"), out("A")],
        }],
    )
    .unwrap();
    assert_eq!(
        vec![sym("B"), sym("A"), sym("A"), sym("C")],
        system.apply().unwrap().symbols
    );
}

#[test]
fn prior_context_rule_needs_its_predecessor() {
    let production = Production::PriorContext {
        predecessor: pat("B"),
        target: pat("A"),
        guard: None,
        replacement: vec![out("C")],
    };
    // At position 0 the predecessor is absent, so only the second "A" fires.
    let system = LSystem::new(vec![sym("A"), sym("B"), sym("A")], vec![production]).unwrap();
    assert_eq!(
        vec![sym("A"), sym("B"), sym("C")],
        system.apply().unwrap().symbols
    );
}

#[test]
fn following_context_rule_needs_its_successor() {
    let production = Production::FollowingContext {
        target: pat("A"),
        successor: pat("B"),
        guard: None,
        replacement: vec![out("C")],
    };
    // At the last position the successor is absent, so only the first "A" fires.
    let system = LSystem::new(vec![sym("A"), sym("B"), sym("A")], vec![production]).unwrap();
    assert_eq!(
        vec![sym("C"), sym("B"), sym("A")],
        system.apply().unwrap().symbols
    );
}

#[test]
fn false_guard_falls_through_to_the_next_rule() {
    let system = LSystem::new(
        vec![sym("A")],
        vec![
            Production::ContextFree {
                target: pat("A"),
                guard: Some(BooleanExpr::Lit(false)),
                replacement: vec![out("B")],
            },
            rule("A", vec![out("C")]),
        ],
    )
    .unwrap();
    assert_eq!(vec![sym("C")], system.apply().unwrap().symbols);
}

#[test]
fn unmatched_system_is_a_fixed_point() {
    let system = LSystem::new(vec![sym("A"), sym("B")], vec![rule("X", vec![out("Y")])]).unwrap();
    let once = system.apply().unwrap();
    let twice = once.apply().unwrap();
    assert_eq!(system.symbols, once.symbols);
    assert_eq!(once.symbols, twice.symbols);
}
