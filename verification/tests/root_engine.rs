//! The minimal context-free engine at the crate root: identity fallback,
//! priority, and parallel replacement.

use aristid::LSystem;
use aristid::Rule;
use aristid::interpreted::Symbol;

fn sym(label: &str) -> Symbol {
    Symbol { label: String::from(label), params: vec![] }
}

#[test]
fn no_applicable_rules_leaves_passes_original_symbol() {
    let system = LSystem::new(vec![sym("A")], vec![Rule { from: sym("B"), to: vec![sym("C")] }]);
    assert_eq!(vec![sym("A")], system.apply().symbols);
}

#[test]
fn lib_matching_rule_is_applied() {
    let system = LSystem::new(vec![sym("A")], vec![Rule { from: sym("A"), to: vec![sym("B")] }]);
    assert_eq!(vec![sym("B")], system.apply().symbols);
}

#[test]
fn lib_first_matching_rule_is_applied() {
    let system = LSystem::new(
        vec![sym("A")],
        vec![
            Rule { from: sym("A"), to: vec![sym("B")] },
            Rule { from: sym("A"), to: vec![sym("C")] },
        ],
    );
    assert_eq!(vec![sym("B")], system.apply().symbols);
}

#[test]
fn lib_symbols_can_be_replaced_with_multiple_symbols() {
    let system = LSystem::new(
        vec![sym("A")],
        vec![Rule { from: sym("A"), to: vec![sym("B"), sym("C")] }],
    );
    assert_eq!(vec![sym("B"), sym("C")], system.apply().symbols);
}

#[test]
fn lib_symbols_can_be_relpaced_with_no_symbols() {
    let system = LSystem::new(vec![sym("A")], vec![Rule { from: sym("A"), to: vec![] }]);
    assert_eq!(Vec::<Symbol>::new(), system.apply().symbols);
}

#[test]
fn lib_multiple_replacements_happen_in_parallel() {
    let system = LSystem::new(
        vec![sym("A"), sym("B"), sym("A")],
        vec![
            Rule { from: sym("A"), to: vec![sym("B")] },
            Rule { from: sym("B"), to: vec![sym("C")] },
        ],
    );
    assert_eq!(vec![sym("B"), sym("C"), sym("B")], system.apply().symbols);
}

#[test]
fn lib_rules_distinguish_symbols_by_parameters() {
    let a1 = Symbol { label: String::from("A"), params: vec![1] };
    let a2 = Symbol { label: String::from("A"), params: vec![2] };
    let system = LSystem::new(
        vec![a1.clone(), a2.clone()],
        vec![Rule { from: a1.clone(), to: vec![sym("B")] }],
    );
    assert_eq!(vec![sym("B"), a2], system.apply().symbols);
}

#[test]
fn lib_empty_generation_stays_empty() {
    let system = LSystem::new(vec![], vec![Rule { from: sym("A"), to: vec![sym("B")] }]);
    assert_eq!(Vec::<Symbol>::new(), system.apply().symbols);
}
