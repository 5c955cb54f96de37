//! Whole-system derivations: algae growth, surrounding context, and
//! parametric rules with guards and computed parameters.

use aristid::compiled::LSystem;
use aristid::compiled::Production;
use aristid::interpreted::ArithExpr;
use aristid::interpreted::ArithOp;
use aristid::interpreted::BooleanExpr;
use aristid::interpreted::CompareOp;
use aristid::interpreted::PatternParam;
use aristid::interpreted::Symbol;
use aristid::interpreted::SymbolExpression;
use aristid::interpreted::SymbolPattern;

fn sym(label: &str) -> Symbol {
    Symbol { label: String::from(label), params: vec![] }
}

fn symp(label: &str, params: Vec<i64>) -> Symbol {
    Symbol { label: String::from(label), params }
}

fn pat(label: &str) -> SymbolPattern {
    SymbolPattern { label: String::from(label), params: vec![] }
}

fn out(label: &str) -> SymbolExpression {
    SymbolExpression { label: String::from(label), params: vec![] }
}

fn rule(target: &str, replacement: Vec<SymbolExpression>) -> Production {
    Production::ContextFree { target: pat(target), guard: None, replacement }
}

#[test]
fn algae_growth_over_three_generations() {
    let system = LSystem::new(
        vec![sym("A")],
        vec![rule("A", vec![out("A"), out("B")]), rule("B", vec![out("A")])],
    )
    .unwrap();
    let first = system.apply().unwrap();
    assert_eq!(vec![sym("A"), sym("B")], first.symbols);
    let second = first.apply().unwrap();
    assert_eq!(vec![sym("A"), sym("B"), sym("A")], second.symbols);
    let third = second.apply().unwrap();
    assert_eq!(
        vec![sym("A"), sym("B"), sym("A"), sym("A"), sym("B")],
        third.symbols
    );
}

#[test]
fn surrounding_context_fires_between_its_neighbors() {
    let production = Production::SurroundingContext {
        predecessor: pat("B"),
        target: pat("A"),
        successor: pat("C"),
        guard: None,
        replacement: vec![out("A"), out("A")],
    };
    let system = LSystem::new(vec![sym("B"), sym("A"), sym("C")], vec![production]).unwrap();
    assert_eq!(
        vec![sym("B"), sym("A"), sym("A"), sym("C")],
        system.apply().unwrap().symbols
    );
}

#[test]
fn surrounding_context_without_neighbors_is_identity() {
    let production = Production::SurroundingContext {
        predecessor: pat("B"),
        target: pat("A"),
        successor: pat("C"),
        guard: None,
        replacement: vec![out("A"), out("A")],
    };
    let system = LSystem::new(vec![sym("A")], vec![production]).unwrap();
    assert_eq!(vec![sym("A")], system.apply().unwrap().symbols);
}

#[test]
fn parametric_rule_binds_guards_and_computes() {
    // Target pattern A(x, y), guard x = 0, replacement [A(1, y + 1), B(2, 3)].
    let target = SymbolPattern {
        label: String::from("A"),
        params: vec![
            PatternParam::Binding(String::from("x")),
            PatternParam::Binding(String::from("y")),
        ],
    };
    let guard = BooleanExpr::Compare(
        CompareOp::Equal,
        ArithExpr::Var(String::from("x")),
        ArithExpr::Const(0),
    );
    let replacement = vec![
        SymbolExpression {
            label: String::from("A"),
            params: vec![
                ArithExpr::Const(1),
                ArithExpr::Binary(
                    ArithOp::Add,
                    Box::new(ArithExpr::Var(String::from("y"))),
                    Box::new(ArithExpr::Const(1)),
                ),
            ],
        },
        SymbolExpression {
            label: String::from("B"),
            params: vec![ArithExpr::Const(2), ArithExpr::Const(3)],
        },
    ];
    let production = Production::ContextFree { target, guard: Some(guard), replacement };
    let system = LSystem::new(vec![symp("A", vec![0, 2])], vec![production]).unwrap();
    assert_eq!(
        vec![symp("A", vec![1, 3]), symp("B", vec![2, 3])],
        system.apply().unwrap().symbols
    );
}

#[test]
fn parametric_guard_rejects_other_values() {
    // The same rule leaves A(1, 2) unchanged: the guard x = 0 fails.
    let target = SymbolPattern {
        label: String::from("A"),
        params: vec![
            PatternParam::Binding(String::from("x")),
            PatternParam::Binding(String::from("y")),
        ],
    };
    let guard = BooleanExpr::Compare(
        CompareOp::Equal,
        ArithExpr::Var(String::from("x")),
        ArithExpr::Const(0),
    );
    let replacement = vec![SymbolExpression {
        label: String::from("A"),
        params: vec![ArithExpr::Const(7), ArithExpr::Const(7)],
    }];
    let production = Production::ContextFree { target, guard: Some(guard), replacement };
    let system = LSystem::new(vec![symp("A", vec![1, 2])], vec![production]).unwrap();
    assert_eq!(vec![symp("A", vec![1, 2])], system.apply().unwrap().symbols);
}

#[test]
fn binding_must_be_consistent_across_slots() {
    // (B(x), A(x), C(x)) -> [D(x)]: fires only where all three agree on x.
    let bind_x = || vec![PatternParam::Binding(String::from("x"))];
    let production = Production::SurroundingContext {
        predecessor: SymbolPattern { label: String::from("B"), params: bind_x() },
        target: SymbolPattern { label: String::from("A"), params: bind_x() },
        successor: SymbolPattern { label: String::from("C"), params: bind_x() },
        guard: None,
        replacement: vec![SymbolExpression {
            label: String::from("D"),
            params: vec![ArithExpr::Var(String::from("x"))],
        }],
    };
    let agreeing = LSystem::new(
        vec![symp("B", vec![5]), symp("A", vec![5]), symp("C", vec![5])],
        vec![production.clone()],
    )
    .unwrap();
    assert_eq!(
        vec![symp("B", vec![5]), symp("D", vec![5]), symp("C", vec![5])],
        agreeing.apply().unwrap().symbols
    );
    let clashing = LSystem::new(
        vec![symp("B", vec![5]), symp("A", vec![6]), symp("C", vec![5])],
        vec![production],
    )
    .unwrap();
    assert_eq!(
        vec![symp("B", vec![5]), symp("A", vec![6]), symp("C", vec![5])],
        clashing.apply().unwrap().symbols
    );
}

#[test]
fn predecessor_binding_is_visible_to_the_replacement() {
    // (B(x), A(y)) -> [A(x * 2)]: the predecessor's binding feeds the output.
    let production = Production::PriorContext {
        predecessor: SymbolPattern {
            label: String::from("B"),
            params: vec![PatternParam::Binding(String::from("x"))],
        },
        target: SymbolPattern {
            label: String::from("A"),
            params: vec![PatternParam::Binding(String::from("y"))],
        },
        guard: None,
        replacement: vec![SymbolExpression {
            label: String::from("A"),
            params: vec![ArithExpr::Binary(
                ArithOp::Mul,
                Box::new(ArithExpr::Var(String::from("x"))),
                Box::new(ArithExpr::Const(2)),
            )],
        }],
    };
    let system = LSystem::new(
        vec![symp("B", vec![21]), symp("A", vec![0])],
        vec![production],
    )
    .unwrap();
    assert_eq!(
        vec![symp("B", vec![21]), symp("A", vec![42])],
        system.apply().unwrap().symbols
    );
}

#[test]
fn literal_pattern_parameters_select_exact_values() {
    let production = Production::ContextFree {
        target: SymbolPattern {
            label: String::from("A"),
            params: vec![PatternParam::Literal(1)],
        },
        guard: None,
        replacement: vec![SymbolExpression {
            label: String::from("A"),
            params: vec![ArithExpr::Const(9)],
        }],
    };
    let system = LSystem::new(
        vec![symp("A", vec![1]), symp("A", vec![2])],
        vec![production],
    )
    .unwrap();
    assert_eq!(
        vec![symp("A", vec![9]), symp("A", vec![2])],
        system.apply().unwrap().symbols
    );
}
