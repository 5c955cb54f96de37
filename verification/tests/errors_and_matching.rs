//! Grammar-construction errors, evaluation errors, the binding environment,
//! the pattern matcher, and exact arithmetic.

use aristid::compiled::GrammarError;
use aristid::compiled::LSystem;
use aristid::compiled::Production;
use aristid::interpreted::ArithExpr;
use aristid::interpreted::ArithOp;
use aristid::interpreted::Environment;
use aristid::interpreted::EvalError;
use aristid::interpreted::PatternParam;
use aristid::interpreted::Symbol;
use aristid::interpreted::SymbolExpression;
use aristid::interpreted::SymbolPattern;
use aristid::interpreted::eval_arith;
use aristid::interpreted::pattern_matches;

fn sym(label: &str) -> Symbol {
    Symbol { label: String::from(label), params: vec![] }
}

fn symp(label: &str, params: Vec<i64>) -> Symbol {
    Symbol { label: String::from(label), params }
}

fn pat(label: &str) -> SymbolPattern {
    SymbolPattern { label: String::from(label), params: vec![] }
}

fn patp(label: &str, params: Vec<PatternParam>) -> SymbolPattern {
    SymbolPattern { label: String::from(label), params }
}

fn binary(op: ArithOp, a: ArithExpr, b: ArithExpr) -> ArithExpr {
    ArithExpr::Binary(op, Box::new(a), Box::new(b))
}

#[test]
fn arity_mismatch_is_a_non_match_not_a_crash() {
    // A pattern of arity 1 never matches a symbol of arity 2.
    let pattern = patp("A", vec![PatternParam::Binding(String::from("x"))]);
    let symbol = symp("A", vec![1, 2]);
    assert!(pattern_matches(&pattern, &symbol, Environment::new()).is_none());
}

#[test]
fn label_mismatch_is_a_non_match() {
    let pattern = pat("A");
    let symbol = sym("B");
    assert!(pattern_matches(&pattern, &symbol, Environment::new()).is_none());
}

#[test]
fn literal_parameter_must_equal_the_value() {
    let pattern = patp("A", vec![PatternParam::Literal(3)]);
    assert!(pattern_matches(&pattern, &symp("A", vec![3]), Environment::new()).is_some());
    assert!(pattern_matches(&pattern, &symp("A", vec![4]), Environment::new()).is_none());
}

#[test]
fn binding_extends_the_environment() {
    let pattern = patp("A", vec![PatternParam::Binding(String::from("x"))]);
    let env = pattern_matches(&pattern, &symp("A", vec![7]), Environment::new()).unwrap();
    assert_eq!(Some(7), env.get(&String::from("x")));
    assert_eq!(None, env.get(&String::from("y")));
}

#[test]
fn rebinding_the_same_value_succeeds_and_a_conflict_fails() {
    let x = String::from("x");
    let env = Environment::new().bind(&x, 7).unwrap();
    let same = env.bind(&x, 7).unwrap();
    assert_eq!(Some(7), same.get(&x));
    assert!(same.bind(&x, 8).is_none());
}

#[test]
fn inconsistent_arity_is_rejected_at_construction() {
    // The axiom uses A with arity 2; the pattern uses A with arity 1.
    let production = Production::ContextFree {
        target: patp("A", vec![PatternParam::Binding(String::from("x"))]),
        guard: None,
        replacement: vec![],
    };
    let result = LSystem::new(vec![symp("A", vec![1, 2])], vec![production]);
    let err: GrammarError = result.err().unwrap();
    assert_eq!("A", err.label);
}

#[test]
fn interpreted_rules_are_arity_checked_too() {
    let production = aristid::interpreted::Production {
        pattern: (None, patp("B", vec![PatternParam::Literal(1)]), None),
        guard: None,
        replacement_expression: vec![SymbolExpression { label: String::from("B"), params: vec![] }],
    };
    let result = aristid::interpreted::new(vec![sym("A")], vec![production]);
    let err = result.err().unwrap();
    assert_eq!("B", err.label);
}

#[test]
fn consistent_arities_are_accepted() {
    let production = Production::ContextFree {
        target: patp("A", vec![PatternParam::Binding(String::from("x"))]),
        guard: None,
        replacement: vec![SymbolExpression {
            label: String::from("A"),
            params: vec![ArithExpr::Var(String::from("x"))],
        }],
    };
    assert!(LSystem::new(vec![symp("A", vec![1])], vec![production]).is_ok());
}

#[test]
fn unbound_variable_is_a_hard_error() {
    // The replacement references "x", which no pattern slot binds.
    let production = Production::ContextFree {
        target: pat("A"),
        guard: None,
        replacement: vec![SymbolExpression {
            label: String::from("B"),
            params: vec![ArithExpr::Var(String::from("x"))],
        }],
    };
    let system = LSystem { symbols: vec![sym("A")], productions: vec![production] };
    let err = system.apply().err().unwrap();
    assert!(matches!(err, EvalError::UnboundVariable(name) if name == "x"));
}

#[test]
fn division_by_zero_is_a_hard_error() {
    let production = Production::ContextFree {
        target: pat("A"),
        guard: None,
        replacement: vec![SymbolExpression {
            label: String::from("B"),
            params: vec![binary(ArithOp::Div, ArithExpr::Const(1), ArithExpr::Const(0))],
        }],
    };
    let system = LSystem { symbols: vec![sym("A")], productions: vec![production] };
    let err = system.apply().err().unwrap();
    assert!(matches!(err, EvalError::DivisionByZero));
}

#[test]
fn overflow_is_a_hard_error() {
    let production = Production::ContextFree {
        target: pat("A"),
        guard: None,
        replacement: vec![SymbolExpression {
            label: String::from("B"),
            params: vec![binary(ArithOp::Add, ArithExpr::Const(i64::MAX), ArithExpr::Const(1))],
        }],
    };
    let system = LSystem { symbols: vec![sym("A")], productions: vec![production] };
    let err = system.apply().err().unwrap();
    assert!(matches!(err, EvalError::Overflow));
}

#[test]
fn arithmetic_evaluates_exactly() {
    let env = Environment::new();
    let seven = || ArithExpr::Const(7);
    let five = || ArithExpr::Const(5);
    assert_eq!(Some(12), eval_arith(&binary(ArithOp::Add, seven(), five()), &env).ok());
    assert_eq!(Some(2), eval_arith(&binary(ArithOp::Sub, seven(), five()), &env).ok());
    assert_eq!(Some(35), eval_arith(&binary(ArithOp::Mul, seven(), five()), &env).ok());
    assert_eq!(Some(1), eval_arith(&binary(ArithOp::Div, seven(), five()), &env).ok());
}

#[test]
fn division_truncates_toward_zero() {
    let env = Environment::new();
    assert_eq!(
        Some(3),
        eval_arith(&binary(ArithOp::Div, ArithExpr::Const(7), ArithExpr::Const(2)), &env).ok()
    );
    assert_eq!(
        Some(-3),
        eval_arith(&binary(ArithOp::Div, ArithExpr::Const(-7), ArithExpr::Const(2)), &env).ok()
    );
    assert_eq!(
        Some(-3),
        eval_arith(&binary(ArithOp::Div, ArithExpr::Const(7), ArithExpr::Const(-2)), &env).ok()
    );
    assert_eq!(
        Some(3),
        eval_arith(&binary(ArithOp::Div, ArithExpr::Const(-7), ArithExpr::Const(-2)), &env).ok()
    );
}

#[test]
fn guard_error_surfaces_before_any_replacement() {
    // The guard itself references an unbound name.
    let production = Production::ContextFree {
        target: pat("A"),
        guard: Some(aristid::interpreted::BooleanExpr::Compare(
            aristid::interpreted::CompareOp::Less,
            ArithExpr::Var(String::from("x")),
            ArithExpr::Const(0),
        )),
        replacement: vec![SymbolExpression { label: String::from("A"), params: vec![] }],
    };
    let system = LSystem { symbols: vec![sym("A")], productions: vec![production] };
    let err = system.apply().err().unwrap();
    assert!(matches!(err, EvalError::UnboundVariable(name) if name == "x"));
}
