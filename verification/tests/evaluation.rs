use shortcircuit::collections::NameMap;
use shortcircuit::parser::evaluator::{
    apply_arithmetic, evaluate, get_string_from_variable, Serializable,
};
use shortcircuit::parser::expression_parser::{
    parse_statement, BinOp, EvaluatedComponentInstance, EvaluationResult, Expr, Stmt, Variable,
};

fn expr(text: &str) -> Expr {
    match parse_statement(text) {
        Stmt::RegularExpr(e) => e,
        other => panic!("not an expression: {:?}", other),
    }
}

fn variable(text: &str) -> Variable {
    match expr(text) {
        Expr::ComplexVariable(v) => v,
        other => panic!("not a variable: {:?}", other),
    }
}

fn env(pairs: &[(&str, u32)]) -> NameMap<u32> {
    let mut m = NameMap::new();
    for (k, v) in pairs {
        m.insert(k.to_string(), *v);
    }
    m
}

#[test]
fn bound_variable_evaluates_the_same_twice() {
    let mut heap = env(&[("x", 7), ("i", 1), ("a[1]", 9)]);
    let before: Vec<(String, u32)> =
        heap.entries.iter().map(|e| (e.key.clone(), e.value)).collect();
    let e = expr("a[i]");
    let first = evaluate(&e, &mut heap);
    let second = evaluate(&e, &mut heap);
    assert_eq!(first, (EvaluationResult::Value(9), vec!["a[1]".to_string()]));
    assert_eq!(first, second);
    let after: Vec<(String, u32)> =
        heap.entries.iter().map(|e| (e.key.clone(), e.value)).collect();
    assert_eq!(before, after);
}

#[test]
fn unbound_variable_is_an_identifier_with_itself_as_dependency() {
    let mut heap = env(&[]);
    assert_eq!(
        evaluate(&expr("y"), &mut heap),
        (EvaluationResult::Identifier("y".to_string()), vec!["y".to_string()])
    );
}

#[test]
fn keys_resolve_indexes_and_members() {
    let mut heap = env(&[("i", 2), ("j", 10)]);
    assert_eq!(get_string_from_variable(&variable("a[i][3].b[j][k]"), &mut heap), "a[2][3].b[10][k]");
    assert_eq!(get_string_from_variable(&variable("a.b"), &mut heap), "a.b");
    assert_eq!(get_string_from_variable(&variable("a[i+1]"), &mut heap), "a[3]");
    assert_eq!(get_string_from_variable(&variable("a[k+1]"), &mut heap), "a");
    assert_eq!(variable("s[i].in[j]").serialize(&mut heap), "s[2].in[10]");
    assert_eq!(get_string_from_variable(&variable("a[4294967295][0]"), &mut heap), "a[4294967295][0]");
}

#[test]
fn arithmetic_wraps_and_division_by_zero_is_empty() {
    assert_eq!(apply_arithmetic(BinOp::Add, 4294967295, 2), Some(1));
    assert_eq!(apply_arithmetic(BinOp::Subtract, 1, 2), Some(4294967295));
    assert_eq!(apply_arithmetic(BinOp::Multiply, 65536, 65537), Some(65536));
    assert_eq!(apply_arithmetic(BinOp::Divide, 7, 2), Some(3));
    assert_eq!(apply_arithmetic(BinOp::Divide, 7, 0), None);
    assert_eq!(apply_arithmetic(BinOp::Exponent, 2, 3), None);
    assert_eq!(apply_arithmetic(BinOp::Quotient, 7, 2), None);
    assert_eq!(apply_arithmetic(BinOp::Modulo, 7, 2), None);
}

#[test]
fn binary_operation_needs_both_sides() {
    let mut heap = env(&[("x", 6), ("y", 3)]);
    assert_eq!(
        evaluate(&expr("x * y + 2"), &mut heap),
        (EvaluationResult::Value(20), vec!["x".to_string(), "y".to_string()])
    );
    assert_eq!(evaluate(&expr("x - y"), &mut heap).0, EvaluationResult::Value(3));
    assert_eq!(evaluate(&expr("x / y"), &mut heap).0, EvaluationResult::Value(2));
    assert_eq!(evaluate(&expr("x + z"), &mut heap), (EvaluationResult::Empty, vec![]));
    assert_eq!(evaluate(&expr("z + x"), &mut heap), (EvaluationResult::Empty, vec![]));
    assert_eq!(evaluate(&expr("x ** y"), &mut heap), (EvaluationResult::Empty, vec![]));
}

#[test]
fn unevaluated_kinds_are_empty() {
    let mut heap = env(&[("x", 6), ("y", 3)]);
    assert_eq!(evaluate(&expr("x < y"), &mut heap), (EvaluationResult::Empty, vec![]));
    assert_eq!(evaluate(&expr("x & y"), &mut heap), (EvaluationResult::Empty, vec![]));
    assert_eq!(evaluate(&expr("-x"), &mut heap), (EvaluationResult::Empty, vec![]));
    assert_eq!(evaluate(&expr("(x ? y : 1)"), &mut heap), (EvaluationResult::Empty, vec![]));
    assert_eq!(evaluate(&Expr::Empty, &mut heap), (EvaluationResult::Empty, vec![]));
}

#[test]
fn component_instance_keeps_the_parameters_that_resolve() {
    let mut heap = env(&[("n", 4)]);
    assert_eq!(
        evaluate(&expr("Adder(n, m, 2 + n)"), &mut heap),
        (
            EvaluationResult::ComponentInstance(EvaluatedComponentInstance {
                name: "Adder".to_string(),
                parameter_list: vec![4, 6],
            }),
            vec!["n".to_string(), "n".to_string()]
        )
    );
}
