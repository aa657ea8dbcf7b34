use shortcircuit::parser::expression_parser::{
    parse_statement, Assign, BinOp, BinaryOperation, Constraint, Expr, Operator, Stmt, Variable,
};

fn var(id: &str) -> Variable {
    Variable { id: id.to_string(), indexing: vec![], sub_variable: None }
}

fn name(id: &str) -> Expr {
    Expr::ComplexVariable(var(id))
}

fn bin(left: Expr, op: BinOp, right: Expr) -> Expr {
    Expr::BinaryOperation(BinaryOperation { left: Box::new(left), op, right: Box::new(right) })
}

#[test]
fn multiplication_binds_tighter_on_the_right() {
    assert_eq!(
        parse_statement("a + b * c"),
        Stmt::RegularExpr(bin(name("a"), BinOp::Add, bin(name("b"), BinOp::Multiply, name("c"))))
    );
}

#[test]
fn multiplication_binds_tighter_on_the_left() {
    assert_eq!(
        parse_statement("a * b + c"),
        Stmt::RegularExpr(bin(bin(name("a"), BinOp::Multiply, name("b")), BinOp::Add, name("c")))
    );
}

#[test]
fn left_constraint_targets_the_left_side() {
    assert_eq!(
        parse_statement("x <== y + 1"),
        Stmt::Constraint(Constraint {
            target: var("x"),
            value: bin(name("y"), BinOp::Add, Expr::Number(1)),
        })
    );
}

#[test]
fn right_constraint_targets_the_right_side() {
    assert_eq!(
        parse_statement("y + 1 ==> x"),
        Stmt::Constraint(Constraint {
            target: var("x"),
            value: bin(name("y"), BinOp::Add, Expr::Number(1)),
        })
    );
}

#[test]
fn member_and_index_compose() {
    let expected = Variable {
        id: "a".to_string(),
        indexing: vec![Expr::Number(2)],
        sub_variable: Some(Box::new(Variable {
            id: "b".to_string(),
            indexing: vec![Expr::Number(3)],
            sub_variable: None,
        })),
    };
    assert_eq!(parse_statement("a[2].b[3]"), Stmt::RegularExpr(Expr::ComplexVariable(expected)));
}

#[test]
fn plain_assignment() {
    assert_eq!(
        parse_statement("lin = in * e2;"),
        Stmt::Assign(Assign {
            target: var("lin"),
            value: bin(name("in"), BinOp::Multiply, name("e2")),
            assign_op: Operator::Assignment,
        })
    );
}

use shortcircuit::parser::expression_parser::{
    parse_expression, parse_operation, statement_from_pair, Assert, BitwiseOp, ComponentInstance,
    ConditionalAssign, LogicalOp, SymmetricConstraint, UnOp,
};
use shortcircuit::parser::grammar::{ExpressionParser, Pair, Rule};

fn number(n: u32) -> Expr {
    Expr::Number(n)
}

#[test]
fn additive_and_multiplicative_chains_fold_left() {
    assert_eq!(
        parse_statement("a - b + c"),
        Stmt::RegularExpr(bin(bin(name("a"), BinOp::Subtract, name("b")), BinOp::Add, name("c")))
    );
    assert_eq!(
        parse_statement("a / b * c % d \\ e"),
        Stmt::RegularExpr(bin(
            bin(
                bin(bin(name("a"), BinOp::Divide, name("b")), BinOp::Multiply, name("c")),
                BinOp::Modulo,
                name("d")
            ),
            BinOp::Quotient,
            name("e")
        ))
    );
}

#[test]
fn parentheses_group() {
    assert_eq!(
        parse_statement("(a + b) * c"),
        Stmt::RegularExpr(bin(bin(name("a"), BinOp::Add, name("b")), BinOp::Multiply, name("c")))
    );
}

#[test]
fn every_layer_has_its_node() {
    assert_eq!(
        parse_statement("a ** 2"),
        Stmt::RegularExpr(bin(name("a"), BinOp::Exponent, number(2)))
    );
    assert_eq!(
        parse_statement("a << 2 | b"),
        Stmt::RegularExpr(Expr::BitwiseOperation {
            left: Box::new(Expr::BitwiseOperation {
                left: Box::new(name("a")),
                op: BitwiseOp::ShiftLeft,
                right: Box::new(number(2)),
            }),
            op: BitwiseOp::Or,
            right: Box::new(name("b")),
        })
    );
    assert_eq!(
        parse_statement("a + 1 >= b"),
        Stmt::RegularExpr(Expr::LogicalOperation {
            left: Box::new(bin(name("a"), BinOp::Add, number(1))),
            op: LogicalOp::GreaterThanOrEqual,
            right: Box::new(name("b")),
        })
    );
    assert_eq!(
        parse_statement("!a"),
        Stmt::RegularExpr(Expr::UnaryOperation { op: UnOp::Not, expr: Box::new(name("a")) })
    );
    assert_eq!(
        parse_statement("a * -b"),
        Stmt::RegularExpr(bin(
            name("a"),
            BinOp::Multiply,
            Expr::UnaryOperation { op: UnOp::Negate, expr: Box::new(name("b")) }
        ))
    );
    assert_eq!(
        parse_statement("~a"),
        Stmt::RegularExpr(Expr::UnaryOperation { op: UnOp::BitwiseNot, expr: Box::new(name("a")) })
    );
}

#[test]
fn statement_kinds() {
    assert_eq!(
        parse_statement("c ? a : b"),
        Stmt::ConditionalAssign(ConditionalAssign {
            condition: name("c"),
            true_value: name("a"),
            false_value: name("b"),
        })
    );
    assert_eq!(
        parse_statement("x <-- y"),
        Stmt::Assign(Assign { target: var("x"), value: name("y"), assign_op: Operator::LeftSignalAssign })
    );
    assert_eq!(
        parse_statement("y --> x"),
        Stmt::Assign(Assign { target: var("x"), value: name("y"), assign_op: Operator::RightSignalAssign })
    );
    assert_eq!(
        parse_statement("a === b + 1"),
        Stmt::SymmetricConstraint(SymmetricConstraint {
            left: name("a"),
            right: bin(name("b"), BinOp::Add, number(1)),
        })
    );
    assert_eq!(parse_statement("assert(a == b);"), Stmt::Assert(Assert {
        value: Expr::LogicalOperation {
            left: Box::new(name("a")),
            op: LogicalOp::Equal,
            right: Box::new(name("b")),
        },
    }));
    for (text, op) in [
        ("x += 1", Operator::PlusAssignment),
        ("x -= 1", Operator::MinusAssignment),
        ("x *= 1", Operator::TimesAssignment),
        ("x **= 1", Operator::ExponentAssignment),
        ("x /= 1", Operator::DivideAssignment),
        ("x \\= 1", Operator::QuotientAssignment),
        ("x %= 1", Operator::ModuloAssignment),
    ] {
        assert_eq!(
            parse_statement(text),
            Stmt::Assign(Assign { target: var("x"), value: number(1), assign_op: op })
        );
    }
}

#[test]
fn text_that_is_no_statement_is_empty() {
    assert_eq!(parse_statement(""), Stmt::Empty);
    assert_eq!(parse_statement("   "), Stmt::Empty);
    assert_eq!(parse_statement("a +"), Stmt::Empty);
    assert_eq!(parse_statement("a b"), Stmt::Empty);
    assert_eq!(parse_statement("(a"), Stmt::Empty);
    assert_eq!(parse_statement("a <== "), Stmt::Empty);
    assert_eq!(parse_statement("a = b = c"), Stmt::Empty);
    assert_eq!(parse_statement("1 <== a"), Stmt::Empty);
    assert_eq!(parse_statement("a ==> 1"), Stmt::Empty);
    assert_eq!(parse_statement("1 = a"), Stmt::Empty);
    assert_eq!(parse_statement("a;;"), Stmt::Empty);
    assert_eq!(ExpressionParser::parse("a $ b"), None);
}

#[test]
fn number_that_does_not_fit_is_the_empty_expression() {
    assert_eq!(parse_statement("4294967295"), Stmt::RegularExpr(number(4294967295)));
    assert_eq!(parse_statement("4294967296"), Stmt::RegularExpr(Expr::Empty));
}

#[test]
fn component_instance_has_name_and_parameters() {
    assert_eq!(
        parse_statement("c[i] = Multiplier(n, 2 * m)"),
        Stmt::Assign(Assign {
            target: Variable { id: "c".to_string(), indexing: vec![name("i")], sub_variable: None },
            value: Expr::ComponentInstance(ComponentInstance {
                name: var("Multiplier"),
                parameter_list: vec![name("n"), bin(number(2), BinOp::Multiply, name("m"))],
            }),
            assign_op: Operator::Assignment,
        })
    );
    assert_eq!(
        parse_statement("f()"),
        Stmt::RegularExpr(Expr::ComponentInstance(ComponentInstance {
            name: var("f"),
            parameter_list: vec![],
        }))
    );
}

#[test]
fn last_member_wins() {
    let expected = Variable {
        id: "a".to_string(),
        indexing: vec![number(1)],
        sub_variable: Some(Box::new(Variable {
            id: "c".to_string(),
            indexing: vec![number(3)],
            sub_variable: None,
        })),
    };
    assert_eq!(
        parse_statement("a[1].b[2].c[3]"),
        Stmt::RegularExpr(Expr::ComplexVariable(expected))
    );
}

#[test]
fn parse_tree_of_a_constraint() {
    let tree = ExpressionParser::parse(" x <== 1 ;").unwrap();
    assert_eq!(tree.rule, Rule::Constraint);
    assert_eq!(tree.text, "x <== 1");
    assert_eq!(tree.inner.len(), 3);
    assert_eq!(tree.inner[0].rule, Rule::TernaryExpr);
    assert_eq!(tree.inner[0].text, "x");
    assert_eq!(tree.inner[1].rule, Rule::LeftConstraintOp);
    assert_eq!(tree.inner[1].text, "<==");
    assert_eq!(tree.inner[2].text, "1");
    assert_eq!(parse_operation(&tree.inner[1]), Operator::LeftConstraint);
    assert_eq!(parse_operation(&tree.inner[0]), Operator::BinOp(BinOp::Add));
    assert_eq!(parse_expression(&tree.inner[2]), number(1));
    assert_eq!(statement_from_pair(&tree), parse_statement("x <== 1"));
    assert_eq!(tree.clone(), tree);
}

#[test]
fn tree_builders_take_any_tree() {
    let leaf = |rule: Rule, text: &str| Pair { rule, text: text.to_string(), inner: vec![] };
    assert_eq!(parse_expression(&leaf(Rule::TernaryExpr, "")), Expr::Empty);
    assert_eq!(parse_expression(&leaf(Rule::ArithExpr, "")), number(0));
    assert_eq!(parse_expression(&leaf(Rule::Number, "12x")), Expr::Empty);
    assert_eq!(parse_expression(&leaf(Rule::LogicalOp, "<")), Expr::Empty);
    assert_eq!(parse_expression(&leaf(Rule::Identifier, "abc")), name("abc"));
    assert_eq!(parse_expression(&leaf(Rule::ComplexVariable, "")), name(""));
    assert_eq!(parse_operation(&leaf(Rule::LogicalOp, "<")), Operator::LogicalOp(LogicalOp::LessThan));
    assert_eq!(parse_operation(&leaf(Rule::LogicalOp, "?")), Operator::BinOp(BinOp::Add));
    assert_eq!(parse_operation(&leaf(Rule::Constraint, "<==")), Operator::BinOp(BinOp::Add));
    assert_eq!(parse_operation(&leaf(Rule::AssignmentOp, "**=")), Operator::ExponentAssignment);
    assert_eq!(statement_from_pair(&leaf(Rule::Constraint, "")), Stmt::Empty);
    assert_eq!(statement_from_pair(&leaf(Rule::Number, "1")), Stmt::Empty);
    let factor = Pair {
        rule: Rule::Factor,
        text: String::new(),
        inner: vec![leaf(Rule::Number, "1"), leaf(Rule::Number, "2"), leaf(Rule::Number, "3")],
    };
    assert_eq!(parse_expression(&factor), number(2));
    let three_terms = Pair {
        rule: Rule::Term,
        text: String::new(),
        inner: vec![
            leaf(Rule::Number, "1"),
            leaf(Rule::LogicalOp, "<"),
            leaf(Rule::Number, "2"),
            leaf(Rule::MultiplyOp, "/"),
        ],
    };
    assert_eq!(parse_expression(&three_terms), bin(number(1), BinOp::Multiply, number(2)));
}

#[test]
fn subtraction_chain_folds_left() {
    assert_eq!(
        parse_statement("a - b - c"),
        Stmt::RegularExpr(bin(
            bin(name("a"), BinOp::Subtract, name("b")),
            BinOp::Subtract,
            name("c")
        ))
    );
}

#[test]
fn assignment_of_a_sum() {
    assert_eq!(
        parse_statement("x = y + 1"),
        Stmt::Assign(Assign {
            target: var("x"),
            value: bin(name("y"), BinOp::Add, number(1)),
            assign_op: Operator::Assignment,
        })
    );
}

#[test]
fn symmetric_constraint_of_two_names() {
    assert_eq!(
        parse_statement("a === b"),
        Stmt::SymmetricConstraint(SymmetricConstraint { left: name("a"), right: name("b") })
    );
}
