//! A first sketch of the statement tree, kept for the tools that still read it.

use vstd::prelude::*;
use vstd::string::*;

verus! {

/// Binary operators of the sketch.
#[derive(Eq, PartialEq, Debug, Clone, Copy)]
pub enum BinOp {
    Add,
    Subtract,
    Multiply,
    Divide,
    BitwiseAnd,
    BitwiseOr,
    BitwiseShiftRight,
    Equal,
}

/// Prefix operators of the sketch.
#[derive(Eq, PartialEq, Debug, Clone, Copy)]
pub enum UnOp {
    Negate,
    BitwiseNot,
}

/// Expressions of the sketch.
#[derive(Eq, PartialEq, Debug)]
#[allow(inconsistent_fields)]
pub enum Expr {
    Number(i32),
    Variable(String),
    BinaryOperation { left: Box<Expr>, op: BinOp, right: Box<Expr> },
    UnaryOperation { op: UnOp, expr: Box<Expr> },
    Conditional { condition: Box<Expr>, then_branch: Box<Expr>, else_branch: Box<Expr> },
}

/// Statements of the sketch.
#[derive(Eq, PartialEq, Debug)]
pub enum Stmt {
    Assign { target: Expr, value: Expr },
    ConditionalAssign { condition: Expr, true_value: Expr, false_value: Expr },
}

/// Whether `stmt` assigns zero to the variable `example`.
pub open spec fn is_example_assignment(stmt: Stmt) -> bool {
    match stmt {
        Stmt::Assign { target, value } => value == Expr::Number(0) && match target {
            Expr::Variable(name) => name@ == "example"@,
            _ => false,
        },
        _ => false,
    }
}

/// The statement of a line. The sketch reads no text yet: every line is the
/// assignment of zero to the variable `example`.
pub fn parse_line_to_ast(line: &str) -> (res: Stmt)
    ensures
        is_example_assignment(res),
{
    Stmt::Assign { target: Expr::Variable(String::from_str("example")), value: Expr::Number(0) }
}

} // verus!
