//! The typed expression and statement trees and their mathematical views.

use vstd::prelude::*;
use vstd::string::*;
use crate::parser::grammar::{ExpressionParser, Pair, PairView, Rule, pair_view, pairs_view, statement_tree};
use crate::parser::text::{decimal_value, parse_decimal, str_eq};

verus! {

/// Arithmetic operators.
#[derive(Eq, Hash, PartialEq, Debug, Clone, Copy)]
pub enum BinOp {
    Add,
    Subtract,
    Multiply,
    Divide,
    Exponent,
    Quotient,
    Modulo,
}

/// Bitwise and shift operators.
#[derive(Eq, Hash, PartialEq, Debug, Clone, Copy)]
pub enum BitwiseOp {
    And,
    Or,
    ShiftRight,
    ShiftLeft,
    Xor,
}

/// Logical and relational operators.
#[derive(Eq, Hash, PartialEq, Debug, Clone, Copy)]
pub enum LogicalOp {
    And,
    Or,
    NotEqual,
    Equal,
    LessThan,
    GreaterThan,
    LessThanOrEqual,
    GreaterThanOrEqual,
}

/// Prefix operators.
#[derive(Eq, Hash, PartialEq, Debug, Clone, Copy)]
pub enum UnOp {
    Negate,
    Not,
    BitwiseNot,
}

/// Every operator of the statement language.
#[derive(Eq, Hash, PartialEq, Debug, Clone, Copy)]
pub enum Operator {
    BinOp(BinOp),
    LogicalOp(LogicalOp),
    BitwiseOp(BitwiseOp),
    UnOp(UnOp),
    LeftConstraint,
    LeftSignalAssign,
    RightConstraint,
    RightSignalAssign,
    Assignment,
    PlusAssignment,
    MinusAssignment,
    TimesAssignment,
    ExponentAssignment,
    DivideAssignment,
    QuotientAssignment,
    ModuloAssignment,
    SymmetricConstraintOp,
}

/// A reference to a signal, variable or component: a base identifier, one
/// index expression per array dimension and at most one level of member access.
#[derive(Eq, Hash, PartialEq, Debug)]
pub struct Variable {
    pub id: String,
    pub indexing: Vec<Expr>,
    pub sub_variable: Option<Box<Variable>>,
}

/// A template instantiation as written in the source: `Name(arg, ...)`.
#[derive(Eq, Hash, PartialEq, Debug)]
pub struct ComponentInstance {
    pub name: Variable,
    pub parameter_list: Vec<Expr>,
}

/// A template instantiation whose name and arguments have been resolved.
#[derive(Eq, Hash, PartialEq, Debug, Clone)]
pub struct EvaluatedComponentInstance {
    pub name: String,
    pub parameter_list: Vec<u32>,
}

/// An arithmetic node.
#[derive(Eq, Hash, PartialEq, Debug)]
pub struct BinaryOperation {
    pub left: Box<Expr>,
    pub op: BinOp,
    pub right: Box<Expr>,
}

/// An expression tree.
#[derive(Eq, Hash, PartialEq, Debug)]
#[allow(inconsistent_fields)]
pub enum Expr {
    Empty,
    Number(u32),
    ComplexVariable(Variable),
    BinaryOperation(BinaryOperation),
    LogicalOperation { left: Box<Expr>, op: LogicalOp, right: Box<Expr> },
    BitwiseOperation { left: Box<Expr>, op: BitwiseOp, right: Box<Expr> },
    UnaryOperation { op: UnOp, expr: Box<Expr> },
    Conditional { condition: Box<Expr>, true_value: Box<Expr>, false_value: Box<Expr> },
    ComponentInstance(ComponentInstance),
}

/// `target <== value` or `value ==> target`.
#[derive(Eq, Hash, PartialEq, Debug, Clone)]
pub struct Constraint {
    pub target: Variable,
    pub value: Expr,
}

/// `target = value`, a compound assignment, or `target <-- value` / `value --> target`.
#[derive(Eq, Hash, PartialEq, Debug, Clone)]
pub struct Assign {
    pub target: Variable,
    pub value: Expr,
    pub assign_op: Operator,
}

/// A conditional that stands alone as a statement.
#[derive(Eq, Hash, PartialEq, Debug, Clone)]
pub struct ConditionalAssign {
    pub condition: Expr,
    pub true_value: Expr,
    pub false_value: Expr,
}

/// `assert(value)`.
#[derive(Eq, Hash, PartialEq, Debug, Clone)]
pub struct Assert {
    pub value: Expr,
}

/// `left === right`.
#[derive(Eq, Hash, PartialEq, Debug, Clone)]
pub struct SymmetricConstraint {
    pub left: Expr,
    pub right: Expr,
}

/// A statement.
#[derive(Eq, Hash, PartialEq, Debug, Clone)]
pub enum Stmt {
    Constraint(Constraint),
    Assign(Assign),
    ConditionalAssign(ConditionalAssign),
    RegularExpr(Expr),
    Assert(Assert),
    SymmetricConstraint(SymmetricConstraint),
    Empty,
}

/// What an expression reduces to.
#[derive(Eq, Hash, PartialEq, Debug, Clone)]
pub enum EvaluationResult {
    Empty,
    Value(u32),
    Identifier(String),
    ComponentInstance(EvaluatedComponentInstance),
}

/// Mathematical model of a [`Variable`].
pub struct VariableView {
    pub id: Seq<char>,
    pub indexing: Seq<ExprView>,
    pub sub_variable: Option<Box<VariableView>>,
}

/// Mathematical model of an [`Expr`].
#[allow(inconsistent_fields)]
pub enum ExprView {
    Empty,
    Number(u32),
    ComplexVariable(VariableView),
    BinaryOperation { left: Box<ExprView>, op: BinOp, right: Box<ExprView> },
    LogicalOperation { left: Box<ExprView>, op: LogicalOp, right: Box<ExprView> },
    BitwiseOperation { left: Box<ExprView>, op: BitwiseOp, right: Box<ExprView> },
    UnaryOperation { op: UnOp, expr: Box<ExprView> },
    Conditional { condition: Box<ExprView>, true_value: Box<ExprView>, false_value: Box<ExprView> },
    ComponentInstance { name: VariableView, parameter_list: Seq<ExprView> },
}

/// The views of a vector of expressions, element by element.
pub open spec fn exprs_view(v: Vec<Expr>) -> Seq<ExprView>
    decreases v,
{
    Seq::new(v@.len(), |i: int| if 0 <= i < v@.len() { expr_view(v@[i]) } else { ExprView::Empty })
}

/// The model of a variable reference.
pub open spec fn variable_view(v: Variable) -> VariableView
    decreases v,
{
    VariableView {
        id: v.id@,
        indexing: exprs_view(v.indexing),
        sub_variable: match v.sub_variable {
            Some(sub) => Some(Box::new(variable_view(*sub))),
            None => None,
        },
    }
}

/// The model of an expression tree.
pub open spec fn expr_view(e: Expr) -> ExprView
    decreases e,
{
    match e {
        Expr::Empty => ExprView::Empty,
        Expr::Number(n) => ExprView::Number(n),
        Expr::ComplexVariable(v) => ExprView::ComplexVariable(variable_view(v)),
        Expr::BinaryOperation(b) => ExprView::BinaryOperation {
            left: Box::new(expr_view(*b.left)),
            op: b.op,
            right: Box::new(expr_view(*b.right)),
        },
        Expr::LogicalOperation { left, op, right } => ExprView::LogicalOperation {
            left: Box::new(expr_view(*left)),
            op,
            right: Box::new(expr_view(*right)),
        },
        Expr::BitwiseOperation { left, op, right } => ExprView::BitwiseOperation {
            left: Box::new(expr_view(*left)),
            op,
            right: Box::new(expr_view(*right)),
        },
        Expr::UnaryOperation { op, expr } => ExprView::UnaryOperation {
            op,
            expr: Box::new(expr_view(*expr)),
        },
        Expr::Conditional { condition, true_value, false_value } => ExprView::Conditional {
            condition: Box::new(expr_view(*condition)),
            true_value: Box::new(expr_view(*true_value)),
            false_value: Box::new(expr_view(*false_value)),
        },
        Expr::ComponentInstance(c) => ExprView::ComponentInstance {
            name: variable_view(c.name),
            parameter_list: exprs_view(c.parameter_list),
        },
    }
}

impl View for Variable {
    type V = VariableView;

    open spec fn view(&self) -> VariableView {
        variable_view(*self)
    }
}

impl View for Expr {
    type V = ExprView;

    open spec fn view(&self) -> ExprView {
        expr_view(*self)
    }
}

/// Mathematical model of a [`Stmt`].
#[allow(inconsistent_fields)]
pub enum StmtView {
    Constraint { target: VariableView, value: ExprView },
    Assign { target: VariableView, value: ExprView, assign_op: Operator },
    ConditionalAssign { condition: ExprView, true_value: ExprView, false_value: ExprView },
    RegularExpr(ExprView),
    Assert { value: ExprView },
    SymmetricConstraint { left: ExprView, right: ExprView },
    Empty,
}

/// Mathematical model of an [`EvaluationResult`].
pub enum EvaluationResultView {
    Empty,
    Value(u32),
    Identifier(Seq<char>),
    ComponentInstance { name: Seq<char>, parameter_list: Seq<u32> },
}

impl View for Stmt {
    type V = StmtView;

    open spec fn view(&self) -> StmtView {
        match self {
            Stmt::Constraint(c) => StmtView::Constraint { target: c.target@, value: c.value@ },
            Stmt::Assign(a) => StmtView::Assign {
                target: a.target@,
                value: a.value@,
                assign_op: a.assign_op,
            },
            Stmt::ConditionalAssign(c) => StmtView::ConditionalAssign {
                condition: c.condition@,
                true_value: c.true_value@,
                false_value: c.false_value@,
            },
            Stmt::RegularExpr(e) => StmtView::RegularExpr(e@),
            Stmt::Assert(a) => StmtView::Assert { value: a.value@ },
            Stmt::SymmetricConstraint(c) => StmtView::SymmetricConstraint {
                left: c.left@,
                right: c.right@,
            },
            Stmt::Empty => StmtView::Empty,
        }
    }
}

impl View for EvaluationResult {
    type V = EvaluationResultView;

    open spec fn view(&self) -> EvaluationResultView {
        match self {
            EvaluationResult::Empty => EvaluationResultView::Empty,
            EvaluationResult::Value(v) => EvaluationResultView::Value(*v),
            EvaluationResult::Identifier(s) => EvaluationResultView::Identifier(s@),
            EvaluationResult::ComponentInstance(c) => EvaluationResultView::ComponentInstance {
                name: c.name@,
                parameter_list: c.parameter_list@,
            },
        }
    }
}

/// Copies a vector of expressions, element by element.
pub fn clone_exprs(v: &Vec<Expr>) -> (res: Vec<Expr>)
    ensures
        exprs_view(res) == exprs_view(*v),
    decreases v,
{
    let mut out: Vec<Expr> = Vec::new();
    let mut i: usize = 0;
    while i < v.len()
        invariant
            i <= v.len(),
            out.len() == i,
            forall|j: int| 0 <= j < i ==> expr_view(#[trigger] out@[j]) == expr_view(v@[j]),
        decreases v.len() - i,
    {
        let item = clone_expr(&v[i]);
        out.push(item);
        i += 1;
    }
    assert(exprs_view(out) =~= exprs_view(*v));
    out
}

/// Copies a variable reference.
pub fn clone_variable(v: &Variable) -> (res: Variable)
    ensures
        res@ == v@,
    decreases v,
{
    let sub = match &v.sub_variable {
        Some(inner) => Some(Box::new(clone_variable(&**inner))),
        None => None,
    };
    Variable { id: v.id.clone(), indexing: clone_exprs(&v.indexing), sub_variable: sub }
}

/// Copies an expression tree.
pub fn clone_expr(e: &Expr) -> (res: Expr)
    ensures
        res@ == e@,
    decreases e,
{
    match e {
        Expr::Empty => Expr::Empty,
        Expr::Number(n) => Expr::Number(*n),
        Expr::ComplexVariable(v) => Expr::ComplexVariable(clone_variable(v)),
        Expr::BinaryOperation(b) => Expr::BinaryOperation(
            BinaryOperation {
                left: Box::new(clone_expr(&*b.left)),
                op: b.op,
                right: Box::new(clone_expr(&*b.right)),
            },
        ),
        Expr::LogicalOperation { left, op, right } => Expr::LogicalOperation {
            left: Box::new(clone_expr(&**left)),
            op: *op,
            right: Box::new(clone_expr(&**right)),
        },
        Expr::BitwiseOperation { left, op, right } => Expr::BitwiseOperation {
            left: Box::new(clone_expr(&**left)),
            op: *op,
            right: Box::new(clone_expr(&**right)),
        },
        Expr::UnaryOperation { op, expr } => Expr::UnaryOperation {
            op: *op,
            expr: Box::new(clone_expr(&**expr)),
        },
        Expr::Conditional { condition, true_value, false_value } => Expr::Conditional {
            condition: Box::new(clone_expr(&**condition)),
            true_value: Box::new(clone_expr(&**true_value)),
            false_value: Box::new(clone_expr(&**false_value)),
        },
        Expr::ComponentInstance(c) => Expr::ComponentInstance(
            ComponentInstance {
                name: clone_variable(&c.name),
                parameter_list: clone_exprs(&c.parameter_list),
            },
        ),
    }
}

/// Copies a statement.
pub fn clone_stmt(s: &Stmt) -> (res: Stmt)
    ensures
        res@ == s@,
{
    match s {
        Stmt::Constraint(c) => Stmt::Constraint(
            Constraint { target: clone_variable(&c.target), value: clone_expr(&c.value) },
        ),
        Stmt::Assign(a) => Stmt::Assign(
            Assign {
                target: clone_variable(&a.target),
                value: clone_expr(&a.value),
                assign_op: a.assign_op,
            },
        ),
        Stmt::ConditionalAssign(c) => Stmt::ConditionalAssign(
            ConditionalAssign {
                condition: clone_expr(&c.condition),
                true_value: clone_expr(&c.true_value),
                false_value: clone_expr(&c.false_value),
            },
        ),
        Stmt::RegularExpr(e) => Stmt::RegularExpr(clone_expr(e)),
        Stmt::Assert(a) => Stmt::Assert(Assert { value: clone_expr(&a.value) }),
        Stmt::SymmetricConstraint(c) => Stmt::SymmetricConstraint(
            SymmetricConstraint { left: clone_expr(&c.left), right: clone_expr(&c.right) },
        ),
        Stmt::Empty => Stmt::Empty,
    }
}

impl Clone for Variable {
    fn clone(&self) -> (res: Self)
        ensures
            res@ == self@,
    {
        clone_variable(self)
    }
}

impl Clone for Expr {
    fn clone(&self) -> (res: Self)
        ensures
            res@ == self@,
    {
        clone_expr(self)
    }
}

impl Clone for BinaryOperation {
    fn clone(&self) -> (res: Self)
        ensures
            res.left@ == self.left@,
            res.op == self.op,
            res.right@ == self.right@,
    {
        BinaryOperation {
            left: Box::new(clone_expr(&*self.left)),
            op: self.op,
            right: Box::new(clone_expr(&*self.right)),
        }
    }
}

impl Clone for ComponentInstance {
    fn clone(&self) -> (res: Self)
        ensures
            res.name@ == self.name@,
            exprs_view(res.parameter_list) == exprs_view(self.parameter_list),
    {
        ComponentInstance {
            name: clone_variable(&self.name),
            parameter_list: clone_exprs(&self.parameter_list),
        }
    }
}

/// The rules through which an operator is looked for in the first child.
pub open spec fn descends(rule: Rule) -> bool {
    match rule {
        Rule::TernaryExpr => true,
        Rule::LogicalExpr => true,
        Rule::ArithExpr => true,
        Rule::Term => true,
        Rule::Exponent => true,
        Rule::BitwiseExpr => true,
        Rule::ShiftExpr => true,
        Rule::UnaryExpr => true,
        Rule::Factor => true,
        Rule::ComplexVariable => true,
        Rule::Identifier => true,
        Rule::Number => true,
        _ => false,
    }
}

/// The operator that an operator rule and its matched text denote. A text
/// that the rule does not spell, and any other rule, denote addition.
pub open spec fn operator_of_text(rule: Rule, text: Seq<char>) -> Operator {
    match rule {
        Rule::LogicalOp => {
            if text == "!="@ {
                Operator::LogicalOp(LogicalOp::NotEqual)
            } else if text == "&&"@ {
                Operator::LogicalOp(LogicalOp::And)
            } else if text == "||"@ {
                Operator::LogicalOp(LogicalOp::Or)
            } else if text == "=="@ {
                Operator::LogicalOp(LogicalOp::Equal)
            } else if text == "<"@ {
                Operator::LogicalOp(LogicalOp::LessThan)
            } else if text == "<="@ {
                Operator::LogicalOp(LogicalOp::LessThanOrEqual)
            } else if text == ">"@ {
                Operator::LogicalOp(LogicalOp::GreaterThan)
            } else if text == ">="@ {
                Operator::LogicalOp(LogicalOp::GreaterThanOrEqual)
            } else {
                Operator::BinOp(BinOp::Add)
            }
        },
        Rule::AddOp | Rule::MultiplyOp | Rule::ExponentOp => {
            if text == "+"@ {
                Operator::BinOp(BinOp::Add)
            } else if text == "-"@ {
                Operator::BinOp(BinOp::Subtract)
            } else if text == "*"@ {
                Operator::BinOp(BinOp::Multiply)
            } else if text == "/"@ {
                Operator::BinOp(BinOp::Divide)
            } else if text == "**"@ {
                Operator::BinOp(BinOp::Exponent)
            } else if text == "\\"@ {
                Operator::BinOp(BinOp::Quotient)
            } else if text == "%"@ {
                Operator::BinOp(BinOp::Modulo)
            } else {
                Operator::BinOp(BinOp::Add)
            }
        },
        Rule::ShiftOp | Rule::BitwiseOp => {
            if text == ">>"@ {
                Operator::BitwiseOp(BitwiseOp::ShiftRight)
            } else if text == "<<"@ {
                Operator::BitwiseOp(BitwiseOp::ShiftLeft)
            } else if text == "|"@ {
                Operator::BitwiseOp(BitwiseOp::Or)
            } else if text == "&"@ {
                Operator::BitwiseOp(BitwiseOp::And)
            } else if text == "^"@ {
                Operator::BitwiseOp(BitwiseOp::Xor)
            } else {
                Operator::BinOp(BinOp::Add)
            }
        },
        Rule::UnaryOp => {
            if text == "!"@ {
                Operator::UnOp(UnOp::Not)
            } else if text == "-"@ {
                Operator::UnOp(UnOp::Negate)
            } else if text == "~"@ {
                Operator::UnOp(UnOp::BitwiseNot)
            } else {
                Operator::BinOp(BinOp::Add)
            }
        },
        Rule::SymmetricConstraintOp => {
            if text == "==="@ {
                Operator::SymmetricConstraintOp
            } else {
                Operator::BinOp(BinOp::Add)
            }
        },
        Rule::LeftConstraintOp | Rule::RightConstraintOp => {
            if text == "<=="@ {
                Operator::LeftConstraint
            } else if text == "<--"@ {
                Operator::LeftSignalAssign
            } else if text == "==>"@ {
                Operator::RightConstraint
            } else if text == "-->"@ {
                Operator::RightSignalAssign
            } else {
                Operator::BinOp(BinOp::Add)
            }
        },
        Rule::AssignmentOp => {
            if text == "="@ {
                Operator::Assignment
            } else if text == "+="@ {
                Operator::PlusAssignment
            } else if text == "-="@ {
                Operator::MinusAssignment
            } else if text == "*="@ {
                Operator::TimesAssignment
            } else if text == "**="@ {
                Operator::ExponentAssignment
            } else if text == "/="@ {
                Operator::DivideAssignment
            } else if text == "\\="@ {
                Operator::QuotientAssignment
            } else if text == "%="@ {
                Operator::ModuloAssignment
            } else {
                Operator::BinOp(BinOp::Add)
            }
        },
        _ => Operator::BinOp(BinOp::Add),
    }
}

/// The operator that a parse-tree node denotes: that of its text for an
/// operator rule, that of its first child for an expression rule, and
/// addition where there is neither.
pub open spec fn operation_of(p: PairView) -> Operator
    decreases p,
{
    if descends(p.rule) {
        if p.inner.len() > 0 {
            operation_of(p.inner[0])
        } else {
            Operator::BinOp(BinOp::Add)
        }
    } else {
        operator_of_text(p.rule, p.text)
    }
}

/// The arithmetic operator in `op`, or `default` where `op` is none.
pub open spec fn binop_or(op: Operator, default: BinOp) -> BinOp {
    match op {
        Operator::BinOp(b) => b,
        _ => default,
    }
}

/// The logical operator in `op`, or `default` where `op` is none.
pub open spec fn logical_or(op: Operator, default: LogicalOp) -> LogicalOp {
    match op {
        Operator::LogicalOp(b) => b,
        _ => default,
    }
}

/// The bitwise operator in `op`, or `default` where `op` is none.
pub open spec fn bitwise_or(op: Operator, default: BitwiseOp) -> BitwiseOp {
    match op {
        Operator::BitwiseOp(b) => b,
        _ => default,
    }
}

/// The prefix operator in `op`, or `default` where `op` is none.
pub open spec fn unop_or(op: Operator, default: UnOp) -> UnOp {
    match op {
        Operator::UnOp(b) => b,
        _ => default,
    }
}

/// The variable with no name, no index and no member.
pub open spec fn blank_variable() -> VariableView {
    VariableView { id: Seq::empty(), indexing: Seq::empty(), sub_variable: None }
}

/// The variable named `id`, with no index and no member.
pub open spec fn plain_variable(id: Seq<char>) -> VariableView {
    VariableView { id, indexing: Seq::empty(), sub_variable: None }
}

/// The expressions of the children of a node, in order.
pub open spec fn children_of(p: PairView) -> Seq<ExprView>
    decreases p, 0nat,
{
    Seq::new(
        p.inner.len(),
        |i: int|
            if 0 <= i < p.inner.len() {
                expression_of(p.inner[i])
            } else {
                ExprView::Empty
            },
    )
}

/// The expression of the first child, or the empty expression.
pub open spec fn first_of(p: PairView) -> ExprView
    decreases p, 1nat,
{
    if p.inner.len() > 0 {
        children_of(p)[0]
    } else {
        ExprView::Empty
    }
}

/// Left-associative folding of an operand/operator/operand/... sequence:
/// `acc` holds the fold of the children before `k`, where `k` is the place of
/// the next operator.
pub open spec fn fold_chain(
    inner: Seq<PairView>,
    kids: Seq<ExprView>,
    k: int,
    acc: ExprView,
    default: BinOp,
) -> ExprView
    decreases inner.len() - k,
{
    if 1 <= k && k + 1 < inner.len() && kids.len() == inner.len() {
        fold_chain(
            inner,
            kids,
            k + 2,
            ExprView::BinaryOperation {
                left: Box::new(acc),
                op: binop_or(operation_of(inner[k]), default),
                right: Box::new(kids[k + 1]),
            },
            default,
        )
    } else {
        acc
    }
}

/// Routes the suffixes of a complex variable from child `k` on: an identifier
/// child starts member access and becomes the sub-variable; any other child is
/// an index, of the variable itself before the first member and of the
/// sub-variable after it.
pub open spec fn with_suffixes(
    inner: Seq<PairView>,
    kids: Seq<ExprView>,
    k: int,
    v: VariableView,
    before: bool,
) -> VariableView
    decreases inner.len() - k,
{
    if k < 0 || k >= inner.len() || kids.len() != inner.len() {
        v
    } else if inner[k].rule == Rule::Identifier {
        with_suffixes(
            inner,
            kids,
            k + 1,
            VariableView {
                id: v.id,
                indexing: v.indexing,
                sub_variable: Some(Box::new(plain_variable(inner[k].text))),
            },
            false,
        )
    } else if before {
        with_suffixes(
            inner,
            kids,
            k + 1,
            VariableView {
                id: v.id,
                indexing: v.indexing.push(kids[k]),
                sub_variable: v.sub_variable,
            },
            true,
        )
    } else {
        match v.sub_variable {
            Some(sub) => with_suffixes(
                inner,
                kids,
                k + 1,
                VariableView {
                    id: v.id,
                    indexing: v.indexing,
                    sub_variable: Some(
                        Box::new(
                            VariableView {
                                id: sub.id,
                                indexing: sub.indexing.push(kids[k]),
                                sub_variable: sub.sub_variable,
                            },
                        ),
                    ),
                },
                false,
            ),
            None => with_suffixes(inner, kids, k + 1, v, false),
        }
    }
}

/// The expression tree of a parse-tree node.
///
/// The precedence layers pass a single child through unchanged. A ternary
/// layer with three children is a conditional; logical, exponent, bitwise and
/// shift layers with three children are one binary node; additive and
/// multiplicative layers fold left to right; a unary layer with two children
/// applies its operator. A factor with more than two children stands for its
/// second child. Names and numbers are leaves; a number that does not fit in
/// 32 bits, and any node the tree builder does not know, is the empty expression.
pub open spec fn expression_of(p: PairView) -> ExprView
    decreases p, 2nat,
{
    let kids = children_of(p);
    let n = p.inner.len();
    let first = first_of(p);
    match p.rule {
        Rule::TernaryExpr => if n != 3 {
            first
        } else {
            ExprView::Conditional {
                condition: Box::new(kids[0]),
                true_value: Box::new(kids[1]),
                false_value: Box::new(kids[2]),
            }
        },
        Rule::LogicalExpr => if n != 3 {
            first
        } else {
            ExprView::LogicalOperation {
                left: Box::new(kids[0]),
                op: logical_or(operation_of(p.inner[1]), LogicalOp::And),
                right: Box::new(kids[2]),
            }
        },
        Rule::ArithExpr => if n == 1 {
            first
        } else if n < 3 {
            ExprView::Number(0)
        } else {
            fold_chain(p.inner, kids, 1, kids[0], BinOp::Add)
        },
        Rule::Term => if n < 3 {
            first
        } else {
            fold_chain(p.inner, kids, 1, kids[0], BinOp::Multiply)
        },
        Rule::Exponent => if n != 3 {
            first
        } else {
            ExprView::BinaryOperation {
                left: Box::new(kids[0]),
                op: binop_or(operation_of(p.inner[1]), BinOp::Exponent),
                right: Box::new(kids[2]),
            }
        },
        Rule::BitwiseExpr | Rule::ShiftExpr => if n != 3 {
            first
        } else {
            ExprView::BitwiseOperation {
                left: Box::new(kids[0]),
                op: bitwise_or(operation_of(p.inner[1]), BitwiseOp::And),
                right: Box::new(kids[2]),
            }
        },
        Rule::UnaryExpr => if n != 2 {
            first
        } else {
            ExprView::UnaryOperation {
                op: unop_or(operation_of(p.inner[0]), UnOp::Negate),
                expr: Box::new(kids[1]),
            }
        },
        Rule::ComponentInstance => if n == 0 {
            ExprView::Empty
        } else {
            ExprView::ComponentInstance {
                name: match kids[0] {
                    ExprView::ComplexVariable(v) => v,
                    _ => blank_variable(),
                },
                parameter_list: kids.subrange(1, n as int),
            }
        },
        Rule::Factor => if n > 2 {
            kids[1]
        } else {
            first
        },
        Rule::ComplexVariable => match first {
            ExprView::ComplexVariable(v) => ExprView::ComplexVariable(
                with_suffixes(p.inner, kids, 1, v, true),
            ),
            _ => ExprView::ComplexVariable(blank_variable()),
        },
        Rule::ArrayDeclaration => first,
        Rule::Identifier => ExprView::ComplexVariable(plain_variable(p.text)),
        Rule::Number => match decimal_value(p.text) {
            Some(value) => ExprView::Number(value),
            None => ExprView::Empty,
        },
        _ => ExprView::Empty,
    }
}

/// The statement that a top-level parse-tree node denotes.
///
/// A constraint rule with the operator `<==` or `<--` targets its left side,
/// with `==>` or `-->` its right side; `<==` and `==>` make a constraint,
/// `<--` and `-->` an assignment. An assignment rule targets its left side.
/// An assertion rule with three children is a symmetric constraint, otherwise
/// a bare assertion. A ternary rule with three children is a conditional
/// statement, otherwise an expression statement. A target that is no variable
/// reference, a wrong number of children, and any other rule give the empty
/// statement.
pub open spec fn statement_of_pair(p: PairView) -> StmtView {
    let kids = children_of(p);
    let n = p.inner.len();
    match p.rule {
        Rule::TernaryExpr => if n != 3 {
            StmtView::RegularExpr(first_of(p))
        } else {
            StmtView::ConditionalAssign {
                condition: kids[0],
                true_value: kids[1],
                false_value: kids[2],
            }
        },
        Rule::Constraint => if n != 3 {
            StmtView::Empty
        } else {
            match operation_of(p.inner[1]) {
                Operator::LeftConstraint => match kids[0] {
                    ExprView::ComplexVariable(v) => StmtView::Constraint {
                        target: v,
                        value: kids[2],
                    },
                    _ => StmtView::Empty,
                },
                Operator::RightConstraint => match kids[2] {
                    ExprView::ComplexVariable(v) => StmtView::Constraint {
                        target: v,
                        value: kids[0],
                    },
                    _ => StmtView::Empty,
                },
                Operator::LeftSignalAssign => match kids[0] {
                    ExprView::ComplexVariable(v) => StmtView::Assign {
                        target: v,
                        value: kids[2],
                        assign_op: Operator::LeftSignalAssign,
                    },
                    _ => StmtView::Empty,
                },
                Operator::RightSignalAssign => match kids[2] {
                    ExprView::ComplexVariable(v) => StmtView::Assign {
                        target: v,
                        value: kids[0],
                        assign_op: Operator::RightSignalAssign,
                    },
                    _ => StmtView::Empty,
                },
                _ => StmtView::Empty,
            }
        },
        Rule::Assignment => if n != 3 {
            StmtView::Empty
        } else {
            match kids[0] {
                ExprView::ComplexVariable(v) => StmtView::Assign {
                    target: v,
                    value: kids[2],
                    assign_op: operation_of(p.inner[1]),
                },
                _ => StmtView::Empty,
            }
        },
        Rule::Assertion => if n == 3 {
            StmtView::SymmetricConstraint { left: kids[0], right: kids[2] }
        } else {
            StmtView::Assert { value: first_of(p) }
        },
        _ => StmtView::Empty,
    }
}

/// The statement of an optional parse tree: text that is no statement gives
/// the empty statement.
pub open spec fn statement_of(tree: Option<PairView>) -> StmtView {
    match tree {
        Some(p) => statement_of_pair(p),
        None => StmtView::Empty,
    }
}

/// The typed statement that a line of source text denotes.
pub open spec fn statement_of_text(line: Seq<char>) -> StmtView {
    statement_of(statement_tree(line))
}

/// The model of an optional boxed variable.
pub open spec fn boxed_variable_view(o: Option<Box<Variable>>) -> Option<Box<VariableView>> {
    match o {
        Some(sub) => Some(Box::new(variable_view(*sub))),
        None => None,
    }
}

/// The children of a node's model are the models of the node's children.
pub proof fn lemma_pair_children(pair: Pair)
    ensures
        pair@.rule == pair.rule,
        pair@.text == pair.text@,
        pair@.inner.len() == pair.inner@.len(),
        forall|i: int| 0 <= i < pair.inner@.len() ==> #[trigger] pair@.inner[i] == pair.inner@[i]@,
{
}

/// Appends an expression to a list of expressions.
pub fn push_expr(v: &mut Vec<Expr>, e: Expr)
    ensures
        exprs_view(*final(v)) == exprs_view(*old(v)).push(e@),
{
    v.push(e);
    assert(exprs_view(*v) =~= exprs_view(*old(v)).push(e@));
}

fn descends_exec(rule: Rule) -> (res: bool)
    ensures
        res == descends(rule),
{
    match rule {
        Rule::TernaryExpr => true,
        Rule::LogicalExpr => true,
        Rule::ArithExpr => true,
        Rule::Term => true,
        Rule::Exponent => true,
        Rule::BitwiseExpr => true,
        Rule::ShiftExpr => true,
        Rule::UnaryExpr => true,
        Rule::Factor => true,
        Rule::ComplexVariable => true,
        Rule::Identifier => true,
        Rule::Number => true,
        _ => false,
    }
}

/// The operator that an operator rule and its matched text denote.
pub fn operator_from_text(rule: Rule, text: &str) -> (res: Operator)
    ensures
        res == operator_of_text(rule, text@),
{
    match rule {
        Rule::LogicalOp => {
            if str_eq(text, "!=") {
                Operator::LogicalOp(LogicalOp::NotEqual)
            } else if str_eq(text, "&&") {
                Operator::LogicalOp(LogicalOp::And)
            } else if str_eq(text, "||") {
                Operator::LogicalOp(LogicalOp::Or)
            } else if str_eq(text, "==") {
                Operator::LogicalOp(LogicalOp::Equal)
            } else if str_eq(text, "<") {
                Operator::LogicalOp(LogicalOp::LessThan)
            } else if str_eq(text, "<=") {
                Operator::LogicalOp(LogicalOp::LessThanOrEqual)
            } else if str_eq(text, ">") {
                Operator::LogicalOp(LogicalOp::GreaterThan)
            } else if str_eq(text, ">=") {
                Operator::LogicalOp(LogicalOp::GreaterThanOrEqual)
            } else {
                Operator::BinOp(BinOp::Add)
            }
        },
        Rule::AddOp | Rule::MultiplyOp | Rule::ExponentOp => {
            if str_eq(text, "+") {
                Operator::BinOp(BinOp::Add)
            } else if str_eq(text, "-") {
                Operator::BinOp(BinOp::Subtract)
            } else if str_eq(text, "*") {
                Operator::BinOp(BinOp::Multiply)
            } else if str_eq(text, "/") {
                Operator::BinOp(BinOp::Divide)
            } else if str_eq(text, "**") {
                Operator::BinOp(BinOp::Exponent)
            } else if str_eq(text, "\\") {
                Operator::BinOp(BinOp::Quotient)
            } else if str_eq(text, "%") {
                Operator::BinOp(BinOp::Modulo)
            } else {
                Operator::BinOp(BinOp::Add)
            }
        },
        Rule::ShiftOp | Rule::BitwiseOp => {
            if str_eq(text, ">>") {
                Operator::BitwiseOp(BitwiseOp::ShiftRight)
            } else if str_eq(text, "<<") {
                Operator::BitwiseOp(BitwiseOp::ShiftLeft)
            } else if str_eq(text, "|") {
                Operator::BitwiseOp(BitwiseOp::Or)
            } else if str_eq(text, "&") {
                Operator::BitwiseOp(BitwiseOp::And)
            } else if str_eq(text, "^") {
                Operator::BitwiseOp(BitwiseOp::Xor)
            } else {
                Operator::BinOp(BinOp::Add)
            }
        },
        Rule::UnaryOp => {
            if str_eq(text, "!") {
                Operator::UnOp(UnOp::Not)
            } else if str_eq(text, "-") {
                Operator::UnOp(UnOp::Negate)
            } else if str_eq(text, "~") {
                Operator::UnOp(UnOp::BitwiseNot)
            } else {
                Operator::BinOp(BinOp::Add)
            }
        },
        Rule::SymmetricConstraintOp => {
            if str_eq(text, "===") {
                Operator::SymmetricConstraintOp
            } else {
                Operator::BinOp(BinOp::Add)
            }
        },
        Rule::LeftConstraintOp | Rule::RightConstraintOp => {
            if str_eq(text, "<==") {
                Operator::LeftConstraint
            } else if str_eq(text, "<--") {
                Operator::LeftSignalAssign
            } else if str_eq(text, "==>") {
                Operator::RightConstraint
            } else if str_eq(text, "-->") {
                Operator::RightSignalAssign
            } else {
                Operator::BinOp(BinOp::Add)
            }
        },
        Rule::AssignmentOp => {
            if str_eq(text, "=") {
                Operator::Assignment
            } else if str_eq(text, "+=") {
                Operator::PlusAssignment
            } else if str_eq(text, "-=") {
                Operator::MinusAssignment
            } else if str_eq(text, "*=") {
                Operator::TimesAssignment
            } else if str_eq(text, "**=") {
                Operator::ExponentAssignment
            } else if str_eq(text, "/=") {
                Operator::DivideAssignment
            } else if str_eq(text, "\\=") {
                Operator::QuotientAssignment
            } else if str_eq(text, "%=") {
                Operator::ModuloAssignment
            } else {
                Operator::BinOp(BinOp::Add)
            }
        },
        _ => Operator::BinOp(BinOp::Add),
    }
}

/// Resolves a matched grammar rule and its text to a typed operator.
pub fn parse_operation(pair: &Pair) -> (res: Operator)
    ensures
        res == operation_of(pair@),
    decreases pair,
{
    proof {
        lemma_pair_children(*pair);
    }
    if descends_exec(pair.rule) {
        if pair.inner.len() > 0 {
            parse_operation(&pair.inner[0])
        } else {
            Operator::BinOp(BinOp::Add)
        }
    } else {
        operator_from_text(pair.rule, pair.text.as_str())
    }
}

fn binop_or_exec(op: Operator, default: BinOp) -> (res: BinOp)
    ensures
        res == binop_or(op, default),
{
    match op {
        Operator::BinOp(b) => b,
        _ => default,
    }
}

fn logical_or_exec(op: Operator, default: LogicalOp) -> (res: LogicalOp)
    ensures
        res == logical_or(op, default),
{
    match op {
        Operator::LogicalOp(b) => b,
        _ => default,
    }
}

fn bitwise_or_exec(op: Operator, default: BitwiseOp) -> (res: BitwiseOp)
    ensures
        res == bitwise_or(op, default),
{
    match op {
        Operator::BitwiseOp(b) => b,
        _ => default,
    }
}

fn unop_or_exec(op: Operator, default: UnOp) -> (res: UnOp)
    ensures
        res == unop_or(op, default),
{
    match op {
        Operator::UnOp(b) => b,
        _ => default,
    }
}

/// The variable with no name, no index and no member.
fn blank_variable_exec() -> (res: Variable)
    ensures
        res@ == blank_variable(),
{
    let v = Variable { id: String::new(), indexing: Vec::new(), sub_variable: None };
    assert(exprs_view(v.indexing) =~= Seq::empty());
    v
}

/// The variable named `id`, with no index and no member.
fn plain_variable_exec(id: String) -> (res: Variable)
    ensures
        res@ == plain_variable(id@),
{
    let v = Variable { id, indexing: Vec::new(), sub_variable: None };
    assert(exprs_view(v.indexing) =~= Seq::empty());
    v
}

/// The expression of the first child, or the empty expression.
fn parse_first(pair: &Pair) -> (res: Expr)
    ensures
        res@ == first_of(pair@),
    decreases pair, 1nat,
{
    proof {
        lemma_pair_children(*pair);
    }
    if pair.inner.len() > 0 {
        parse_expression(&pair.inner[0])
    } else {
        Expr::Empty
    }
}

/// Folds an operand/operator/operand/... sequence of three or more children
/// to the left.
fn parse_chain(pair: &Pair, default: BinOp) -> (res: Expr)
    requires
        pair.inner.len() >= 3,
    ensures
        res@ == fold_chain(pair@.inner, children_of(pair@), 1, children_of(pair@)[0], default),
    decreases pair, 1nat,
{
    proof {
        lemma_pair_children(*pair);
    }
    let n = pair.inner.len();
    let ghost kids = children_of(pair@);
    let mut acc = parse_expression(&pair.inner[0]);
    let mut k: usize = 1;
    while n - k > 1
        invariant
            1 <= k <= n,
            n == pair.inner.len(),
            n == pair@.inner.len(),
            kids == children_of(pair@),
            forall|i: int| 0 <= i < n ==> #[trigger] pair@.inner[i] == pair.inner@[i]@,
            fold_chain(pair@.inner, kids, k as int, acc@, default) == fold_chain(
                pair@.inner,
                kids,
                1,
                kids[0],
                default,
            ),
        decreases n - k,
    {
        let op = binop_or_exec(parse_operation(&pair.inner[k]), default);
        let right = parse_expression(&pair.inner[k + 1]);
        acc = Expr::BinaryOperation(
            BinaryOperation { left: Box::new(acc), op, right: Box::new(right) },
        );
        k += 2;
    }
    acc
}

/// Builds the variable reference of a complex-variable node whose first
/// child gave `base`.
fn parse_suffixes(pair: &Pair, base: Variable) -> (res: Variable)
    requires
        pair.inner.len() > 0,
    ensures
        res@ == with_suffixes(pair@.inner, children_of(pair@), 1, base@, true),
    decreases pair, 1nat,
{
    proof {
        lemma_pair_children(*pair);
    }
    let n = pair.inner.len();
    let ghost kids = children_of(pair@);
    let id = base.id;
    let mut indexing = base.indexing;
    let base_sub = base.sub_variable;
    let mut member_id = String::new();
    let mut member_indexing: Vec<Expr> = Vec::new();
    let mut before = true;
    let mut k: usize = 1;
    assert(exprs_view(member_indexing) =~= Seq::empty());
    while k < n
        invariant
            1 <= k <= n,
            n == pair.inner.len(),
            n == pair@.inner.len(),
            kids == children_of(pair@),
            forall|i: int| 0 <= i < n ==> #[trigger] pair@.inner[i] == pair.inner@[i]@,
            with_suffixes(
                pair@.inner,
                kids,
                k as int,
                VariableView {
                    id: id@,
                    indexing: exprs_view(indexing),
                    sub_variable: if before {
                        boxed_variable_view(base_sub)
                    } else {
                        Some(
                            Box::new(
                                VariableView {
                                    id: member_id@,
                                    indexing: exprs_view(member_indexing),
                                    sub_variable: None,
                                },
                            ),
                        )
                    },
                },
                before,
            ) == with_suffixes(pair@.inner, kids, 1, base@, true),
        decreases n - k,
    {
        match pair.inner[k].rule {
            Rule::Identifier => {
                member_id = pair.inner[k].text.clone();
                member_indexing = Vec::new();
                before = false;
                assert(exprs_view(member_indexing) =~= Seq::empty());
            },
            _ => {
                let e = parse_expression(&pair.inner[k]);
                if before {
                    push_expr(&mut indexing, e);
                } else {
                    push_expr(&mut member_indexing, e);
                }
            },
        }
        k += 1;
    }
    let sub_variable = if before {
        base_sub
    } else {
        let member = Variable { id: member_id, indexing: member_indexing, sub_variable: None };
        assert(member@ == VariableView {
            id: member_id@,
            indexing: exprs_view(member_indexing),
            sub_variable: None,
        });
        Some(Box::new(member))
    };
    let res = Variable { id, indexing, sub_variable };
    assert(res@.sub_variable == boxed_variable_view(sub_variable));
    res
}

/// Builds the expression tree of a parse-tree node.
pub fn parse_expression(pair: &Pair) -> (res: Expr)
    ensures
        res@ == expression_of(pair@),
    decreases pair, 2nat,
{
    proof {
        lemma_pair_children(*pair);
    }
    let n = pair.inner.len();
    match pair.rule {
        Rule::TernaryExpr => {
            if n != 3 {
                parse_first(pair)
            } else {
                Expr::Conditional {
                    condition: Box::new(parse_expression(&pair.inner[0])),
                    true_value: Box::new(parse_expression(&pair.inner[1])),
                    false_value: Box::new(parse_expression(&pair.inner[2])),
                }
            }
        },
        Rule::LogicalExpr => {
            if n != 3 {
                parse_first(pair)
            } else {
                let op = logical_or_exec(parse_operation(&pair.inner[1]), LogicalOp::And);
                Expr::LogicalOperation {
                    left: Box::new(parse_expression(&pair.inner[0])),
                    op,
                    right: Box::new(parse_expression(&pair.inner[2])),
                }
            }
        },
        Rule::ArithExpr => {
            if n == 1 {
                parse_first(pair)
            } else if n < 3 {
                Expr::Number(0)
            } else {
                parse_chain(pair, BinOp::Add)
            }
        },
        Rule::Term => {
            if n < 3 {
                parse_first(pair)
            } else {
                parse_chain(pair, BinOp::Multiply)
            }
        },
        Rule::Exponent => {
            if n != 3 {
                parse_first(pair)
            } else {
                let op = binop_or_exec(parse_operation(&pair.inner[1]), BinOp::Exponent);
                Expr::BinaryOperation(
                    BinaryOperation {
                        left: Box::new(parse_expression(&pair.inner[0])),
                        op,
                        right: Box::new(parse_expression(&pair.inner[2])),
                    },
                )
            }
        },
        Rule::BitwiseExpr | Rule::ShiftExpr => {
            if n != 3 {
                parse_first(pair)
            } else {
                let op = bitwise_or_exec(parse_operation(&pair.inner[1]), BitwiseOp::And);
                Expr::BitwiseOperation {
                    left: Box::new(parse_expression(&pair.inner[0])),
                    op,
                    right: Box::new(parse_expression(&pair.inner[2])),
                }
            }
        },
        Rule::UnaryExpr => {
            if n != 2 {
                parse_first(pair)
            } else {
                let op = unop_or_exec(parse_operation(&pair.inner[0]), UnOp::Negate);
                Expr::UnaryOperation { op, expr: Box::new(parse_expression(&pair.inner[1])) }
            }
        },
        Rule::ComponentInstance => {
            if n == 0 {
                Expr::Empty
            } else {
                let name = match parse_expression(&pair.inner[0]) {
                    Expr::ComplexVariable(v) => v,
                    _ => blank_variable_exec(),
                };
                let ghost kids = children_of(pair@);
                let mut params: Vec<Expr> = Vec::new();
                let mut i: usize = 1;
                assert(exprs_view(params) =~= kids.subrange(1, 1));
                while i < n
                    invariant
                        1 <= i <= n,
                        n == pair.inner.len(),
                        n == pair@.inner.len(),
                        kids == children_of(pair@),
                        forall|j: int| 0 <= j < n ==> #[trigger] pair@.inner[j] == pair.inner@[j]@,
                        exprs_view(params) == kids.subrange(1, i as int),
                    decreases n - i,
                {
                    let e = parse_expression(&pair.inner[i]);
                    push_expr(&mut params, e);
                    i += 1;
                    assert(exprs_view(params) =~= kids.subrange(1, i as int));
                }
                Expr::ComponentInstance(ComponentInstance { name, parameter_list: params })
            }
        },
        Rule::Factor => {
            if n > 2 {
                parse_expression(&pair.inner[1])
            } else {
                parse_first(pair)
            }
        },
        Rule::ComplexVariable => {
            match parse_first(pair) {
                Expr::ComplexVariable(base) => Expr::ComplexVariable(parse_suffixes(pair, base)),
                _ => Expr::ComplexVariable(blank_variable_exec()),
            }
        },
        Rule::ArrayDeclaration => parse_first(pair),
        Rule::Identifier => Expr::ComplexVariable(plain_variable_exec(pair.text.clone())),
        Rule::Number => {
            match parse_decimal(pair.text.as_str()) {
                Some(value) => Expr::Number(value),
                None => Expr::Empty,
            }
        },
        _ => Expr::Empty,
    }
}

/// Classifies a top-level parse-tree node as one of the statement kinds.
pub fn statement_from_pair(pair: &Pair) -> (res: Stmt)
    ensures
        res@ == statement_of_pair(pair@),
{
    proof {
        lemma_pair_children(*pair);
    }
    let n = pair.inner.len();
    match pair.rule {
        Rule::TernaryExpr => {
            if n != 3 {
                Stmt::RegularExpr(parse_first(pair))
            } else {
                Stmt::ConditionalAssign(
                    ConditionalAssign {
                        condition: parse_expression(&pair.inner[0]),
                        true_value: parse_expression(&pair.inner[1]),
                        false_value: parse_expression(&pair.inner[2]),
                    },
                )
            }
        },
        Rule::Constraint => {
            if n != 3 {
                Stmt::Empty
            } else {
                let left = parse_expression(&pair.inner[0]);
                let op_raw = parse_operation(&pair.inner[1]);
                let right = parse_expression(&pair.inner[2]);
                match op_raw {
                    Operator::LeftConstraint => match left {
                        Expr::ComplexVariable(var) => Stmt::Constraint(
                            Constraint { target: var, value: right },
                        ),
                        _ => Stmt::Empty,
                    },
                    Operator::RightConstraint => match right {
                        Expr::ComplexVariable(var) => Stmt::Constraint(
                            Constraint { target: var, value: left },
                        ),
                        _ => Stmt::Empty,
                    },
                    Operator::LeftSignalAssign => match left {
                        Expr::ComplexVariable(var) => Stmt::Assign(
                            Assign {
                                target: var,
                                value: right,
                                assign_op: Operator::LeftSignalAssign,
                            },
                        ),
                        _ => Stmt::Empty,
                    },
                    Operator::RightSignalAssign => match right {
                        Expr::ComplexVariable(var) => Stmt::Assign(
                            Assign {
                                target: var,
                                value: left,
                                assign_op: Operator::RightSignalAssign,
                            },
                        ),
                        _ => Stmt::Empty,
                    },
                    _ => Stmt::Empty,
                }
            }
        },
        Rule::Assignment => {
            if n != 3 {
                Stmt::Empty
            } else {
                let left = parse_expression(&pair.inner[0]);
                let op_raw = parse_operation(&pair.inner[1]);
                let right = parse_expression(&pair.inner[2]);
                match left {
                    Expr::ComplexVariable(var) => Stmt::Assign(
                        Assign { target: var, value: right, assign_op: op_raw },
                    ),
                    _ => Stmt::Empty,
                }
            }
        },
        Rule::Assertion => {
            if n == 3 {
                Stmt::SymmetricConstraint(
                    SymmetricConstraint {
                        left: parse_expression(&pair.inner[0]),
                        right: parse_expression(&pair.inner[2]),
                    },
                )
            } else {
                Stmt::Assert(Assert { value: parse_first(pair) })
            }
        },
        _ => Stmt::Empty,
    }
}

/// Parses one line of source text into a typed statement. Text that the
/// grammar does not accept gives [`Stmt::Empty`].
pub fn parse_statement(line: &str) -> (res: Stmt)
    ensures
        res@ == statement_of_text(line@),
{
    match ExpressionParser::parse(line) {
        Some(pair) => statement_from_pair(&pair),
        None => Stmt::Empty,
    }
}

/// An operator node: a node of an operator rule with its spelling.
pub open spec fn operator_node(rule: Rule, text: Seq<char>) -> PairView {
    PairView { rule, text, inner: Seq::empty() }
}

/// A constraint node with the children left, operator, right.
pub open spec fn constraint_node(
    text: Seq<char>,
    left: PairView,
    op: PairView,
    right: PairView,
) -> PairView {
    PairView { rule: Rule::Constraint, text, inner: seq![left, op, right] }
}

/// Constraint direction: `target <== value` and `value ==> target` are the
/// same statement, the constraint of `target` to `value`, whatever the two
/// sides are; it is the empty statement when `target` is no variable reference.
pub proof fn lemma_constraint_direction(
    target: PairView,
    value: PairView,
    text_left: Seq<char>,
    text_right: Seq<char>,
)
    ensures
        statement_of_pair(
            constraint_node(
                text_left,
                target,
                operator_node(Rule::LeftConstraintOp, "<=="@),
                value,
            ),
        ) == statement_of_pair(
            constraint_node(
                text_right,
                value,
                operator_node(Rule::RightConstraintOp, "==>"@),
                target,
            ),
        ),
        statement_of_pair(
            constraint_node(
                text_left,
                target,
                operator_node(Rule::LeftConstraintOp, "<=="@),
                value,
            ),
        ) == match expression_of(target) {
            ExprView::ComplexVariable(v) => StmtView::Constraint {
                target: v,
                value: expression_of(value),
            },
            _ => StmtView::Empty,
        },
{
    reveal_strlit("<==");
    reveal_strlit("<--");
    reveal_strlit("==>");
    let l = constraint_node(
        text_left,
        target,
        operator_node(Rule::LeftConstraintOp, "<=="@),
        value,
    );
    let r = constraint_node(
        text_right,
        value,
        operator_node(Rule::RightConstraintOp, "==>"@),
        target,
    );
    assert("==>"@ != "<=="@) by {
        assert("==>"@[0] == '=');
        assert("<=="@[0] == '<');
    }
    assert("==>"@ != "<--"@) by {
        assert("==>"@[0] == '=');
        assert("<--"@[0] == '<');
    }
    assert(operation_of(l.inner[1]) == Operator::LeftConstraint);
    assert(operation_of(r.inner[1]) == Operator::RightConstraint);
    assert(children_of(l)[0] == expression_of(target));
    assert(children_of(l)[2] == expression_of(value));
    assert(children_of(r)[0] == expression_of(value));
    assert(children_of(r)[2] == expression_of(target));
}

/// Every spelling of an operator rule denotes its own operator: the
/// resolver falls back to addition only for a text that the rule does not spell.
pub proof fn lemma_operator_spellings()
    ensures
        operator_of_text(Rule::LogicalOp, "!="@) == Operator::LogicalOp(LogicalOp::NotEqual),
        operator_of_text(Rule::LogicalOp, "&&"@) == Operator::LogicalOp(LogicalOp::And),
        operator_of_text(Rule::LogicalOp, "||"@) == Operator::LogicalOp(LogicalOp::Or),
        operator_of_text(Rule::LogicalOp, "=="@) == Operator::LogicalOp(LogicalOp::Equal),
        operator_of_text(Rule::LogicalOp, "<"@) == Operator::LogicalOp(LogicalOp::LessThan),
        operator_of_text(Rule::LogicalOp, "<="@) == Operator::LogicalOp(
            LogicalOp::LessThanOrEqual,
        ),
        operator_of_text(Rule::LogicalOp, ">"@) == Operator::LogicalOp(LogicalOp::GreaterThan),
        operator_of_text(Rule::LogicalOp, ">="@) == Operator::LogicalOp(
            LogicalOp::GreaterThanOrEqual,
        ),
        operator_of_text(Rule::AddOp, "+"@) == Operator::BinOp(BinOp::Add),
        operator_of_text(Rule::AddOp, "-"@) == Operator::BinOp(BinOp::Subtract),
        operator_of_text(Rule::MultiplyOp, "*"@) == Operator::BinOp(BinOp::Multiply),
        operator_of_text(Rule::MultiplyOp, "/"@) == Operator::BinOp(BinOp::Divide),
        operator_of_text(Rule::MultiplyOp, "\\"@) == Operator::BinOp(BinOp::Quotient),
        operator_of_text(Rule::MultiplyOp, "%"@) == Operator::BinOp(BinOp::Modulo),
        operator_of_text(Rule::ExponentOp, "**"@) == Operator::BinOp(BinOp::Exponent),
        operator_of_text(Rule::ShiftOp, ">>"@) == Operator::BitwiseOp(BitwiseOp::ShiftRight),
        operator_of_text(Rule::ShiftOp, "<<"@) == Operator::BitwiseOp(BitwiseOp::ShiftLeft),
        operator_of_text(Rule::BitwiseOp, "|"@) == Operator::BitwiseOp(BitwiseOp::Or),
        operator_of_text(Rule::BitwiseOp, "&"@) == Operator::BitwiseOp(BitwiseOp::And),
        operator_of_text(Rule::BitwiseOp, "^"@) == Operator::BitwiseOp(BitwiseOp::Xor),
        operator_of_text(Rule::UnaryOp, "!"@) == Operator::UnOp(UnOp::Not),
        operator_of_text(Rule::UnaryOp, "-"@) == Operator::UnOp(UnOp::Negate),
        operator_of_text(Rule::UnaryOp, "~"@) == Operator::UnOp(UnOp::BitwiseNot),
        operator_of_text(Rule::SymmetricConstraintOp, "==="@) == Operator::SymmetricConstraintOp,
        operator_of_text(Rule::LeftConstraintOp, "<=="@) == Operator::LeftConstraint,
        operator_of_text(Rule::LeftConstraintOp, "<--"@) == Operator::LeftSignalAssign,
        operator_of_text(Rule::RightConstraintOp, "==>"@) == Operator::RightConstraint,
        operator_of_text(Rule::RightConstraintOp, "-->"@) == Operator::RightSignalAssign,
        operator_of_text(Rule::AssignmentOp, "="@) == Operator::Assignment,
        operator_of_text(Rule::AssignmentOp, "+="@) == Operator::PlusAssignment,
        operator_of_text(Rule::AssignmentOp, "-="@) == Operator::MinusAssignment,
        operator_of_text(Rule::AssignmentOp, "*="@) == Operator::TimesAssignment,
        operator_of_text(Rule::AssignmentOp, "**="@) == Operator::ExponentAssignment,
        operator_of_text(Rule::AssignmentOp, "/="@) == Operator::DivideAssignment,
        operator_of_text(Rule::AssignmentOp, "\\="@) == Operator::QuotientAssignment,
        operator_of_text(Rule::AssignmentOp, "%="@) == Operator::ModuloAssignment,
{
    reveal_strlit("!=");
    reveal_strlit("&&");
    reveal_strlit("||");
    reveal_strlit("==");
    reveal_strlit("<");
    reveal_strlit("<=");
    reveal_strlit(">");
    reveal_strlit(">=");
    reveal_strlit("+");
    reveal_strlit("-");
    reveal_strlit("*");
    reveal_strlit("/");
    reveal_strlit("**");
    reveal_strlit("\\");
    reveal_strlit("%");
    reveal_strlit(">>");
    reveal_strlit("<<");
    reveal_strlit("|");
    reveal_strlit("&");
    reveal_strlit("^");
    reveal_strlit("!");
    reveal_strlit("~");
    reveal_strlit("===");
    reveal_strlit("<==");
    reveal_strlit("<--");
    reveal_strlit("==>");
    reveal_strlit("-->");
    reveal_strlit("=");
    reveal_strlit("+=");
    reveal_strlit("-=");
    reveal_strlit("*=");
    reveal_strlit("**=");
    reveal_strlit("/=");
    reveal_strlit("\\=");
    reveal_strlit("%=");
    assert("&&"@[0] != "!="@[0]);
    assert("||"@[0] != "!="@[0] && "||"@[0] != "&&"@[0]);
    assert("=="@[0] == '=');
    assert("<"@.len() == 1 && "<"@[0] == '<');
    assert("<="@.len() == 2 && "<="@[0] == '<');
    assert(">"@.len() == 1 && ">"@[0] == '>');
    assert(">="@.len() == 2 && ">="@[0] == '>');
    assert("*"@.len() == 1 && "**"@.len() == 2 && "*="@.len() == 2 && "**="@.len() == 3);
    assert("="@.len() == 1 && "=="@.len() == 2 && "==="@.len() == 3);
    assert("/"@[0] == '/' && "\\"@[0] == '\\' && "%"@[0] == '%' && "*"@[0] == '*' && "+"@[0] == '+'
        && "-"@[0] == '-');
    assert(">>"@[0] == '>' && "<<"@[0] == '<' && "|"@[0] == '|' && "&"@[0] == '&' && "^"@[0]
        == '^');
    assert("!"@[0] == '!' && "~"@[0] == '~');
    assert("<=="@[0] == '<' && "<--"@[1] == '-' && "<=="@[1] == '=' && "==>"@[0] == '=' && "-->"@[0]
        == '-');
    assert("+="@[0] == '+' && "-="@[0] == '-' && "*="@[0] == '*' && "**="@[0] == '*' && "/="@[0]
        == '/' && "\\="@[0] == '\\' && "%="@[0] == '%' && "="@[0] == '=');
}

/// A node of `rule` with the given children.
pub open spec fn node(rule: Rule, inner: Seq<PairView>) -> PairView {
    PairView { rule, text: Seq::empty(), inner }
}

/// Precedence in the tree: an additive node over a multiplicative node
/// builds the sum whose operand is the product, on either side, whatever the
/// operands are.
pub proof fn lemma_product_inside_sum(a: PairView, b: PairView, c: PairView)
    ensures
        expression_of(
            node(
                Rule::ArithExpr,
                seq![
                    a,
                    operator_node(Rule::AddOp, "+"@),
                    node(Rule::Term, seq![b, operator_node(Rule::MultiplyOp, "*"@), c]),
                ],
            ),
        ) == (ExprView::BinaryOperation {
            left: Box::new(expression_of(a)),
            op: BinOp::Add,
            right: Box::new(
                ExprView::BinaryOperation {
                    left: Box::new(expression_of(b)),
                    op: BinOp::Multiply,
                    right: Box::new(expression_of(c)),
                },
            ),
        }),
        expression_of(
            node(
                Rule::ArithExpr,
                seq![
                    node(Rule::Term, seq![a, operator_node(Rule::MultiplyOp, "*"@), b]),
                    operator_node(Rule::AddOp, "+"@),
                    c,
                ],
            ),
        ) == (ExprView::BinaryOperation {
            left: Box::new(
                ExprView::BinaryOperation {
                    left: Box::new(expression_of(a)),
                    op: BinOp::Multiply,
                    right: Box::new(expression_of(b)),
                },
            ),
            op: BinOp::Add,
            right: Box::new(expression_of(c)),
        }),
{
    lemma_operator_spellings();
    let times = operator_node(Rule::MultiplyOp, "*"@);
    let plus = operator_node(Rule::AddOp, "+"@);
    let right = node(Rule::Term, seq![b, times, c]);
    let left = node(Rule::Term, seq![a, times, b]);
    let sum_right = node(Rule::ArithExpr, seq![a, plus, right]);
    let sum_left = node(Rule::ArithExpr, seq![left, plus, c]);
    reveal_with_fuel(fold_chain, 3);
    assert(children_of(right)[0] == expression_of(b));
    assert(children_of(right)[2] == expression_of(c));
    assert(operation_of(right.inner[1]) == Operator::BinOp(BinOp::Multiply));
    assert(children_of(left)[0] == expression_of(a));
    assert(children_of(left)[2] == expression_of(b));
    assert(operation_of(left.inner[1]) == Operator::BinOp(BinOp::Multiply));
    assert(children_of(sum_right)[0] == expression_of(a));
    assert(children_of(sum_right)[2] == expression_of(right));
    assert(operation_of(sum_right.inner[1]) == Operator::BinOp(BinOp::Add));
    assert(children_of(sum_left)[0] == expression_of(left));
    assert(children_of(sum_left)[2] == expression_of(c));
    assert(operation_of(sum_left.inner[1]) == Operator::BinOp(BinOp::Add));
}

/// Member and index composition: in a variable node, an index before the
/// member belongs to the variable and an index after it to the member,
/// whatever the index expressions are.
pub proof fn lemma_member_index_composition(
    a: Seq<char>,
    b: Seq<char>,
    i: PairView,
    j: PairView,
)
    requires
        i.rule != Rule::Identifier,
        j.rule != Rule::Identifier,
    ensures
        expression_of(
            node(
                Rule::ComplexVariable,
                seq![
                    PairView { rule: Rule::Identifier, text: a, inner: Seq::empty() },
                    i,
                    PairView { rule: Rule::Identifier, text: b, inner: Seq::empty() },
                    j,
                ],
            ),
        ) == ExprView::ComplexVariable(
            VariableView {
                id: a,
                indexing: seq![expression_of(i)],
                sub_variable: Some(
                    Box::new(
                        VariableView {
                            id: b,
                            indexing: seq![expression_of(j)],
                            sub_variable: None,
                        },
                    ),
                ),
            },
        ),
{
    let name = PairView { rule: Rule::Identifier, text: a, inner: Seq::empty() };
    let member = PairView { rule: Rule::Identifier, text: b, inner: Seq::empty() };
    let p = node(Rule::ComplexVariable, seq![name, i, member, j]);
    let kids = children_of(p);
    reveal_with_fuel(with_suffixes, 5);
    assert(kids[0] == expression_of(name));
    assert(kids[1] == expression_of(i));
    assert(kids[3] == expression_of(j));
    assert(expression_of(name) == ExprView::ComplexVariable(plain_variable(a)));
    assert(Seq::<ExprView>::empty().push(expression_of(i)) =~= seq![expression_of(i)]);
    assert(Seq::<ExprView>::empty().push(expression_of(j)) =~= seq![expression_of(j)]);
}

} // verus!
