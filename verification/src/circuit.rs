//! Templates, declarations and the commands of a template's instruction stream.

use vstd::prelude::*;
use crate::parser::expression_parser::{Stmt, StmtView, clone_stmt};
use crate::parser::text::{copy_numbers, copy_strings, strings_view};

verus! {

/// What a declaration declares.
#[derive(Eq, Hash, PartialEq, Debug, Clone, Copy)]
pub enum DeclType {
    Signal,
    Variable,
    Component,
}

/// The direction of a signal.
#[derive(Eq, Hash, PartialEq, Debug, Clone, Copy)]
pub enum SignalDirection {
    Input,
    Output,
    Intermediate,
}

/// A declared signal, possibly array-shaped: one size text per dimension.
#[derive(Eq, Hash, PartialEq, Debug, Clone)]
pub struct Signal {
    pub name: String,
    pub direction: SignalDirection,
    pub size_per_dimension: Vec<String>,
    pub expression: Stmt,
}

/// An instantiated use of a template, with its resolved arguments.
#[derive(Eq, Hash, PartialEq, Debug, Clone)]
pub struct Component {
    pub name: String,
    pub size_per_dimension: Vec<String>,
    pub template_to_use: String,
    pub arguments: Vec<u32>,
}

/// A declaration of a signal, a variable or a component.
#[derive(Eq, Hash, PartialEq, Debug, Clone)]
pub struct DeclStatement {
    pub decl_type: DeclType,
    pub name: String,
    pub direction: SignalDirection,
    pub size_per_dimension: Vec<String>,
    pub template_to_use: String,
    pub expression: Stmt,
    pub arguments: Vec<u32>,
}

/// The source text of a constraint.
#[derive(Eq, Hash, PartialEq, Debug, Clone)]
pub struct Expression {
    pub content: String,
}

/// The boundary condition of a loop: two names and a comparison between them.
#[derive(Eq, Hash, PartialEq, Debug, Clone)]
pub struct BoolExpression {
    pub lhs: String,
    pub rhs: String,
    pub operation: String,
}

/// A counted loop.
#[derive(Eq, Hash, PartialEq, Debug)]
pub struct ForLoop {
    pub index: String,
    pub start_value: u32,
    pub condition: BoolExpression,
    pub step: i32,
    pub body: Vec<SingleCommand>,
}

/// One statement of a template's body, with the byte range of the source
/// that it was read from.
#[derive(Eq, Hash, PartialEq, Debug)]
pub struct Instruction {
    pub statement: Stmt,
    pub span: (usize, usize),
}

/// One command of an instruction stream.
#[derive(Eq, Hash, PartialEq, Debug)]
pub enum SingleCommand {
    ForLoop(ForLoop),
    Instruction(Instruction),
    DeclarationStatement(DeclStatement),
}

/// A named, parameterized definition of signals, components and instructions.
#[derive(Eq, Hash, PartialEq, Debug)]
pub struct Template {
    pub name: String,
    pub params: Vec<String>,
    pub private_input_signals: Vec<Signal>,
    pub output_signals: Vec<Signal>,
    pub intermediate_signals: Vec<Signal>,
    pub components: Vec<Component>,
    pub constraints: Vec<Expression>,
    pub instructions: Vec<SingleCommand>,
    pub path: String,
}

/// Mathematical model of a [`Component`].
pub struct ComponentView {
    pub name: Seq<char>,
    pub size_per_dimension: Seq<Seq<char>>,
    pub template_to_use: Seq<char>,
    pub arguments: Seq<u32>,
}

impl View for Component {
    type V = ComponentView;

    open spec fn view(&self) -> ComponentView {
        ComponentView {
            name: self.name@,
            size_per_dimension: strings_view(self.size_per_dimension),
            template_to_use: self.template_to_use@,
            arguments: self.arguments@,
        }
    }
}

/// Mathematical model of a [`Signal`].
pub struct SignalView {
    pub name: Seq<char>,
    pub direction: SignalDirection,
    pub size_per_dimension: Seq<Seq<char>>,
    pub expression: StmtView,
}

/// Mathematical model of a [`DeclStatement`].
pub struct DeclStatementView {
    pub decl_type: DeclType,
    pub name: Seq<char>,
    pub direction: SignalDirection,
    pub size_per_dimension: Seq<Seq<char>>,
    pub template_to_use: Seq<char>,
    pub expression: StmtView,
    pub arguments: Seq<u32>,
}

/// Mathematical model of a [`BoolExpression`].
pub struct BoolExpressionView {
    pub lhs: Seq<char>,
    pub rhs: Seq<char>,
    pub operation: Seq<char>,
}

/// Mathematical model of a [`ForLoop`].
pub struct ForLoopView {
    pub index: Seq<char>,
    pub start_value: u32,
    pub condition: BoolExpressionView,
    pub step: i32,
    pub body: Seq<SingleCommandView>,
}

/// Mathematical model of a [`SingleCommand`].
pub enum SingleCommandView {
    ForLoop(ForLoopView),
    Instruction { statement: StmtView, span: (usize, usize) },
    DeclarationStatement(DeclStatementView),
}

/// Mathematical model of a [`Template`].
pub struct TemplateView {
    pub name: Seq<char>,
    pub params: Seq<Seq<char>>,
    pub private_input_signals: Seq<SignalView>,
    pub output_signals: Seq<SignalView>,
    pub intermediate_signals: Seq<SignalView>,
    pub components: Seq<ComponentView>,
    pub constraints: Seq<Seq<char>>,
    pub instructions: Seq<SingleCommandView>,
    pub path: Seq<char>,
}

impl View for Signal {
    type V = SignalView;

    open spec fn view(&self) -> SignalView {
        SignalView {
            name: self.name@,
            direction: self.direction,
            size_per_dimension: strings_view(self.size_per_dimension),
            expression: self.expression@,
        }
    }
}

impl View for DeclStatement {
    type V = DeclStatementView;

    open spec fn view(&self) -> DeclStatementView {
        DeclStatementView {
            decl_type: self.decl_type,
            name: self.name@,
            direction: self.direction,
            size_per_dimension: strings_view(self.size_per_dimension),
            template_to_use: self.template_to_use@,
            expression: self.expression@,
            arguments: self.arguments@,
        }
    }
}

impl View for BoolExpression {
    type V = BoolExpressionView;

    open spec fn view(&self) -> BoolExpressionView {
        BoolExpressionView { lhs: self.lhs@, rhs: self.rhs@, operation: self.operation@ }
    }
}

/// The models of a list of commands, element by element.
pub open spec fn commands_view(v: Vec<SingleCommand>) -> Seq<SingleCommandView>
    decreases v,
{
    Seq::new(
        v@.len(),
        |i: int|
            if 0 <= i < v@.len() {
                command_view(v@[i])
            } else {
                SingleCommandView::Instruction { statement: StmtView::Empty, span: (0, 0) }
            },
    )
}

/// The model of a command.
pub open spec fn command_view(c: SingleCommand) -> SingleCommandView
    decreases c,
{
    match c {
        SingleCommand::ForLoop(l) => SingleCommandView::ForLoop(
            ForLoopView {
                index: l.index@,
                start_value: l.start_value,
                condition: l.condition@,
                step: l.step,
                body: commands_view(l.body),
            },
        ),
        SingleCommand::Instruction(i) => SingleCommandView::Instruction {
            statement: i.statement@,
            span: i.span,
        },
        SingleCommand::DeclarationStatement(d) => SingleCommandView::DeclarationStatement(d@),
    }
}

impl View for SingleCommand {
    type V = SingleCommandView;

    open spec fn view(&self) -> SingleCommandView {
        command_view(*self)
    }
}

/// The models of a list of signals, element by element.
pub open spec fn signals_view(v: Vec<Signal>) -> Seq<SignalView> {
    v@.map_values(|s: Signal| s@)
}

/// The models of a list of components, element by element.
pub open spec fn components_view(v: Vec<Component>) -> Seq<ComponentView> {
    v@.map_values(|c: Component| c@)
}

/// The texts of a list of constraints, element by element.
pub open spec fn constraints_view(v: Vec<Expression>) -> Seq<Seq<char>> {
    v@.map_values(|e: Expression| e.content@)
}

/// The models of a list of templates, element by element.
pub open spec fn templates_view(v: Vec<Template>) -> Seq<TemplateView> {
    v@.map_values(|t: Template| t@)
}

impl View for Template {
    type V = TemplateView;

    open spec fn view(&self) -> TemplateView {
        TemplateView {
            name: self.name@,
            params: strings_view(self.params),
            private_input_signals: signals_view(self.private_input_signals),
            output_signals: signals_view(self.output_signals),
            intermediate_signals: signals_view(self.intermediate_signals),
            components: components_view(self.components),
            constraints: constraints_view(self.constraints),
            instructions: commands_view(self.instructions),
            path: self.path@,
        }
    }
}

/// Appends a command to a list of commands.
pub fn push_command(v: &mut Vec<SingleCommand>, c: SingleCommand)
    ensures
        commands_view(*final(v)) == commands_view(*old(v)).push(c@),
{
    v.push(c);
    assert(commands_view(*v) =~= commands_view(*old(v)).push(c@));
}

/// Appends a signal to a list of signals.
pub fn push_signal(v: &mut Vec<Signal>, s: Signal)
    ensures
        signals_view(*final(v)) == signals_view(*old(v)).push(s@),
{
    v.push(s);
    assert(signals_view(*v) =~= signals_view(*old(v)).push(s@));
}

/// Copies a declaration.
pub fn copy_declaration(d: &DeclStatement) -> (res: DeclStatement)
    ensures
        res@ == d@,
{
    DeclStatement {
        decl_type: d.decl_type,
        name: d.name.clone(),
        direction: d.direction,
        size_per_dimension: copy_strings(&d.size_per_dimension),
        template_to_use: d.template_to_use.clone(),
        expression: clone_stmt(&d.expression),
        arguments: copy_numbers(&d.arguments),
    }
}

/// Copies a list of commands.
pub fn clone_commands(v: &Vec<SingleCommand>) -> (res: Vec<SingleCommand>)
    ensures
        commands_view(res) == commands_view(*v),
    decreases v,
{
    let mut out: Vec<SingleCommand> = Vec::new();
    let mut i: usize = 0;
    while i < v.len()
        invariant
            i <= v.len(),
            out.len() == i,
            forall|j: int| 0 <= j < i ==> command_view(#[trigger] out@[j]) == command_view(v@[j]),
        decreases v.len() - i,
    {
        let item = clone_command(&v[i]);
        out.push(item);
        i += 1;
    }
    assert(commands_view(out) =~= commands_view(*v));
    out
}

/// Copies a command with everything inside it.
pub fn clone_command(c: &SingleCommand) -> (res: SingleCommand)
    ensures
        res@ == c@,
    decreases c,
{
    match c {
        SingleCommand::ForLoop(l) => SingleCommand::ForLoop(
            ForLoop {
                index: l.index.clone(),
                start_value: l.start_value,
                condition: BoolExpression {
                    lhs: l.condition.lhs.clone(),
                    rhs: l.condition.rhs.clone(),
                    operation: l.condition.operation.clone(),
                },
                step: l.step,
                body: clone_commands(&l.body),
            },
        ),
        SingleCommand::Instruction(i) => SingleCommand::Instruction(
            Instruction { statement: clone_stmt(&i.statement), span: (i.span.0, i.span.1) },
        ),
        SingleCommand::DeclarationStatement(d) => SingleCommand::DeclarationStatement(
            copy_declaration(d),
        ),
    }
}

/// Copies a list of signals.
pub fn clone_signals(v: &Vec<Signal>) -> (res: Vec<Signal>)
    ensures
        signals_view(res) == signals_view(*v),
{
    let mut out: Vec<Signal> = Vec::new();
    let mut i: usize = 0;
    assert(signals_view(out) =~= signals_view(*v).subrange(0, 0));
    while i < v.len()
        invariant
            i <= v.len(),
            signals_view(out) == signals_view(*v).subrange(0, i as int),
        decreases v.len() - i,
    {
        let s = Signal {
            name: v[i].name.clone(),
            direction: v[i].direction,
            size_per_dimension: copy_strings(&v[i].size_per_dimension),
            expression: clone_stmt(&v[i].expression),
        };
        push_signal(&mut out, s);
        i += 1;
        assert(signals_view(out) =~= signals_view(*v).subrange(0, i as int));
    }
    assert(signals_view(*v).subrange(0, v.len() as int) =~= signals_view(*v));
    out
}

/// Copies a list of components.
pub fn clone_components(v: &Vec<Component>) -> (res: Vec<Component>)
    ensures
        components_view(res) == components_view(*v),
{
    let mut out: Vec<Component> = Vec::new();
    let mut i: usize = 0;
    assert(components_view(out) =~= components_view(*v).subrange(0, 0));
    while i < v.len()
        invariant
            i <= v.len(),
            components_view(out) == components_view(*v).subrange(0, i as int),
        decreases v.len() - i,
    {
        let c = Component {
            name: v[i].name.clone(),
            size_per_dimension: copy_strings(&v[i].size_per_dimension),
            template_to_use: v[i].template_to_use.clone(),
            arguments: copy_numbers(&v[i].arguments),
        };
        let ghost prev = components_view(out);
        out.push(c);
        assert(components_view(out) =~= prev.push(c@));
        i += 1;
        assert(components_view(out) =~= components_view(*v).subrange(0, i as int));
    }
    assert(components_view(*v).subrange(0, v.len() as int) =~= components_view(*v));
    out
}

/// Copies a list of constraints.
pub fn clone_constraints(v: &Vec<Expression>) -> (res: Vec<Expression>)
    ensures
        constraints_view(res) == constraints_view(*v),
{
    let mut out: Vec<Expression> = Vec::new();
    let mut i: usize = 0;
    assert(constraints_view(out) =~= constraints_view(*v).subrange(0, 0));
    while i < v.len()
        invariant
            i <= v.len(),
            constraints_view(out) == constraints_view(*v).subrange(0, i as int),
        decreases v.len() - i,
    {
        let e = Expression { content: v[i].content.clone() };
        let ghost prev = constraints_view(out);
        out.push(e);
        assert(constraints_view(out) =~= prev.push(e.content@));
        i += 1;
        assert(constraints_view(out) =~= constraints_view(*v).subrange(0, i as int));
    }
    assert(constraints_view(*v).subrange(0, v.len() as int) =~= constraints_view(*v));
    out
}

/// Copies a template with everything inside it.
pub fn clone_template(t: &Template) -> (res: Template)
    ensures
        res@ == t@,
{
    Template {
        name: t.name.clone(),
        params: copy_strings(&t.params),
        private_input_signals: clone_signals(&t.private_input_signals),
        output_signals: clone_signals(&t.output_signals),
        intermediate_signals: clone_signals(&t.intermediate_signals),
        components: clone_components(&t.components),
        constraints: clone_constraints(&t.constraints),
        instructions: clone_commands(&t.instructions),
        path: t.path.clone(),
    }
}

impl Clone for Instruction {
    fn clone(&self) -> (res: Self)
        ensures
            res.statement@ == self.statement@,
            res.span == self.span,
    {
        Instruction { statement: clone_stmt(&self.statement), span: (self.span.0, self.span.1) }
    }
}

impl Clone for SingleCommand {
    fn clone(&self) -> (res: Self)
        ensures
            res@ == self@,
    {
        clone_command(self)
    }
}

impl Clone for Template {
    fn clone(&self) -> (res: Self)
        ensures
            res@ == self@,
    {
        clone_template(self)
    }
}

} // verus!
