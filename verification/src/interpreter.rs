//! The heap interpreter: executes a template's instruction stream against a
//! tree of heaps.
//!
//! The meaning of every command is given by specification functions over the
//! models of the heap and of the run; the executable functions are proved to
//! compute them. A run has a budget of steps: each command and each loop
//! round spends one, and a run that has none left halts where it stands.

use vstd::prelude::*;
use vstd::string::*;
use crate::circuit::{
    BoolExpression, Component, ComponentView, DeclStatement, DeclType, ForLoop, Signal,
    SingleCommand, Template,
};
use crate::collections::{Entry, NameMap};
use crate::expansion::{expansion, get_actual_value_for_signals_components};
use crate::heap::{
    Heap, HeapView, bind, copy_component, depend, descriptor, instantiate, make_descriptor, unbind,
    with_child,
};
use crate::parser::evaluator;
use crate::parser::evaluator::{
    Environment, evaluation_of, get_string_from_variable, is_resolved, key_of, resolved, stem_of,
    stem_string,
};
use crate::parser::expression_parser::{
    EvaluationResult, EvaluationResultView, Expr, ExprView, Operator, Stmt, StmtView, Variable,
    VariableView,
};
use crate::parser::text::{
    chars_of, copy_numbers, copy_strings, is_white_space, is_white_space_exec, str_eq,
    strings_view,
};
use crate::run::{ExecError, ExecErrorView, Run, RunView};

verus! {

/// The heap and the bookkeeping of a run at one moment.
pub struct State {
    pub heap: HeapView,
    pub run: RunView,
}

/// `set` with the first `n` of `names` added.
pub open spec fn add_names(set: Set<Seq<char>>, names: Seq<Seq<char>>, n: int) -> Set<Seq<char>>
    decreases n,
{
    if n <= 0 || n > names.len() {
        set
    } else {
        add_names(set, names, n - 1).insert(names[n - 1])
    }
}

/// `values` with the first `n` of `names` bound to `value`.
pub open spec fn bind_names(
    values: Map<Seq<char>, u32>,
    names: Seq<Seq<char>>,
    n: int,
    value: u32,
) -> Map<Seq<char>, u32>
    decreases n,
{
    if n <= 0 || n > names.len() {
        values
    } else {
        bind_names(values, names, n - 1, value).insert(names[n - 1], value)
    }
}

/// `dependencies` with `deps` recorded for the first `n` of `names`.
pub open spec fn depend_names(
    dependencies: Map<Seq<char>, Seq<Seq<char>>>,
    names: Seq<Seq<char>>,
    n: int,
    deps: Seq<Seq<char>>,
) -> Map<Seq<char>, Seq<Seq<char>>>
    decreases n,
{
    if n <= 0 || n > names.len() {
        dependencies
    } else {
        depend_names(dependencies, names, n - 1, deps).insert(names[n - 1], deps)
    }
}

/// `values` with the first `n` formal parameters bound to their arguments,
/// in declaration order.
pub open spec fn bind_parameters(
    values: Map<Seq<char>, u32>,
    params: Seq<Seq<char>>,
    args: Seq<u32>,
    n: int,
) -> Map<Seq<char>, u32>
    decreases n,
{
    if n <= 0 || n > params.len() || n > args.len() {
        values
    } else {
        bind_parameters(values, params, args, n - 1).insert(params[n - 1], args[n - 1])
    }
}

/// `values` with every formal parameter that has an argument bound to it.
pub open spec fn bound_parameters(
    values: Map<Seq<char>, u32>,
    params: Seq<Seq<char>>,
    args: Seq<u32>,
) -> Map<Seq<char>, u32> {
    bind_parameters(
        values,
        params,
        args,
        if params.len() <= args.len() {
            params.len() as int
        } else {
            args.len() as int
        },
    )
}

/// The state with one more failure recorded, and with it the byte range
/// of the statement that failed, where the failure is one of a statement.
pub open spec fn failed(st: State, e: ExecErrorView, span: Option<(usize, usize)>) -> State {
    State {
        heap: st.heap,
        run: RunView {
            errors: st.run.errors.push(e),
            spans: st.run.spans.push(span),
            ..st.run
        },
    }
}

/// As many absent byte ranges as there are failures in `errors`.
pub open spec fn no_spans(errors: Seq<ExecErrorView>) -> Seq<Option<(usize, usize)>> {
    Seq::new(errors.len(), |i: int| None)
}

/// The state after one unit of fuel is spent.
pub open spec fn spend(st: State) -> State {
    State { heap: st.heap, run: RunView { fuel: (st.run.fuel - 1) as nat, ..st.run } }
}

/// The state of a run that halted for want of fuel.
pub open spec fn halt(st: State) -> State {
    State { heap: st.heap, run: RunView { halted: true, ..st.run } }
}

/// `s` without the white space at its start.
pub open spec fn trim_start(s: Seq<char>) -> Seq<char>
    decreases s.len(),
{
    if s.len() > 0 && is_white_space(s[0]) {
        trim_start(s.drop_first())
    } else {
        s
    }
}

/// `s` without the white space at its end.
pub open spec fn trim_end(s: Seq<char>) -> Seq<char>
    decreases s.len(),
{
    if s.len() > 0 && is_white_space(s.last()) {
        trim_end(s.drop_last())
    } else {
        s
    }
}

/// Whether `a` stands in the relation spelled by `operation` to `b`. White
/// space around the spelling is ignored; a spelling other than `<`, `<=`,
/// `>`, `>=` relates nothing.
pub open spec fn compare(operation: Seq<char>, a: u32, b: u32) -> bool {
    let op = trim_end(trim_start(operation));
    if op == "<"@ {
        a < b
    } else if op == "<="@ {
        a <= b
    } else if op == ">"@ {
        a > b
    } else if op == ">="@ {
        a >= b
    } else {
        false
    }
}

/// Whether a loop's boundary condition holds: both operands are bound names
/// and their values compare as the condition says.
pub open spec fn condition_holds(c: BoolExpression, values: Map<Seq<char>, u32>) -> bool {
    values.contains_key(c.lhs@) && values.contains_key(c.rhs@) && compare(
        c.operation@,
        values[c.lhs@],
        values[c.rhs@],
    )
}

/// The failures of a boundary condition: one for each operand that is not bound.
pub open spec fn condition_failures(c: BoolExpression, values: Map<Seq<char>, u32>) -> Seq<
    ExecErrorView,
> {
    let left = if values.contains_key(c.lhs@) {
        Seq::empty()
    } else {
        seq![ExecErrorView::UnboundReference(c.lhs@)]
    };
    let right = if values.contains_key(c.rhs@) {
        Seq::empty()
    } else {
        seq![ExecErrorView::UnboundReference(c.rhs@)]
    };
    left + right
}

/// The loop index after one step, wrapping at 32 bits.
pub open spec fn stepped(current: u32, step: i32) -> u32 {
    ((current + step) % 0x1_0000_0000) as u32
}

/// Whether all of `names` are bound in `values`.
pub open spec fn all_bound(names: Seq<Seq<char>>, values: Map<Seq<char>, u32>) -> bool {
    forall|i: int| 0 <= i < names.len() ==> values.contains_key(#[trigger] names[i])
}

/// Whether every concrete name of a declared signal is bound in `values`,
/// its dimensions being resolved in `scope`. A signal whose dimensions cannot
/// be resolved counts as not bound.
pub open spec fn signal_bound(
    signal: Signal,
    scope: Map<Seq<char>, u32>,
    values: Map<Seq<char>, u32>,
) -> bool {
    match expansion(strings_view(signal.size_per_dimension), signal.name@, scope) {
        Ok(names) => all_bound(names, values),
        Err(_) => false,
    }
}

/// Whether every dimension-expanded input signal of `template`, instantiated
/// with `args`, is bound in `values`.
pub open spec fn inputs_bound(template: Template, args: Seq<u32>, values: Map<Seq<char>, u32>)
    -> bool {
    let scope = bound_parameters(values, strings_view(template.params), args);
    forall|i: int|
        0 <= i < template.private_input_signals@.len() ==> signal_bound(
            #[trigger] template.private_input_signals@[i],
            scope,
            values,
        )
}

/// Whether an assignment operator is a plain assignment: `=`, `<--` or `-->`.
pub open spec fn is_plain_assignment(op: Operator) -> bool {
    op == Operator::Assignment || op == Operator::LeftSignalAssign || op
        == Operator::RightSignalAssign
}

/// The effect of an assignment. A target whose key is not concrete fails,
/// so that no symbolic key is ever stored. A value is bound under the
/// target's key. A template instantiation makes the target a sub-component:
/// its descriptor and an empty heap are registered under the target's key,
/// which is recorded as depending on what the resolved parameters read.
/// Anything else fails.
pub open spec fn assign(
    target: VariableView,
    value: ExprView,
    span: Option<(usize, usize)>,
    st: State,
) -> State {
    let key = key_of(target, st.heap.values);
    let r = evaluation_of(value, st.heap.values);
    if !resolved(target, st.heap.values) {
        failed(st, ExecErrorView::UnboundReference(key), span)
    } else {
        match r.0 {
            EvaluationResultView::Value(v) => State { heap: bind(st.heap, key, v), run: st.run },
            EvaluationResultView::ComponentInstance { name, parameter_list } => State {
                heap: depend(
                    instantiate(st.heap, key, descriptor(key, name, parameter_list)),
                    key,
                    r.1,
                ),
                run: st.run,
            },
            EvaluationResultView::Identifier(k) => failed(st, ExecErrorView::UnboundReference(k), span),
            EvaluationResultView::Empty => failed(st, ExecErrorView::Unevaluated(key), span),
        }
    }
}

/// The effect of a declaration. The declared names are the expansion of the
/// declaration's dimensions; a dimension that cannot be resolved fails the
/// declaration and declares nothing.
///
/// A signal or variable declaration registers its names as variables. A
/// variable declaration also binds them: to the value of its initializer,
/// recording what the initializer read, or to zero where it has none; an
/// initializer that does not reduce to a value fails and binds nothing.
///
/// A component declaration registers its names as components. One without
/// dimensions also instantiates the component.
pub open spec fn declare(d: DeclStatement, st: State) -> State {
    let values = st.heap.values;
    match expansion(strings_view(d.size_per_dimension), d.name@, values) {
        Err(dim) => failed(st, ExecErrorView::UnresolvedArrayDimension(dim), None),
        Ok(names) => {
            let n = names.len() as int;
            match d.decl_type {
                DeclType::Signal => State {
                    heap: HeapView {
                        variable_set: add_names(st.heap.variable_set, names, n),
                        ..st.heap
                    },
                    run: st.run,
                },
                DeclType::Variable => {
                    let declared = HeapView {
                        variable_set: add_names(st.heap.variable_set, names, n),
                        ..st.heap
                    };
                    match d.expression@ {
                        StmtView::RegularExpr(e) => {
                            let r = evaluation_of(e, values);
                            match r.0 {
                                EvaluationResultView::Value(v) => State {
                                    heap: HeapView {
                                        values: bind_names(values, names, n, v),
                                        dependencies: depend_names(
                                            st.heap.dependencies,
                                            names,
                                            n,
                                            r.1,
                                        ),
                                        ..declared
                                    },
                                    run: st.run,
                                },
                                EvaluationResultView::Identifier(k) => failed(
                                    State { heap: declared, run: st.run },
                                    ExecErrorView::UnboundReference(k),
                                    None,
                                ),
                                _ => failed(
                                    State { heap: declared, run: st.run },
                                    ExecErrorView::Unevaluated(d.name@),
                                    None,
                                ),
                            }
                        },
                        _ => State {
                            heap: HeapView { values: bind_names(values, names, n, 0), ..declared },
                            run: st.run,
                        },
                    }
                },
                DeclType::Component => {
                    let declared = HeapView {
                        component_set: add_names(st.heap.component_set, names, n),
                        ..st.heap
                    };
                    State {
                        heap: if d.size_per_dimension@.len() == 0 {
                            instantiate(
                                declared,
                                d.name@,
                                descriptor(d.name@, d.template_to_use@, d.arguments@),
                            )
                        } else {
                            declared
                        },
                        run: st.run,
                    }
                },
            }
        },
    }
}

/// The effect of one command. A halted run executes nothing; a run without
/// fuel halts; otherwise the command spends one unit of fuel and takes effect.
pub open spec fn step_command(cmd: SingleCommand, st: State, tm: Map<Seq<char>, Template>) -> State
    decreases st.run.fuel, 0nat, 0nat,
{
    if st.run.halted {
        st
    } else if st.run.fuel == 0 {
        halt(st)
    } else {
        let s1 = spend(st);
        match cmd {
            SingleCommand::ForLoop(l) => run_loop(
                l,
                l.start_value,
                State { heap: bind(s1.heap, l.index@, l.start_value), run: s1.run },
                tm,
            ),
            SingleCommand::Instruction(i) => step_statement(i.statement@, Some(i.span), s1, tm),
            SingleCommand::DeclarationStatement(d) => declare(d, s1),
        }
    }
}

/// The effect of the commands `cmds[i..]`, in order. A failure of one does
/// not stop the next; only a halt does.
pub open spec fn run_list(
    cmds: Seq<SingleCommand>,
    i: int,
    st: State,
    tm: Map<Seq<char>, Template>,
) -> State
    decreases st.run.fuel, 1nat, cmds.len() - i,
{
    if i < 0 || i >= cmds.len() || st.run.halted {
        st
    } else {
        let next = step_command(cmds[i], st, tm);
        if next.run.fuel <= st.run.fuel {
            run_list(cmds, i + 1, next, tm)
        } else {
            next
        }
    }
}

/// The rounds of a loop whose index is bound to `current`. While the
/// boundary condition holds, a round spends one unit of fuel, executes the
/// body in full and rebinds the index one step further. When the condition
/// fails, the binding of the index is removed, and an operand of the
/// condition that is not bound is reported.
pub open spec fn run_loop(l: ForLoop, current: u32, st: State, tm: Map<Seq<char>, Template>)
    -> State
    decreases st.run.fuel, 2nat, 0nat,
{
    if st.run.halted {
        st
    } else if !condition_holds(l.condition, st.heap.values) {
        State {
            heap: unbind(st.heap, l.index@),
            run: RunView {
                errors: st.run.errors + condition_failures(l.condition, st.heap.values),
                spans: st.run.spans + no_spans(condition_failures(l.condition, st.heap.values)),
                ..st.run
            },
        }
    } else if st.run.fuel == 0 {
        halt(st)
    } else {
        let after = run_list(l.body@, 0, spend(st), tm);
        if after.run.halted || after.run.fuel >= st.run.fuel {
            after
        } else {
            let next = stepped(current, l.step);
            run_loop(l, next, State { heap: bind(after.heap, l.index@, next), run: after.run }, tm)
        }
    }
}

/// The heap of a component at the start of its run: marked as run, with the
/// formal parameters of its template bound to its arguments.
pub open spec fn entered(h: HeapView, t: Template, args: Seq<u32>) -> HeapView {
    HeapView {
        values: bound_parameters(h.values, strings_view(t.params), args),
        executed: true,
        ..h
    }
}

/// The run of the instruction list of `component`'s template in `st.heap`,
/// the heap of that component: the heap is marked as run, the formal
/// parameters are bound to the component's arguments, then the instructions
/// are executed in order. A component of an unknown template runs nothing,
/// and neither does a halted run.
pub open spec fn run_component(component: ComponentView, st: State, tm: Map<Seq<char>, Template>)
    -> State
    decreases st.run.fuel, 2nat, 0nat,
{
    if st.run.halted || !tm.contains_key(component.template_to_use) {
        st
    } else {
        let t = tm[component.template_to_use];
        run_list(
            t.instructions@,
            0,
            State { heap: entered(st.heap, t, component.arguments), run: st.run },
            tm,
        )
    }
}

/// Whether a sub-component is due to run: its template is known, its
/// instruction list has not been run yet, and every one of its inputs is bound.
pub open spec fn awaits_run(
    component: ComponentView,
    child: HeapView,
    tm: Map<Seq<char>, Template>,
) -> bool {
    &&& tm.contains_key(component.template_to_use)
    &&& !child.executed
    &&& inputs_bound(tm[component.template_to_use], component.arguments, child.values)
}

/// The write of `value` to the signal `inner` of the sub-component `outer`:
/// the value is bound in the sub-component's heap, and if the sub-component
/// is then due to run, its instruction list is run at once.
pub open spec fn write_child(
    outer: Seq<char>,
    inner: Seq<char>,
    value: u32,
    st: State,
    tm: Map<Seq<char>, Template>,
) -> State
    decreases st.run.fuel, 3nat, 0nat,
{
    let component = st.heap.components[outer];
    let written = bind(st.heap.heaps[outer], inner, value);
    if awaits_run(component, written, tm) {
        let ran = run_component(component, State { heap: written, run: st.run }, tm);
        State { heap: with_child(st.heap, outer, ran.heap), run: ran.run }
    } else {
        State { heap: with_child(st.heap, outer, written), run: st.run }
    }
}

/// The effect of a constraint. A target whose key is not concrete fails, so
/// that no symbolic key is ever stored. Otherwise the target is recorded as
/// depending on what the value read. A value that does not reduce fails. A
/// target without a member is bound in this heap. A target with a member is
/// a signal of a sub-component: the value is written into the heap of the
/// sub-component named by the target without its member. Where no such
/// sub-component is instantiated, the targets named `inv` and `out` are bound
/// in this heap under their full key, and any other target fails.
pub open spec fn constrain(
    target: VariableView,
    value: ExprView,
    span: Option<(usize, usize)>,
    st: State,
    tm: Map<Seq<char>, Template>,
) -> State
    decreases st.run.fuel, 4nat, 0nat,
{
    let values = st.heap.values;
    let r = evaluation_of(value, values);
    let key = key_of(target, values);
    let noted = State { heap: depend(st.heap, key, r.1), run: st.run };
    if !resolved(target, values) {
        failed(st, ExecErrorView::UnboundReference(key), span)
    } else {
        match r.0 {
            EvaluationResultView::Value(v) => match target.sub_variable {
                None => State { heap: bind(noted.heap, key, v), run: noted.run },
                Some(member) => {
                    let outer = stem_of(target, values);
                    if noted.heap.heaps.contains_key(outer) && noted.heap.components.contains_key(
                        outer,
                    ) {
                        write_child(outer, stem_of(*member, values), v, noted, tm)
                    } else if target.id == "inv"@ || target.id == "out"@ {
                        State { heap: bind(noted.heap, key, v), run: noted.run }
                    } else {
                        failed(noted, ExecErrorView::UnboundReference(outer), span)
                    }
                },
            },
            EvaluationResultView::Identifier(k) => failed(
                noted,
                ExecErrorView::UnboundReference(k),
                span,
            ),
            _ => failed(noted, ExecErrorView::Unevaluated(key), span),
        }
    }
}

/// The effect of a statement. Assignments with `=`, `<--` or `-->` and
/// constraints take effect; an expression statement changes nothing; text
/// that was no statement and the kinds that are not executed fail.
pub open spec fn step_statement(
    stmt: StmtView,
    span: Option<(usize, usize)>,
    st: State,
    tm: Map<Seq<char>, Template>,
) -> State
    decreases st.run.fuel, 5nat, 0nat,
{
    match stmt {
        StmtView::Assign { target, value, assign_op } => if is_plain_assignment(assign_op) {
            assign(target, value, span, st)
        } else {
            failed(st, ExecErrorView::NotSupported, span)
        },
        StmtView::Constraint { target, value } => constrain(target, value, span, st, tm),
        StmtView::RegularExpr(_) => st,
        StmtView::Empty => failed(st, ExecErrorView::UnparseableStatement, span),
        _ => failed(st, ExecErrorView::NotSupported, span),
    }
}

/// `s` without the white space at its start and at its end.
pub fn trim_blanks(s: &str) -> (res: String)
    ensures
        res@ == trim_end(trim_start(s@)),
{
    let chars = chars_of(s);
    let n = chars.len();
    let mut start: usize = 0;
    assert(chars@.subrange(0, n as int) =~= chars@);
    while start < n && is_white_space_exec(chars[start])
        invariant
            start <= n,
            n == chars.len(),
            trim_start(chars@.subrange(start as int, n as int)) == trim_start(chars@),
        decreases n - start,
    {
        assert(chars@.subrange(start as int, n as int).drop_first() =~= chars@.subrange(
            start + 1,
            n as int,
        ));
        start += 1;
    }
    let ghost kept = chars@.subrange(start as int, n as int);
    assert(trim_start(kept) == kept);
    let mut end: usize = n;
    while end > start && is_white_space_exec(chars[end - 1])
        invariant
            start <= end <= n,
            n == chars.len(),
            kept == chars@.subrange(start as int, n as int),
            trim_end(chars@.subrange(start as int, end as int)) == trim_end(kept),
        decreases end - start,
    {
        assert(chars@.subrange(start as int, end as int).drop_last() =~= chars@.subrange(
            start as int,
            end - 1,
        ));
        end -= 1;
    }
    let ghost core = chars@.subrange(start as int, end as int);
    assert(trim_end(core) == core);
    String::from_str(s.substring_char(start, end))
}

/// Whether `a` stands in the relation spelled by `operation` to `b`.
pub fn compare_values(operation: &str, a: u32, b: u32) -> (res: bool)
    ensures
        res == compare(operation@, a, b),
{
    let op = trim_blanks(operation);
    if str_eq(op.as_str(), "<") {
        a < b
    } else if str_eq(op.as_str(), "<=") {
        a <= b
    } else if str_eq(op.as_str(), ">") {
        a > b
    } else if str_eq(op.as_str(), ">=") {
        a >= b
    } else {
        false
    }
}

/// Evaluates a loop's boundary condition: true exactly when both operands
/// are bound names and their values compare as the condition says. The map
/// is only read.
pub fn evaluate(bool_exp: &BoolExpression, variable_to_value_map: &mut Environment) -> (res: bool)
    ensures
        res == condition_holds(*bool_exp, old(variable_to_value_map)@),
        *final(variable_to_value_map) == *old(variable_to_value_map),
{
    let lhs_value = match variable_to_value_map.get(bool_exp.lhs.as_str()) {
        Some(v) => *v,
        None => {
            return false;
        },
    };
    let rhs_value = match variable_to_value_map.get(bool_exp.rhs.as_str()) {
        Some(v) => *v,
        None => {
            return false;
        },
    };
    compare_values(bool_exp.operation.as_str(), lhs_value, rhs_value)
}

/// Records a failure for each operand of the condition that is not bound.
fn report_condition(bool_exp: &BoolExpression, values: &Environment, run: &mut Run)
    ensures
        final(run)@ == (RunView {
            errors: old(run)@.errors + condition_failures(*bool_exp, values@),
            spans: old(run)@.spans + no_spans(condition_failures(*bool_exp, values@)),
            ..old(run)@
        }),
{
    if !values.contains_key(bool_exp.lhs.as_str()) {
        run.fail(ExecError::UnboundReference(bool_exp.lhs.clone()), None);
    }
    if !values.contains_key(bool_exp.rhs.as_str()) {
        run.fail(ExecError::UnboundReference(bool_exp.rhs.clone()), None);
    }
    assert(run@.errors =~= old(run)@.errors + condition_failures(*bool_exp, values@));
    assert(run@.spans =~= old(run)@.spans + no_spans(condition_failures(*bool_exp, values@)));
}

/// Copies an environment.
pub fn copy_environment(values: &Environment) -> (res: Environment)
    ensures
        res@ == values@,
{
    let mut entries: Vec<Entry<u32>> = Vec::new();
    let mut i: usize = 0;
    while i < values.entries.len()
        invariant
            i <= values.entries.len(),
            entries@ == values.entries@.subrange(0, i as int),
        decreases values.entries.len() - i,
    {
        entries.push(Entry { key: values.entries[i].key.clone(), value: values.entries[i].value });
        i += 1;
        assert(entries@ =~= values.entries@.subrange(0, i as int));
    }
    assert(values.entries@.subrange(0, values.entries.len() as int) =~= values.entries@);
    NameMap { entries }
}

/// Binds every formal parameter that has an argument to it.
pub fn bind_parameters_exec(values: &mut Environment, params: &Vec<String>, args: &Vec<u32>)
    ensures
        final(values)@ == bound_parameters(old(values)@, strings_view(*params), args@),
{
    let n = if params.len() <= args.len() {
        params.len()
    } else {
        args.len()
    };
    let mut i: usize = 0;
    while i < n
        invariant
            i <= n,
            n <= params.len(),
            n <= args.len(),
            values@ == bind_parameters(old(values)@, strings_view(*params), args@, i as int),
        decreases n - i,
    {
        values.insert(params[i].clone(), args[i]);
        i += 1;
    }
}

/// Whether all of `names` are bound in `values`.
fn all_bound_exec(names: &Vec<String>, values: &Environment) -> (res: bool)
    ensures
        res == all_bound(strings_view(*names), values@),
{
    let mut i: usize = 0;
    while i < names.len()
        invariant
            i <= names.len(),
            forall|j: int| 0 <= j < i ==> values@.contains_key(#[trigger] strings_view(*names)[j]),
        decreases names.len() - i,
    {
        if !values.contains_key(names[i].as_str()) {
            assert(strings_view(*names)[i as int] == names@[i as int]@);
            return false;
        }
        assert(strings_view(*names)[i as int] == names@[i as int]@);
        i += 1;
    }
    true
}

/// Whether every concrete name of a declared signal is bound in `values`.
fn signal_bound_exec(signal: &Signal, scope: &Environment, values: &Environment) -> (res: bool)
    ensures
        res == signal_bound(*signal, scope@, values@),
{
    match get_actual_value_for_signals_components(&signal.size_per_dimension, &signal.name, scope) {
        Ok(names) => all_bound_exec(&names, values),
        Err(_) => false,
    }
}

/// Whether every dimension-expanded input signal of `template`, instantiated
/// with `args`, is bound in `values`.
pub fn inputs_bound_exec(template: &Template, args: &Vec<u32>, values: &Environment) -> (res: bool)
    ensures
        res == inputs_bound(*template, args@, values@),
{
    let mut scope = copy_environment(values);
    bind_parameters_exec(&mut scope, &template.params, args);
    let mut i: usize = 0;
    while i < template.private_input_signals.len()
        invariant
            i <= template.private_input_signals.len(),
            scope@ == bound_parameters(values@, strings_view(template.params), args@),
            forall|j: int|
                0 <= j < i ==> signal_bound(
                    #[trigger] template.private_input_signals@[j],
                    scope@,
                    values@,
                ),
        decreases template.private_input_signals.len() - i,
    {
        if !signal_bound_exec(&template.private_input_signals[i], &scope, values) {
            return false;
        }
        i += 1;
    }
    true
}

/// Registers `names` as declared variables.
fn declare_variables(heap: &mut Heap, names: &Vec<String>)
    ensures
        final(heap)@ == (HeapView {
            variable_set: add_names(
                old(heap)@.variable_set,
                strings_view(*names),
                names.len() as int,
            ),
            ..old(heap)@
        }),
{
    let mut i: usize = 0;
    while i < names.len()
        invariant
            i <= names.len(),
            heap@ == (HeapView {
                variable_set: add_names(old(heap)@.variable_set, strings_view(*names), i as int),
                ..old(heap)@
            }),
        decreases names.len() - i,
    {
        assert(strings_view(*names)[i as int] == names@[i as int]@);
        heap.variable_set.insert(names[i].clone());
        i += 1;
    }
}

/// Registers `names` as declared components.
fn declare_components(heap: &mut Heap, names: &Vec<String>)
    ensures
        final(heap)@ == (HeapView {
            component_set: add_names(
                old(heap)@.component_set,
                strings_view(*names),
                names.len() as int,
            ),
            ..old(heap)@
        }),
{
    let mut i: usize = 0;
    while i < names.len()
        invariant
            i <= names.len(),
            heap@ == (HeapView {
                component_set: add_names(old(heap)@.component_set, strings_view(*names), i as int),
                ..old(heap)@
            }),
        decreases names.len() - i,
    {
        assert(strings_view(*names)[i as int] == names@[i as int]@);
        heap.component_set.insert(names[i].clone());
        i += 1;
    }
}

/// Binds each of `names` to `value`.
fn bind_each(heap: &mut Heap, names: &Vec<String>, value: u32)
    ensures
        final(heap)@ == (HeapView {
            values: bind_names(
                old(heap)@.values,
                strings_view(*names),
                names.len() as int,
                value,
            ),
            ..old(heap)@
        }),
{
    let mut i: usize = 0;
    while i < names.len()
        invariant
            i <= names.len(),
            heap@ == (HeapView {
                values: bind_names(old(heap)@.values, strings_view(*names), i as int, value),
                ..old(heap)@
            }),
        decreases names.len() - i,
    {
        assert(strings_view(*names)[i as int] == names@[i as int]@);
        heap.bind(names[i].clone(), value);
        i += 1;
    }
}

/// Records for each of `names` that its last write read `deps`.
fn depend_each(heap: &mut Heap, names: &Vec<String>, deps: &Vec<String>)
    ensures
        final(heap)@ == (HeapView {
            dependencies: depend_names(
                old(heap)@.dependencies,
                strings_view(*names),
                names.len() as int,
                strings_view(*deps),
            ),
            ..old(heap)@
        }),
{
    let mut i: usize = 0;
    while i < names.len()
        invariant
            i <= names.len(),
            heap@ == (HeapView {
                dependencies: depend_names(
                    old(heap)@.dependencies,
                    strings_view(*names),
                    i as int,
                    strings_view(*deps),
                ),
                ..old(heap)@
            }),
        decreases names.len() - i,
    {
        assert(strings_view(*names)[i as int] == names@[i as int]@);
        heap.depend(names[i].clone(), copy_strings(deps));
        i += 1;
    }
}

/// Executes a declaration.
pub fn declare_exec(d: &DeclStatement, heap: &mut Heap, run: &mut Run)
    ensures
        (State { heap: final(heap)@, run: final(run)@ }) == declare(
            *d,
            State { heap: old(heap)@, run: old(run)@ },
        ),
        final(run)@.fuel == old(run)@.fuel,
        final(run)@.halted == old(run)@.halted,
{
    let names = match get_actual_value_for_signals_components(
        &d.size_per_dimension,
        &d.name,
        &heap.variable_to_value_map,
    ) {
        Ok(names) => names,
        Err(e) => {
            run.fail(e, None);
            return;
        },
    };
    match d.decl_type {
        DeclType::Signal => {
            declare_variables(heap, &names);
        },
        DeclType::Variable => {
            match &d.expression {
                Stmt::RegularExpr(e) => {
                    let (result, deps) = evaluator::evaluate(e, &mut heap.variable_to_value_map);
                    declare_variables(heap, &names);
                    match result {
                        EvaluationResult::Value(v) => {
                            bind_each(heap, &names, v);
                            depend_each(heap, &names, &deps);
                        },
                        EvaluationResult::Identifier(k) => {
                            run.fail(ExecError::UnboundReference(k), None);
                        },
                        _ => {
                            run.fail(ExecError::Unevaluated(d.name.clone()), None);
                        },
                    }
                },
                _ => {
                    declare_variables(heap, &names);
                    bind_each(heap, &names, 0);
                },
            }
        },
        DeclType::Component => {
            declare_components(heap, &names);
            if d.size_per_dimension.len() == 0 {
                heap.instantiate(
                    d.name.clone(),
                    make_descriptor(
                        d.name.clone(),
                        d.template_to_use.clone(),
                        copy_numbers(&d.arguments),
                    ),
                );
            }
        },
    }
}

/// Executes an assignment.
pub fn assign_exec(
    target: &Variable,
    value: &Expr,
    span: Option<(usize, usize)>,
    heap: &mut Heap,
    run: &mut Run,
)
    ensures
        (State { heap: final(heap)@, run: final(run)@ }) == assign(
            target@,
            value@,
            span,
            State { heap: old(heap)@, run: old(run)@ },
        ),
        final(run)@.fuel == old(run)@.fuel,
        final(run)@.halted == old(run)@.halted,
{
    let key = get_string_from_variable(target, &mut heap.variable_to_value_map);
    if !is_resolved(target, &mut heap.variable_to_value_map) {
        run.fail(ExecError::UnboundReference(key), span);
        return;
    }
    let (result, deps) = evaluator::evaluate(value, &mut heap.variable_to_value_map);
    match result {
        EvaluationResult::Value(v) => {
            heap.bind(key, v);
        },
        EvaluationResult::ComponentInstance(instance) => {
            heap.instantiate(
                key.clone(),
                make_descriptor(key.clone(), instance.name, instance.parameter_list),
            );
            heap.depend(key, deps);
        },
        EvaluationResult::Identifier(k) => {
            run.fail(ExecError::UnboundReference(k), span);
        },
        EvaluationResult::Empty => {
            run.fail(ExecError::Unevaluated(key), span);
        },
    }
}

/// Executes one command of an instruction stream against `heap`. A halted
/// run executes nothing; a run without fuel halts; otherwise the command
/// spends one unit of fuel and takes effect. A failure of the command is
/// recorded in `run`; it does not stop the commands that follow.
pub fn execute(
    single_command: &SingleCommand,
    heap: &mut Heap,
    template_map: &NameMap<Template>,
    run: &mut Run,
)
    ensures
        (State { heap: final(heap)@, run: final(run)@ }) == step_command(
            *single_command,
            State { heap: old(heap)@, run: old(run)@ },
            template_map@,
        ),
        final(run)@.fuel <= old(run)@.fuel,
    decreases old(run).fuel, 0nat, 0nat,
{
    if run.halted {
        return;
    }
    if run.fuel == 0 {
        run.halted = true;
        return;
    }
    run.fuel = run.fuel - 1;
    match single_command {
        SingleCommand::ForLoop(for_loop) => {
            heap.bind(for_loop.index.clone(), for_loop.start_value);
            run_loop_exec(for_loop, for_loop.start_value, heap, template_map, run);
        },
        SingleCommand::Instruction(instruction) => {
            step_statement_exec(
                &instruction.statement,
                Some(instruction.span),
                heap,
                template_map,
                run,
            );
        },
        SingleCommand::DeclarationStatement(decl_statement) => {
            declare_exec(decl_statement, heap, run);
        },
    }
}

/// Executes a list of commands in order. A failure of one does not stop the
/// next; only a halt does.
pub fn run_list_exec(
    commands: &Vec<SingleCommand>,
    heap: &mut Heap,
    template_map: &NameMap<Template>,
    run: &mut Run,
)
    ensures
        (State { heap: final(heap)@, run: final(run)@ }) == run_list(
            commands@,
            0,
            State { heap: old(heap)@, run: old(run)@ },
            template_map@,
        ),
        final(run)@.fuel <= old(run)@.fuel,
    decreases old(run).fuel, 1nat, commands@.len(),
{
    let mut i: usize = 0;
    while i < commands.len()
        invariant
            i <= commands.len(),
            run@.fuel <= old(run)@.fuel,
            run_list(commands@, i as int, State { heap: heap@, run: run@ }, template_map@)
                == run_list(
                commands@,
                0,
                State { heap: old(heap)@, run: old(run)@ },
                template_map@,
            ),
        decreases commands.len() - i,
    {
        if run.halted {
            return;
        }
        execute(&commands[i], heap, template_map, run);
        i += 1;
    }
}

/// Executes the rounds of a loop whose index is bound to `current`.
fn run_loop_exec(
    for_loop: &ForLoop,
    current: u32,
    heap: &mut Heap,
    template_map: &NameMap<Template>,
    run: &mut Run,
)
    ensures
        (State { heap: final(heap)@, run: final(run)@ }) == run_loop(
            *for_loop,
            current,
            State { heap: old(heap)@, run: old(run)@ },
            template_map@,
        ),
        final(run)@.fuel <= old(run)@.fuel,
    decreases old(run).fuel, 2nat, 0nat,
{
    let mut value = current;
    loop
        invariant
            run@.fuel <= old(run)@.fuel,
            run_loop(*for_loop, value, State { heap: heap@, run: run@ }, template_map@)
                == run_loop(
                *for_loop,
                current,
                State { heap: old(heap)@, run: old(run)@ },
                template_map@,
            ),
        decreases run.fuel,
    {
        if run.halted {
            return;
        }
        if !evaluate(&for_loop.condition, &mut heap.variable_to_value_map) {
            report_condition(&for_loop.condition, &heap.variable_to_value_map, run);
            heap.unbind(for_loop.index.as_str());
            return;
        }
        if run.fuel == 0 {
            run.halted = true;
            return;
        }
        run.fuel = run.fuel - 1;
        run_list_exec(&for_loop.body, heap, template_map, run);
        if run.halted {
            return;
        }
        value = value.wrapping_add_signed(for_loop.step);
        heap.bind(for_loop.index.clone(), value);
    }
}

/// Runs the instruction list of `component`'s template in `heap`, the heap
/// of that component: the heap is marked as run, the formal parameters are
/// bound to the component's arguments, in declaration order, then the
/// instructions are executed in order. A component of an unknown template
/// runs nothing, and neither does a halted run.
pub fn execute_component(
    component: &Component,
    heap: &mut Heap,
    template_map: &NameMap<Template>,
    run: &mut Run,
)
    ensures
        (State { heap: final(heap)@, run: final(run)@ }) == run_component(
            component@,
            State { heap: old(heap)@, run: old(run)@ },
            template_map@,
        ),
        final(run)@.fuel <= old(run)@.fuel,
    decreases old(run).fuel, 2nat, 0nat,
{
    if run.halted {
        return;
    }
    match template_map.get(component.template_to_use.as_str()) {
        Some(template) => {
            heap.executed = true;
            bind_parameters_exec(
                &mut heap.variable_to_value_map,
                &template.params,
                &component.arguments,
            );
            run_list_exec(&template.instructions, heap, template_map, run);
        },
        None => {},
    }
}

/// Whether a sub-component is due to run.
fn awaits_run_exec(component: &Component, child: &Heap, template_map: &NameMap<Template>) -> (res:
    bool)
    ensures
        res == awaits_run(component@, child@, template_map@),
{
    match template_map.get(component.template_to_use.as_str()) {
        Some(template) => !child.executed && inputs_bound_exec(
            template,
            &component.arguments,
            &child.variable_to_value_map,
        ),
        None => false,
    }
}

/// Writes `value` to the signal `inner` of the instantiated sub-component
/// `outer`, and runs the sub-component if it is then due to run.
fn write_child_exec(
    outer: String,
    inner: String,
    value: u32,
    heap: &mut Heap,
    template_map: &NameMap<Template>,
    run: &mut Run,
)
    requires
        old(heap)@.heaps.contains_key(outer@),
        old(heap)@.components.contains_key(outer@),
    ensures
        (State { heap: final(heap)@, run: final(run)@ }) == write_child(
            outer@,
            inner@,
            value,
            State { heap: old(heap)@, run: old(run)@ },
            template_map@,
        ),
        final(run)@.fuel <= old(run)@.fuel,
    decreases old(run).fuel, 3nat, 0nat,
{
    let component = match heap.component(outer.as_str()) {
        Some(c) => copy_component(c),
        None => {
            return;
        },
    };
    let mut child = match heap.take_child(outer.as_str()) {
        Some(c) => c,
        None => {
            return;
        },
    };
    child.bind(inner, value);
    if awaits_run_exec(&component, &child, template_map) {
        execute_component(&component, &mut child, template_map, run);
    }
    let ghost taken = heap@.heaps;
    heap.put_child(outer, child);
    proof {
        let m1 = taken.insert(outer@, child@);
        let m2 = old(heap)@.heaps.insert(outer@, child@);
        assert forall|k: Seq<char>|
            (#[trigger] m1.contains_key(k) <==> m2.contains_key(k)) && (m1.contains_key(k)
                ==> m1[k] == m2[k]) by {
            if k != outer@ {
                assert(taken.remove(outer@).contains_key(k) <==> old(heap)@.heaps.remove(
                    outer@,
                ).contains_key(k));
                if taken.contains_key(k) {
                    assert(taken.remove(outer@)[k] == old(heap)@.heaps.remove(outer@)[k]);
                }
            }
        }
        assert(m1 =~= m2);
    }
}

/// Executes a constraint.
fn constrain_exec(
    target: &Variable,
    value: &Expr,
    span: Option<(usize, usize)>,
    heap: &mut Heap,
    template_map: &NameMap<Template>,
    run: &mut Run,
)
    ensures
        (State { heap: final(heap)@, run: final(run)@ }) == constrain(
            target@,
            value@,
            span,
            State { heap: old(heap)@, run: old(run)@ },
            template_map@,
        ),
        final(run)@.fuel <= old(run)@.fuel,
    decreases old(run).fuel, 4nat, 0nat,
{
    let (result, deps) = evaluator::evaluate(value, &mut heap.variable_to_value_map);
    let key = get_string_from_variable(target, &mut heap.variable_to_value_map);
    if !is_resolved(target, &mut heap.variable_to_value_map) {
        run.fail(ExecError::UnboundReference(key), span);
        return;
    }
    heap.depend(key.clone(), deps);
    match result {
        EvaluationResult::Value(v) => {
            match &target.sub_variable {
                None => {
                    heap.bind(key, v);
                },
                Some(member) => {
                    let outer = stem_string(target, &mut heap.variable_to_value_map);
                    let known = heap.child(outer.as_str()).is_some() && heap.component(
                        outer.as_str(),
                    ).is_some();
                    if known {
                        let inner = stem_string(&**member, &mut heap.variable_to_value_map);
                        write_child_exec(outer, inner, v, heap, template_map, run);
                    } else if str_eq(target.id.as_str(), "inv") || str_eq(
                        target.id.as_str(),
                        "out",
                    ) {
                        heap.bind(key, v);
                    } else {
                        run.fail(ExecError::UnboundReference(outer), span);
                    }
                },
            }
        },
        EvaluationResult::Identifier(k) => {
            run.fail(ExecError::UnboundReference(k), span);
        },
        _ => {
            run.fail(ExecError::Unevaluated(key), span);
        },
    }
}

/// Executes a statement.
fn step_statement_exec(
    statement: &Stmt,
    span: Option<(usize, usize)>,
    heap: &mut Heap,
    template_map: &NameMap<Template>,
    run: &mut Run,
)
    ensures
        (State { heap: final(heap)@, run: final(run)@ }) == step_statement(
            statement@,
            span,
            State { heap: old(heap)@, run: old(run)@ },
            template_map@,
        ),
        final(run)@.fuel <= old(run)@.fuel,
    decreases old(run).fuel, 5nat, 0nat,
{
    match statement {
        Stmt::Assign(assign) => {
            match assign.assign_op {
                Operator::Assignment | Operator::LeftSignalAssign | Operator::RightSignalAssign => {
                    assign_exec(&assign.target, &assign.value, span, heap, run);
                },
                _ => {
                    run.fail(ExecError::NotSupported, span);
                },
            }
        },
        Stmt::Constraint(constraint) => {
            constrain_exec(&constraint.target, &constraint.value, span, heap, template_map, run);
        },
        Stmt::RegularExpr(_) => {},
        Stmt::Empty => {
            run.fail(ExecError::UnparseableStatement, span);
        },
        _ => {
            run.fail(ExecError::NotSupported, span);
        },
    }
}

} // verus!
