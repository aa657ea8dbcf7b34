//! What holds of every run of the interpreter, proved from the meaning of
//! the commands.

use vstd::prelude::*;
use crate::circuit::{ComponentView, DeclStatement, DeclType, ForLoop, SingleCommand, Template};
use crate::heap::{HeapView, bind, depend, descriptor, fresh_heap, with_child};
use crate::interpreter::{
    State, add_names, assign, awaits_run, bind_names, condition_holds, constrain, declare,
    entered, inputs_bound, run_component, run_list, run_loop, spend, step_command,
    step_statement, stepped, write_child,
};
use crate::expansion::{expand_names, resolve_dimensions};
use crate::parser::evaluator::{evaluation_of, key_of, resolved, stem_of};
use crate::parser::expression_parser::{EvaluationResultView, ExprView, StmtView, VariableView};
use crate::parser::text::strings_view;

verus! {

/// Whether the sub-components with a descriptor are the sub-components with
/// a heap.
pub open spec fn paired(h: HeapView) -> bool {
    h.components.dom() == h.heaps.dom()
}

/// Whether `after` can follow `before` in a run: no fuel was gained,
/// descriptors and heaps of sub-components still go together if they did,
/// a heap that was marked as run still is, and there is still one byte
/// range, present or absent, for each failure if there was.
pub open spec fn follows(before: State, after: State) -> bool {
    &&& after.run.fuel <= before.run.fuel
    &&& paired(before.heap) ==> paired(after.heap)
    &&& before.heap.executed ==> after.heap.executed
    &&& before.run.errors.len() == before.run.spans.len() ==> after.run.errors.len()
        == after.run.spans.len()
}

/// A declaration gains no fuel and keeps descriptors and heaps together.
pub proof fn lemma_declare_follows(d: DeclStatement, st: State)
    ensures
        follows(st, declare(d, st)),
{
    let after = declare(d, st);
    if paired(st.heap) {
        assert(after.heap.components.dom() =~= after.heap.heaps.dom());
    }
}

/// An assignment gains no fuel and keeps descriptors and heaps together.
pub proof fn lemma_assign_follows(
    target: VariableView,
    value: ExprView,
    span: Option<(usize, usize)>,
    st: State,
)
    ensures
        follows(st, assign(target, value, span, st)),
{
    let after = assign(target, value, span, st);
    if paired(st.heap) {
        assert(after.heap.components.dom() =~= after.heap.heaps.dom());
    }
}

/// A command gains no fuel and keeps descriptors and heaps together.
pub proof fn lemma_step_command_follows(cmd: SingleCommand, st: State, tm: Map<Seq<char>, Template>)
    ensures
        follows(st, step_command(cmd, st, tm)),
    decreases st.run.fuel, 0nat, 0nat,
{
    if !st.run.halted && st.run.fuel > 0 {
        let s1 = spend(st);
        match cmd {
            SingleCommand::ForLoop(l) => {
                lemma_run_loop_follows(
                    l,
                    l.start_value,
                    State { heap: bind(s1.heap, l.index@, l.start_value), run: s1.run },
                    tm,
                );
            },
            SingleCommand::Instruction(i) => {
                lemma_step_statement_follows(i.statement@, Some(i.span), s1, tm);
            },
            SingleCommand::DeclarationStatement(d) => {
                lemma_declare_follows(d, s1);
            },
        }
    }
}

/// A list of commands gains no fuel and keeps descriptors and heaps together.
pub proof fn lemma_run_list_follows(
    cmds: Seq<SingleCommand>,
    i: int,
    st: State,
    tm: Map<Seq<char>, Template>,
)
    ensures
        follows(st, run_list(cmds, i, st, tm)),
    decreases st.run.fuel, 1nat, cmds.len() - i,
{
    if !(i < 0 || i >= cmds.len() || st.run.halted) {
        lemma_step_command_follows(cmds[i], st, tm);
        let next = step_command(cmds[i], st, tm);
        lemma_run_list_follows(cmds, i + 1, next, tm);
    }
}

/// A loop gains no fuel and keeps descriptors and heaps together.
pub proof fn lemma_run_loop_follows(
    l: ForLoop,
    current: u32,
    st: State,
    tm: Map<Seq<char>, Template>,
)
    ensures
        follows(st, run_loop(l, current, st, tm)),
    decreases st.run.fuel, 2nat, 0nat,
{
    if !st.run.halted && condition_holds(l.condition, st.heap.values) && st.run.fuel > 0 {
        lemma_run_list_follows(l.body@, 0, spend(st), tm);
        let after = run_list(l.body@, 0, spend(st), tm);
        if !after.run.halted {
            let next = stepped(current, l.step);
            lemma_run_loop_follows(
                l,
                next,
                State { heap: bind(after.heap, l.index@, next), run: after.run },
                tm,
            );
        }
    }
}

/// The run of a component gains no fuel and keeps descriptors and heaps together.
pub proof fn lemma_run_component_follows(
    component: ComponentView,
    st: State,
    tm: Map<Seq<char>, Template>,
)
    ensures
        follows(st, run_component(component, st, tm)),
    decreases st.run.fuel, 2nat, 1nat,
{
    if !st.run.halted && tm.contains_key(component.template_to_use) {
        let t = tm[component.template_to_use];
        lemma_run_list_follows(
            t.instructions@,
            0,
            State { heap: entered(st.heap, t, component.arguments), run: st.run },
            tm,
        );
    }
}

/// A write into an instantiated sub-component gains no fuel and keeps
/// descriptors and heaps together.
pub proof fn lemma_write_child_follows(
    outer: Seq<char>,
    inner: Seq<char>,
    value: u32,
    st: State,
    tm: Map<Seq<char>, Template>,
)
    requires
        st.heap.heaps.contains_key(outer),
    ensures
        follows(st, write_child(outer, inner, value, st, tm)),
    decreases st.run.fuel, 3nat, 0nat,
{
    let component = st.heap.components[outer];
    let written = bind(st.heap.heaps[outer], inner, value);
    lemma_run_component_follows(component, State { heap: written, run: st.run }, tm);
    let after = write_child(outer, inner, value, st, tm);
    assert(after.heap.heaps.dom() =~= st.heap.heaps.dom());
}

/// A constraint gains no fuel and keeps descriptors and heaps together.
pub proof fn lemma_constrain_follows(
    target: VariableView,
    value: ExprView,
    span: Option<(usize, usize)>,
    st: State,
    tm: Map<Seq<char>, Template>,
)
    ensures
        follows(st, constrain(target, value, span, st, tm)),
    decreases st.run.fuel, 4nat, 0nat,
{
    let values = st.heap.values;
    let r = evaluation_of(value, values);
    let key = key_of(target, values);
    let noted = State { heap: depend(st.heap, key, r.1), run: st.run };
    if resolved(target, values) {
        match r.0 {
            EvaluationResultView::Value(v) => match target.sub_variable {
                None => {},
                Some(member) => {
                    let outer = stem_of(target, values);
                    if noted.heap.heaps.contains_key(outer) && noted.heap.components.contains_key(
                        outer,
                    ) {
                        lemma_write_child_follows(outer, stem_of(*member, values), v, noted, tm);
                    }
                },
            },
            _ => {},
        }
    }
}

/// A statement gains no fuel and keeps descriptors and heaps together.
pub proof fn lemma_step_statement_follows(
    stmt: StmtView,
    span: Option<(usize, usize)>,
    st: State,
    tm: Map<Seq<char>, Template>,
)
    ensures
        follows(st, step_statement(stmt, span, st, tm)),
    decreases st.run.fuel, 5nat, 0nat,
{
    match stmt {
        StmtView::Assign { target, value, assign_op } => {
            lemma_assign_follows(target, value, span, st);
        },
        StmtView::Constraint { target, value } => {
            lemma_constrain_follows(target, value, span, st, tm);
        },
        _ => {},
    }
}

/// A loop that ends without halting leaves no binding for its index: the
/// index exists only while the loop is executing.
pub proof fn lemma_loop_drops_index(
    l: ForLoop,
    current: u32,
    st: State,
    tm: Map<Seq<char>, Template>,
)
    ensures
        !run_loop(l, current, st, tm).run.halted ==> !run_loop(
            l,
            current,
            st,
            tm,
        ).heap.values.contains_key(l.index@),
    decreases st.run.fuel,
{
    if !st.run.halted && condition_holds(l.condition, st.heap.values) && st.run.fuel > 0 {
        lemma_run_list_follows(l.body@, 0, spend(st), tm);
        let after = run_list(l.body@, 0, spend(st), tm);
        if !after.run.halted {
            let next = stepped(current, l.step);
            lemma_loop_drops_index(
                l,
                next,
                State { heap: bind(after.heap, l.index@, next), run: after.run },
                tm,
            );
        }
    }
}

/// A loop command that ends without halting leaves no binding for its index.
pub proof fn lemma_for_loop_index_is_transient(
    l: ForLoop,
    st: State,
    tm: Map<Seq<char>, Template>,
)
    ensures
        !step_command(SingleCommand::ForLoop(l), st, tm).run.halted ==> !step_command(
            SingleCommand::ForLoop(l),
            st,
            tm,
        ).heap.values.contains_key(l.index@),
{
    if !st.run.halted && st.run.fuel > 0 {
        let s1 = spend(st);
        lemma_loop_drops_index(
            l,
            l.start_value,
            State { heap: bind(s1.heap, l.index@, l.start_value), run: s1.run },
            tm,
        );
    }
}

/// A halted run executes nothing.
pub proof fn lemma_halted_run_is_stuck(
    cmd: SingleCommand,
    cmds: Seq<SingleCommand>,
    l: ForLoop,
    component: ComponentView,
    current: u32,
    st: State,
    tm: Map<Seq<char>, Template>,
)
    requires
        st.run.halted,
    ensures
        step_command(cmd, st, tm) == st,
        run_list(cmds, 0, st, tm) == st,
        run_loop(l, current, st, tm) == st,
        run_component(component, st, tm) == st,
{
}

/// A write that leaves an input of the sub-component unbound does not run
/// it: the sub-component's heap gains the written value and nothing else,
/// and the run is as it was.
pub proof fn lemma_incomplete_inputs_do_not_trigger(
    outer: Seq<char>,
    inner: Seq<char>,
    value: u32,
    st: State,
    tm: Map<Seq<char>, Template>,
)
    requires
        !inputs_bound(
            tm[st.heap.components[outer].template_to_use],
            st.heap.components[outer].arguments,
            st.heap.heaps[outer].values.insert(inner, value),
        ),
    ensures
        write_child(outer, inner, value, st, tm) == (State {
            heap: with_child(st.heap, outer, bind(st.heap.heaps[outer], inner, value)),
            run: st.run,
        }),
{
}

/// A sub-component that has run is not run again: a write into it binds
/// the written value and nothing else.
pub proof fn lemma_sub_component_runs_at_most_once(
    outer: Seq<char>,
    inner: Seq<char>,
    value: u32,
    st: State,
    tm: Map<Seq<char>, Template>,
)
    requires
        st.heap.heaps[outer].executed,
    ensures
        write_child(outer, inner, value, st, tm) == (State {
            heap: with_child(st.heap, outer, bind(st.heap.heaps[outer], inner, value)),
            run: st.run,
        }),
{
}

/// The first write after which every input of a sub-component is bound
/// runs its instruction list, in the sub-component's heap with the value
/// written, and leaves the sub-component marked as run.
pub proof fn lemma_completing_write_runs_the_sub_component(
    outer: Seq<char>,
    inner: Seq<char>,
    value: u32,
    st: State,
    tm: Map<Seq<char>, Template>,
)
    requires
        !st.run.halted,
        awaits_run(st.heap.components[outer], bind(st.heap.heaps[outer], inner, value), tm),
    ensures
        ({
            let ran = run_component(
                st.heap.components[outer],
                State { heap: bind(st.heap.heaps[outer], inner, value), run: st.run },
                tm,
            );
            &&& write_child(outer, inner, value, st, tm) == (State {
                heap: with_child(st.heap, outer, ran.heap),
                run: ran.run,
            })
            &&& write_child(outer, inner, value, st, tm).heap.heaps[outer].executed
        }),
{
    let component = st.heap.components[outer];
    let written = bind(st.heap.heaps[outer], inner, value);
    let t = tm[component.template_to_use];
    lemma_run_list_follows(
        t.instructions@,
        0,
        State { heap: entered(written, t, component.arguments), run: st.run },
        tm,
    );
}

/// A key that is not concrete is never stored: a constraint or an
/// assignment whose target has an index that does not reduce to a value
/// leaves the heap as it was.
pub proof fn lemma_symbolic_key_is_never_stored(
    target: VariableView,
    value: ExprView,
    span: Option<(usize, usize)>,
    st: State,
    tm: Map<Seq<char>, Template>,
)
    requires
        !resolved(target, st.heap.values),
    ensures
        constrain(target, value, span, st, tm).heap == st.heap,
        assign(target, value, span, st).heap == st.heap,
{
}

/// A reference whose key is bound evaluates to the bound value, with the
/// key as its one dependency; the environment is an argument, so the same
/// reference evaluates the same every time.
pub proof fn lemma_bound_reference_value(v: VariableView, env: Map<Seq<char>, u32>)
    requires
        env.contains_key(key_of(v, env)),
    ensures
        evaluation_of(ExprView::ComplexVariable(v), env) == (
            EvaluationResultView::Value(env[key_of(v, env)]),
            seq![key_of(v, env)],
        ),
{
}

/// Adding names to a set adds exactly those names: a key is in the result
/// when it was in the set or is one of the first `n` names.
pub proof fn lemma_add_names_contains(
    set: Set<Seq<char>>,
    names: Seq<Seq<char>>,
    n: int,
    key: Seq<char>,
)
    requires
        0 <= n <= names.len(),
    ensures
        add_names(set, names, n).contains(key) <==> set.contains(key) || exists|i: int|
            0 <= i < n && names[i] == key,
    decreases n,
{
    if n > 0 {
        lemma_add_names_contains(set, names, n - 1, key);
        if names[n - 1] == key {
            assert(0 <= n - 1 < n && names[n - 1] == key);
        }
    }
}

/// Binding names to a value binds exactly those names: a key is bound in
/// the result when it was bound or is one of the first `n` names; it is bound
/// to the value when it is one of the names, and as before otherwise.
pub proof fn lemma_bind_names_binds(
    values: Map<Seq<char>, u32>,
    names: Seq<Seq<char>>,
    n: int,
    value: u32,
    key: Seq<char>,
)
    requires
        0 <= n <= names.len(),
    ensures
        bind_names(values, names, n, value).contains_key(key) <==> values.contains_key(key)
            || exists|i: int| 0 <= i < n && names[i] == key,
        (exists|i: int| 0 <= i < n && names[i] == key) ==> bind_names(values, names, n, value)[key]
            == value,
        !(exists|i: int| 0 <= i < n && names[i] == key) ==> bind_names(
            values,
            names,
            n,
            value,
        )[key] == values[key],
    decreases n,
{
    if n > 0 {
        lemma_bind_names_binds(values, names, n - 1, value, key);
        if names[n - 1] == key {
            assert(0 <= n - 1 < n && names[n - 1] == key);
        }
    }
}

/// A component declared without dimensions is instantiated at once: its
/// name is a declared component and has a descriptor and an empty heap that
/// has not run.
pub proof fn lemma_plain_component_is_instantiated(d: DeclStatement, st: State)
    requires
        d.decl_type == DeclType::Component,
        d.size_per_dimension@.len() == 0,
    ensures
        ({
            let after = declare(d, st).heap;
            let component = descriptor(d.name@, d.template_to_use@, d.arguments@);
            &&& after.component_set.contains(d.name@)
            &&& after.components.contains_key(d.name@)
            &&& after.components[d.name@] == component
            &&& after.heaps.contains_key(d.name@)
            &&& after.heaps[d.name@] == fresh_heap(component)
            &&& declare(d, st).run == st.run
        }),
{
    let dims = strings_view(d.size_per_dimension);
    assert(dims.len() == 0);
    let names = expand_names(d.name@, Seq::<u32>::empty());
    assert(names =~= seq![d.name@]);
    assert(resolve_dimensions(dims, st.heap.values, 0) == Ok::<
        Seq<u32>,
        Seq<char>,
    >(Seq::<u32>::empty()));
    assert(add_names(st.heap.component_set, names, 1) == add_names(
        st.heap.component_set,
        names,
        0,
    ).insert(names[0]));
}

} // verus!
