//! The run of a multiplier: a template whose instructions constrain a
//! signal to the product of its inputs, one product at a time.

use vstd::prelude::*;
use crate::circuit::{ComponentView, SingleCommand, Template};
use crate::heap::{HeapView, bind, depend};
use crate::interpreter::{
    State, bind_parameters, bound_parameters, constrain, entered, run_component, run_list, spend,
    step_command, step_statement,
};
use crate::parser::evaluator::{
    arithmetic, evaluation_of, indexes_text, key_of, member_text, resolved,
};
use crate::parser::expression_parser::{
    BinOp, EvaluationResultView, ExprView, StmtView, plain_variable,
};
use crate::parser::text::strings_view;

verus! {

/// The product of two values, wrapping at 32 bits.
pub open spec fn product(a: u32, b: u32) -> u32 {
    ((a * b) % 0x1_0000_0000) as u32
}

/// The reference to the plain name `name`.
pub open spec fn name_of(name: Seq<char>) -> ExprView {
    ExprView::ComplexVariable(plain_variable(name))
}

/// Whether `cmd` is the constraint `target <== left * right` between plain names.
pub open spec fn is_product_constraint(
    cmd: SingleCommand,
    target: Seq<char>,
    left: Seq<char>,
    right: Seq<char>,
) -> bool {
    match cmd {
        SingleCommand::Instruction(i) => i.statement@ == (StmtView::Constraint {
            target: plain_variable(target),
            value: ExprView::BinaryOperation {
                left: Box::new(name_of(left)),
                op: BinOp::Multiply,
                right: Box::new(name_of(right)),
            },
        }),
        _ => false,
    }
}

/// The state after the constraint `target <== left * right` between bound
/// plain names: one unit of fuel less, the target bound to the product and
/// recorded as depending on the two names.
pub open spec fn after_product(st: State, target: Seq<char>, left: Seq<char>, right: Seq<char>)
    -> State {
    State {
        heap: bind(
            depend(st.heap, target, seq![left, right]),
            target,
            product(st.heap.values[left], st.heap.values[right]),
        ),
        run: spend(st).run,
    }
}

/// Whether the instructions of `t` are those of a four-input multiplier:
/// `first <== in1 * in2`, `second <== first * in3`, `out <== second * in4`.
pub open spec fn is_multiplier4(
    t: Template,
    in1: Seq<char>,
    in2: Seq<char>,
    in3: Seq<char>,
    in4: Seq<char>,
    first: Seq<char>,
    second: Seq<char>,
    out: Seq<char>,
) -> bool {
    &&& t.params@.len() == 0
    &&& t.instructions@.len() == 3
    &&& is_product_constraint(t.instructions@[0], first, in1, in2)
    &&& is_product_constraint(t.instructions@[1], second, first, in3)
    &&& is_product_constraint(t.instructions@[2], out, second, in4)
}

/// The key of a plain name is the name.
pub proof fn lemma_plain_key(name: Seq<char>, env: Map<Seq<char>, u32>)
    ensures
        key_of(plain_variable(name), env) == name,
        resolved(plain_variable(name), env),
{
    let v = plain_variable(name);
    assert(indexes_text(v.indexing, env, 0) =~= Seq::<char>::empty());
    assert(member_text(v.sub_variable, env) =~= Seq::<char>::empty());
    assert(key_of(v, env) =~= name);
}

/// A constraint of a plain name to the product of two bound plain names
/// binds the name to the product, wrapping at 32 bits, records the two
/// names as its dependencies, and changes nothing else.
pub proof fn lemma_product_constraint(
    cmd: SingleCommand,
    target: Seq<char>,
    left: Seq<char>,
    right: Seq<char>,
    st: State,
    tm: Map<Seq<char>, Template>,
)
    requires
        is_product_constraint(cmd, target, left, right),
        !st.run.halted,
        st.run.fuel > 0,
        st.heap.values.contains_key(left),
        st.heap.values.contains_key(right),
    ensures
        step_command(cmd, st, tm) == after_product(st, target, left, right),
{
    let s1 = spend(st);
    let values = s1.heap.values;
    lemma_plain_key(target, values);
    lemma_plain_key(left, values);
    lemma_plain_key(right, values);
    let value = ExprView::BinaryOperation {
        left: Box::new(name_of(left)),
        op: BinOp::Multiply,
        right: Box::new(name_of(right)),
    };
    assert(evaluation_of(name_of(left), values) == (
        EvaluationResultView::Value(values[left]),
        seq![left],
    ));
    assert(evaluation_of(name_of(right), values) == (
        EvaluationResultView::Value(values[right]),
        seq![right],
    ));
    assert(arithmetic(BinOp::Multiply, values[left], values[right]) == Some(
        product(values[left], values[right]),
    ));
    assert(seq![left] + seq![right] =~= seq![left, right]);
    assert(evaluation_of(value, values) == (
        EvaluationResultView::Value(product(values[left], values[right])),
        seq![left, right],
    ));
    let span = Some(cmd->Instruction_0.span);
    assert(constrain(plain_variable(target), value, span, s1, tm) == after_product(
        st,
        target,
        left,
        right,
    ));
}

/// The run of a four-input multiplier in a heap that binds its four
/// inputs, with fuel for its three instructions: the output is bound to the
/// product of the four inputs, taken one product at a time, and the run has
/// not halted. Inputs that are not written by the multiplier keep their values.
pub proof fn lemma_multiplier4(
    component: ComponentView,
    st: State,
    tm: Map<Seq<char>, Template>,
    in1: Seq<char>,
    in2: Seq<char>,
    in3: Seq<char>,
    in4: Seq<char>,
    first: Seq<char>,
    second: Seq<char>,
    out: Seq<char>,
)
    requires
        tm.contains_key(component.template_to_use),
        is_multiplier4(tm[component.template_to_use], in1, in2, in3, in4, first, second, out),
        !st.run.halted,
        st.run.fuel >= 3,
        st.heap.values.contains_key(in1),
        st.heap.values.contains_key(in2),
        st.heap.values.contains_key(in3),
        st.heap.values.contains_key(in4),
        in3 != first,
        in4 != first,
        in4 != second,
    ensures
        ({
            let end = run_component(component, st, tm);
            let v = st.heap.values;
            &&& !end.run.halted
            &&& end.run.fuel == st.run.fuel - 3
            &&& end.run.errors == st.run.errors
            &&& end.heap.values.contains_key(out)
            &&& end.heap.values[out] == product(
                product(product(v[in1], v[in2]), v[in3]),
                v[in4],
            )
            &&& forall|k: Seq<char>|
                k != first && k != second && k != out && v.contains_key(k)
                    ==> end.heap.values.contains_key(k) && end.heap.values[k] == v[k]
        }),
{
    let t = tm[component.template_to_use];
    let cmds = t.instructions@;
    assert(bind_parameters(st.heap.values, strings_view(t.params), component.arguments, 0)
        == st.heap.values);
    assert(bound_parameters(st.heap.values, strings_view(t.params), component.arguments)
        == st.heap.values);
    let s0 = State { heap: entered(st.heap, t, component.arguments), run: st.run };
    assert(s0.heap.values == st.heap.values);
    lemma_product_constraint(cmds[0], first, in1, in2, s0, tm);
    let s1 = after_product(s0, first, in1, in2);
    lemma_product_constraint(cmds[1], second, first, in3, s1, tm);
    let s2 = after_product(s1, second, first, in3);
    lemma_product_constraint(cmds[2], out, second, in4, s2, tm);
    let s3 = after_product(s2, out, second, in4);
    assert(run_list(cmds, 3, s3, tm) == s3);
    assert(run_list(cmds, 2, s2, tm) == s3);
    assert(run_list(cmds, 1, s1, tm) == s3);
    assert(run_list(cmds, 0, s0, tm) == s3);
    assert(run_component(component, st, tm) == s3);
}

/// The four-input multiplier with the inputs 3, 1, 7 and 1 yields 21, and
/// the inputs keep their values.
pub proof fn lemma_multiplier4_yields_21(
    component: ComponentView,
    st: State,
    tm: Map<Seq<char>, Template>,
    in1: Seq<char>,
    in2: Seq<char>,
    in3: Seq<char>,
    in4: Seq<char>,
    first: Seq<char>,
    second: Seq<char>,
    out: Seq<char>,
)
    requires
        tm.contains_key(component.template_to_use),
        is_multiplier4(tm[component.template_to_use], in1, in2, in3, in4, first, second, out),
        !st.run.halted,
        st.run.fuel >= 3,
        st.heap.values.contains_key(in1) && st.heap.values[in1] == 3,
        st.heap.values.contains_key(in2) && st.heap.values[in2] == 1,
        st.heap.values.contains_key(in3) && st.heap.values[in3] == 7,
        st.heap.values.contains_key(in4) && st.heap.values[in4] == 1,
        in1 != first && in1 != second && in1 != out,
        in2 != first && in2 != second && in2 != out,
        in3 != first && in3 != second && in3 != out,
        in4 != first && in4 != second && in4 != out,
    ensures
        ({
            let end = run_component(component, st, tm).heap.values;
            &&& end.contains_key(out) && end[out] == 21
            &&& end.contains_key(in1) && end[in1] == 3
            &&& end.contains_key(in2) && end[in2] == 1
            &&& end.contains_key(in3) && end[in3] == 7
            &&& end.contains_key(in4) && end[in4] == 1
        }),
{
    lemma_multiplier4(component, st, tm, in1, in2, in3, in4, first, second, out);
    assert(product(3, 1) == 3);
    assert(product(3, 7) == 21);
    assert(product(21, 1) == 21);
}

} // verus!
