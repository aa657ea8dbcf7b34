//! Reduction of expressions against an environment, and the resolution of a
//! variable reference to the concrete key under which its value is stored.

use vstd::prelude::*;
use vstd::string::*;
use crate::collections::NameMap;
use crate::parser::expression_parser::{
    BinOp, EvaluatedComponentInstance, EvaluationResult, EvaluationResultView, Expr, ExprView,
    Variable, VariableView, expr_view, exprs_view, variable_view,
};
use crate::parser::text::{decimal, decimal_string, extend_strings, strings_view};

verus! {

/// The values bound to concrete keys.
pub type Environment = NameMap<u32>;

/// `text` between square brackets.
pub open spec fn bracketed(text: Seq<char>) -> Seq<char> {
    seq!['['] + text + seq![']']
}

/// What two values combine to under an arithmetic operator. Addition,
/// subtraction and multiplication wrap at 32 bits; division by zero and the
/// operators that are not evaluated give nothing.
pub open spec fn arithmetic(op: BinOp, a: u32, b: u32) -> Option<u32> {
    match op {
        BinOp::Add => Some(((a + b) % 0x1_0000_0000) as u32),
        BinOp::Subtract => Some(((a - b) % 0x1_0000_0000) as u32),
        BinOp::Multiply => Some(((a * b) % 0x1_0000_0000) as u32),
        BinOp::Divide => if b == 0 {
            None
        } else {
            Some(a / b)
        },
        _ => None,
    }
}

/// The text that one index expression adds to a key: `[value]` where it
/// reduces to a value, `[name]` where it is an unbound name, nothing otherwise.
pub open spec fn index_text(e: ExprView, env: Map<Seq<char>, u32>) -> Seq<char>
    decreases e, 1nat,
{
    match evaluation_of(e, env).0 {
        EvaluationResultView::Value(n) => bracketed(decimal(n as nat)),
        EvaluationResultView::Identifier(name) => bracketed(name),
        _ => Seq::empty(),
    }
}

/// The text that the first `n` index expressions add to a key.
pub open spec fn indexes_text(indexing: Seq<ExprView>, env: Map<Seq<char>, u32>, n: int) -> Seq<
    char,
>
    decreases indexing, n,
{
    if n <= 0 || n > indexing.len() {
        Seq::empty()
    } else {
        indexes_text(indexing, env, n - 1) + index_text(indexing[n - 1], env)
    }
}

/// The text that a member access adds to a key: a dot, the member's name and
/// its resolved indexes.
pub open spec fn member_text(sub: Option<Box<VariableView>>, env: Map<Seq<char>, u32>) -> Seq<
    char,
>
    decreases sub, 0nat,
{
    match sub {
        Some(m) => seq!['.'] + m.id + indexes_text(m.indexing, env, m.indexing.len() as int),
        None => Seq::empty(),
    }
}

/// The key of a variable reference without its member: its name, then each
/// index resolved against the environment.
pub open spec fn stem_of(v: VariableView, env: Map<Seq<char>, u32>) -> Seq<char> {
    v.id + indexes_text(v.indexing, env, v.indexing.len() as int)
}

/// The concrete storage key of a variable reference: its name, then each
/// index resolved against the environment, then its member, if any.
pub open spec fn key_of(v: VariableView, env: Map<Seq<char>, u32>) -> Seq<char>
    decreases v, 0nat,
{
    v.id + indexes_text(v.indexing, env, v.indexing.len() as int) + member_text(
        v.sub_variable,
        env,
    )
}

/// The values of those among the first `n` parameters that reduce to values.
pub open spec fn resolved_values(params: Seq<ExprView>, env: Map<Seq<char>, u32>, n: int) -> Seq<
    u32,
>
    decreases params, n,
{
    if n <= 0 || n > params.len() {
        Seq::empty()
    } else {
        match evaluation_of(params[n - 1], env).0 {
            EvaluationResultView::Value(x) => resolved_values(params, env, n - 1).push(x),
            _ => resolved_values(params, env, n - 1),
        }
    }
}

/// The keys read by those among the first `n` parameters that reduce to values.
pub open spec fn resolved_dependencies(
    params: Seq<ExprView>,
    env: Map<Seq<char>, u32>,
    n: int,
) -> Seq<Seq<char>>
    decreases params, n,
{
    if n <= 0 || n > params.len() {
        Seq::empty()
    } else {
        let r = evaluation_of(params[n - 1], env);
        match r.0 {
            EvaluationResultView::Value(_) => resolved_dependencies(params, env, n - 1) + r.1,
            _ => resolved_dependencies(params, env, n - 1),
        }
    }
}

/// What an expression reduces to in an environment, and the keys it read.
///
/// A number is its value. A variable reference is the value bound to its
/// key, or the key itself as an unresolved name; the key is its one
/// dependency either way. A template instantiation is its resolved name with
/// the parameters that reduce to values, depending on what those parameters
/// read. An arithmetic node is a value only when both sides are values and
/// the operator is evaluated; it then depends on what both sides read.
/// Everything else is empty.
pub open spec fn evaluation_of(e: ExprView, env: Map<Seq<char>, u32>) -> (
    EvaluationResultView,
    Seq<Seq<char>>,
)
    decreases e, 0nat,
{
    match e {
        ExprView::Number(n) => (EvaluationResultView::Value(n), Seq::empty()),
        ExprView::ComplexVariable(v) => {
            let key = key_of(v, env);
            if env.contains_key(key) {
                (EvaluationResultView::Value(env[key]), seq![key])
            } else {
                (EvaluationResultView::Identifier(key), seq![key])
            }
        },
        ExprView::ComponentInstance { name, parameter_list } => (
            EvaluationResultView::ComponentInstance {
                name: key_of(name, env),
                parameter_list: resolved_values(parameter_list, env, parameter_list.len() as int),
            },
            resolved_dependencies(parameter_list, env, parameter_list.len() as int),
        ),
        ExprView::BinaryOperation { left, op, right } => {
            let l = evaluation_of(*left, env);
            let r = evaluation_of(*right, env);
            match (l.0, r.0) {
                (EvaluationResultView::Value(a), EvaluationResultView::Value(b)) => match arithmetic(
                    op,
                    a,
                    b,
                ) {
                    Some(value) => (EvaluationResultView::Value(value), l.1 + r.1),
                    None => (EvaluationResultView::Empty, Seq::empty()),
                },
                _ => (EvaluationResultView::Empty, Seq::empty()),
            }
        },
        _ => (EvaluationResultView::Empty, Seq::empty()),
    }
}

/// Whether every one of the index expressions reduces to a value.
pub open spec fn indexes_resolved(indexing: Seq<ExprView>, env: Map<Seq<char>, u32>) -> bool {
    forall|i: int|
        0 <= i < indexing.len() ==> evaluation_of(
            #[trigger] indexing[i],
            env,
        ).0 is Value
}

/// Whether the key of a variable reference is concrete: every index, of the
/// variable and of its member, reduces to a value.
pub open spec fn resolved(v: VariableView, env: Map<Seq<char>, u32>) -> bool {
    indexes_resolved(v.indexing, env) && match v.sub_variable {
        Some(m) => indexes_resolved(m.indexing, env),
        None => true,
    }
}

/// Types that resolve to a concrete storage key in an environment.
pub trait Serializable {
    /// The key of `self` in `heap`.
    fn serialize(&self, heap: &mut Environment) -> String;
}

/// Combines two values under an arithmetic operator.
pub fn apply_arithmetic(op: BinOp, a: u32, b: u32) -> (res: Option<u32>)
    ensures
        res == arithmetic(op, a, b),
{
    match op {
        BinOp::Add => Some(a.wrapping_add(b)),
        BinOp::Subtract => Some(a.wrapping_sub(b)),
        BinOp::Multiply => {
            assert((a as nat * b as nat) % (0x1_0000_0000 as nat) == (a * b) % 0x1_0000_0000);
            Some(a.wrapping_mul(b))
        },
        BinOp::Divide => if b == 0 {
            None
        } else {
            Some(a / b)
        },
        _ => None,
    }
}

/// Appends `[text]` to `res`.
fn append_bracketed(res: &mut String, text: &str)
    ensures
        final(res)@ == old(res)@ + bracketed(text@),
{
    proof {
        reveal_strlit("[");
        reveal_strlit("]");
    }
    res.append("[");
    res.append(text);
    res.append("]");
    assert(res@ =~= old(res)@ + bracketed(text@));
}

/// Appends the resolved indexes to `res`.
fn append_indexes(res: &mut String, indexing: &Vec<Expr>, heap: &mut Environment)
    ensures
        final(res)@ == old(res)@ + indexes_text(
            exprs_view(*indexing),
            old(heap)@,
            indexing.len() as int,
        ),
        *final(heap) == *old(heap),
    decreases indexing, 0nat,
{
    let ghost views = exprs_view(*indexing);
    let mut i: usize = 0;
    assert(res@ =~= old(res)@ + indexes_text(views, heap@, 0));
    while i < indexing.len()
        invariant
            i <= indexing.len(),
            views == exprs_view(*indexing),
            *heap == *old(heap),
            res@ == old(res)@ + indexes_text(views, heap@, i as int),
        decreases indexing.len() - i,
    {
        let ghost before = res@;
        let (value, _deps) = evaluate(&indexing[i], heap);
        match value {
            EvaluationResult::Value(num) => {
                let digits = decimal_string(num);
                append_bracketed(res, digits.as_str());
            },
            EvaluationResult::Identifier(name) => {
                append_bracketed(res, name.as_str());
            },
            _ => {},
        }
        i += 1;
        assert(res@ =~= old(res)@ + indexes_text(views, heap@, i as int)) by {
            assert(res@ == before + index_text(views[i - 1], heap@));
        }
    }
}

/// Whether every one of the index expressions reduces to a value.
fn indexes_resolved_exec(indexing: &Vec<Expr>, heap: &mut Environment) -> (res: bool)
    ensures
        res == indexes_resolved(exprs_view(*indexing), old(heap)@),
        *final(heap) == *old(heap),
{
    let mut i: usize = 0;
    while i < indexing.len()
        invariant
            i <= indexing.len(),
            *heap == *old(heap),
            forall|j: int|
                0 <= j < i ==> evaluation_of(
                    #[trigger] exprs_view(*indexing)[j],
                    heap@,
                ).0 is Value,
        decreases indexing.len() - i,
    {
        let (value, _deps) = evaluate(&indexing[i], heap);
        match value {
            EvaluationResult::Value(_) => {},
            _ => {
                assert(!(evaluation_of(exprs_view(*indexing)[i as int], heap@).0 is Value));
                return false;
            },
        }
        i += 1;
    }
    true
}

/// Whether the key of a variable reference is concrete. The environment is
/// only read.
pub fn is_resolved(var_name: &Variable, heap: &mut Environment) -> (res: bool)
    ensures
        res == resolved(var_name@, old(heap)@),
        *final(heap) == *old(heap),
{
    if !indexes_resolved_exec(&var_name.indexing, heap) {
        return false;
    }
    match &var_name.sub_variable {
        Some(var) => {
            assert(var_name@.sub_variable == Some(Box::new(variable_view(**var))));
            assert(variable_view(**var).indexing == exprs_view(var.indexing));
            indexes_resolved_exec(&var.indexing, heap)
        },
        None => true,
    }
}

/// Resolves a variable reference, without its member, to a key. The
/// environment is only read.
pub fn stem_string(var_name: &Variable, heap: &mut Environment) -> (res: String)
    ensures
        res@ == stem_of(var_name@, old(heap)@),
        *final(heap) == *old(heap),
{
    let mut res = var_name.id.clone();
    append_indexes(&mut res, &var_name.indexing, heap);
    res
}

/// Resolves a variable reference to its concrete storage key. The
/// environment is only read.
pub fn get_string_from_variable(var_name: &Variable, heap: &mut Environment) -> (res: String)
    ensures
        res@ == key_of(var_name@, old(heap)@),
        *final(heap) == *old(heap),
    decreases var_name, 1nat,
{
    let mut res = var_name.id.clone();
    append_indexes(&mut res, &var_name.indexing, heap);
    match &var_name.sub_variable {
        Some(var) => {
            proof {
                reveal_strlit(".");
            }
            res.append(".");
            res.append(var.id.as_str());
            append_indexes(&mut res, &var.indexing, heap);
            assert(var_name@.sub_variable == Some(Box::new(variable_view(**var))));
            assert(variable_view(**var).id == var.id@);
            assert(variable_view(**var).indexing == exprs_view(var.indexing));
            assert(res@ =~= key_of(var_name@, heap@));
        },
        None => {
            assert(res@ =~= key_of(var_name@, heap@));
        },
    }
    res
}

impl Serializable for Variable {
    /// The concrete storage key of this variable reference.
    fn serialize(&self, heap: &mut Environment) -> (res: String)
        ensures
            res@ == key_of(self@, old(heap)@),
            *final(heap) == *old(heap),
    {
        get_string_from_variable(self, heap)
    }
}

/// Reduces the parameters of a template instantiation: the values of those
/// that reduce to values, and the keys that those read.
fn evaluate_parameters(list: &Vec<Expr>, heap: &mut Environment) -> (res: (Vec<u32>, Vec<String>))
    ensures
        res.0@ == resolved_values(exprs_view(*list), old(heap)@, list.len() as int),
        strings_view(res.1) == resolved_dependencies(
            exprs_view(*list),
            old(heap)@,
            list.len() as int,
        ),
        *final(heap) == *old(heap),
    decreases list, 0nat,
{
    let ghost views = exprs_view(*list);
    let mut params: Vec<u32> = Vec::new();
    let mut deps: Vec<String> = Vec::new();
    let mut i: usize = 0;
    assert(params@ =~= resolved_values(views, heap@, 0));
    assert(strings_view(deps) =~= resolved_dependencies(views, heap@, 0));
    while i < list.len()
        invariant
            i <= list.len(),
            views == exprs_view(*list),
            *heap == *old(heap),
            params@ == resolved_values(views, heap@, i as int),
            strings_view(deps) == resolved_dependencies(views, heap@, i as int),
        decreases list.len() - i,
    {
        let (value, read) = evaluate(&list[i], heap);
        match value {
            EvaluationResult::Value(number) => {
                params.push(number);
                extend_strings(&mut deps, read);
            },
            _ => {},
        }
        i += 1;
    }
    (params, deps)
}

/// Reduces an expression against an environment. Returns what it reduces to
/// and the keys it read; the environment is only read.
pub fn evaluate(exp: &Expr, heap: &mut Environment) -> (res: (EvaluationResult, Vec<String>))
    ensures
        (res.0@, strings_view(res.1)) == evaluation_of(exp@, old(heap)@),
        *final(heap) == *old(heap),
    decreases exp, 0nat,
{
    match exp {
        Expr::Number(value) => {
            let deps: Vec<String> = Vec::new();
            assert(strings_view(deps) =~= Seq::empty());
            (EvaluationResult::Value(*value), deps)
        },
        Expr::ComplexVariable(var_name) => {
            let res = get_string_from_variable(var_name, heap);
            let mut deps: Vec<String> = Vec::new();
            deps.push(res.clone());
            assert(strings_view(deps) =~= seq![res@]);
            match heap.get(res.as_str()) {
                Some(value) => (EvaluationResult::Value(*value), deps),
                None => (EvaluationResult::Identifier(res), deps),
            }
        },
        Expr::ComponentInstance(component) => {
            let res = get_string_from_variable(&component.name, heap);
            let (params, deps) = evaluate_parameters(&component.parameter_list, heap);
            (
                EvaluationResult::ComponentInstance(
                    EvaluatedComponentInstance { name: res, parameter_list: params },
                ),
                deps,
            )
        },
        Expr::BinaryOperation(bin_op) => {
            let (left, mut deps) = evaluate(&*bin_op.left, heap);
            let (right, more) = evaluate(&*bin_op.right, heap);
            match (left, right) {
                (EvaluationResult::Value(a), EvaluationResult::Value(b)) => {
                    match apply_arithmetic(bin_op.op, a, b) {
                        Some(value) => {
                            extend_strings(&mut deps, more);
                            return (EvaluationResult::Value(value), deps);
                        },
                        None => {},
                    }
                },
                _ => {},
            }
            let none: Vec<String> = Vec::new();
            assert(strings_view(none) =~= Seq::empty());
            (EvaluationResult::Empty, none)
        },
        _ => {
            let none: Vec<String> = Vec::new();
            assert(strings_view(none) =~= Seq::empty());
            (EvaluationResult::Empty, none)
        },
    }
}

} // verus!
