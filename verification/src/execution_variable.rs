//! Variable references whose indexes are plain names, as the template
//! reader hands them over, and their resolution against a heap.

use vstd::prelude::*;
use vstd::string::*;
use crate::heap::Heap;
use crate::parser::evaluator::{Environment, bracketed};
use crate::parser::text::{decimal, decimal_string, strings_view};

verus! {

/// A variable reference, or a constant.
#[derive(Eq, Hash, PartialEq, Debug)]
pub struct ExecutionVariable {
    pub id: String,
    pub indexing: Vec<String>,
    pub sub_variable: Option<Box<ExecutionVariable>>,
    pub is_constant: bool,
    pub numerical_value: u32,
}

/// Mathematical model of an [`ExecutionVariable`].
pub struct ExecutionVariableView {
    pub id: Seq<char>,
    pub indexing: Seq<Seq<char>>,
    pub sub_variable: Option<Box<ExecutionVariableView>>,
    pub is_constant: bool,
    pub numerical_value: u32,
}

/// The model of an execution variable.
pub open spec fn execution_variable_view(v: ExecutionVariable) -> ExecutionVariableView
    decreases v,
{
    ExecutionVariableView {
        id: v.id@,
        indexing: strings_view(v.indexing),
        sub_variable: match v.sub_variable {
            Some(sub) => Some(Box::new(execution_variable_view(*sub))),
            None => None,
        },
        is_constant: v.is_constant,
        numerical_value: v.numerical_value,
    }
}

impl View for ExecutionVariable {
    type V = ExecutionVariableView;

    open spec fn view(&self) -> ExecutionVariableView {
        execution_variable_view(*self)
    }
}

/// What an [`Evaluation`] computes.
#[derive(Eq, Hash, PartialEq, Debug, Clone, Copy)]
pub enum Operation {
    Multiply,
    ComponentInstance,
    Id,
}

/// An operation over variable references.
#[derive(Eq, Hash, PartialEq, Debug)]
pub struct Evaluation {
    pub variables: Vec<ExecutionVariable>,
    pub operation: Operation,
    pub params: Vec<ExecutionVariable>,
}

/// The text that one index name adds: the bound value between brackets, or
/// the name itself where it is not bound.
pub open spec fn named_index_text(name: Seq<char>, values: Map<Seq<char>, u32>) -> Seq<char> {
    if values.contains_key(name) {
        bracketed(decimal(values[name] as nat))
    } else {
        bracketed(name)
    }
}

/// `base` followed by the text of the first `n` index names.
pub open spec fn named_indexes(
    base: Seq<char>,
    indexing: Seq<Seq<char>>,
    values: Map<Seq<char>, u32>,
    n: int,
) -> Seq<char>
    decreases n,
{
    if n <= 0 || n > indexing.len() {
        base
    } else {
        named_indexes(base, indexing, values, n - 1) + named_index_text(indexing[n - 1], values)
    }
}

/// The two keys of a variable reference: that of the variable, which ends
/// in a dot where the reference has a named member, and that of the member,
/// empty where it has none.
pub open spec fn keys_of(var: ExecutionVariable, values: Map<Seq<char>, u32>) -> (
    Seq<char>,
    Seq<char>,
) {
    let stem = named_indexes(
        var.id@,
        strings_view(var.indexing),
        values,
        var.indexing@.len() as int,
    );
    match var.sub_variable {
        Some(sub) => if sub.id@.len() > 0 {
            (
                stem + seq!['.'],
                named_indexes(
                    sub.id@,
                    strings_view(sub.indexing),
                    values,
                    sub.indexing@.len() as int,
                ),
            )
        } else {
            (stem, Seq::empty())
        },
        None => (stem, Seq::empty()),
    }
}

/// The value of an evaluation: that of its first variable, which is the
/// value bound to the variable's key or else the variable's own number; zero
/// where it has no variable.
pub open spec fn value_of_evaluation(eval: Evaluation, values: Map<Seq<char>, u32>) -> u32 {
    if eval.variables@.len() == 0 {
        0
    } else {
        let var = eval.variables@[0];
        let key = keys_of(var, values).0;
        if values.contains_key(key) {
            values[key]
        } else {
            var.numerical_value
        }
    }
}

/// Appends the text of the index names to `res`.
fn append_named_indexes(res: &mut String, indexing: &Vec<String>, values: &Environment)
    ensures
        final(res)@ == named_indexes(
            old(res)@,
            strings_view(*indexing),
            values@,
            indexing.len() as int,
        ),
{
    let mut i: usize = 0;
    while i < indexing.len()
        invariant
            i <= indexing.len(),
            res@ == named_indexes(old(res)@, strings_view(*indexing), values@, i as int),
        decreases indexing.len() - i,
    {
        proof {
            reveal_strlit("[");
            reveal_strlit("]");
        }
        assert(strings_view(*indexing)[i as int] == indexing@[i as int]@);
        let ghost before = res@;
        res.append("[");
        match values.get(indexing[i].as_str()) {
            Some(value) => {
                res.append(decimal_string(*value).as_str());
            },
            None => {
                res.append(indexing[i].as_str());
            },
        }
        res.append("]");
        assert(res@ =~= before + named_index_text(indexing@[i as int]@, values@));
        i += 1;
    }
}

/// Resolves a variable reference to its two keys. The map is only read.
pub fn generate_string_from_variable(
    var: &ExecutionVariable,
    variable_to_value_map: &mut Environment,
) -> (res: (String, String))
    ensures
        (res.0@, res.1@) == keys_of(*var, old(variable_to_value_map)@),
        *final(variable_to_value_map) == *old(variable_to_value_map),
{
    let mut result = var.id.clone();
    append_named_indexes(&mut result, &var.indexing, variable_to_value_map);
    let mut signal = String::new();
    match &var.sub_variable {
        Some(sub_var) => {
            if sub_var.id.as_str().unicode_len() > 0 {
                proof {
                    reveal_strlit(".");
                }
                result.append(".");
                signal = sub_var.id.clone();
                append_named_indexes(&mut signal, &sub_var.indexing, variable_to_value_map);
                assert(result@ =~= keys_of(*var, variable_to_value_map@).0);
            }
        },
        None => {},
    }
    (result, signal)
}

/// The value of an evaluation in a heap. The heap is only read.
pub fn get_value_for_evaluation(eval: Evaluation, heap: &mut Heap) -> (res: u32)
    ensures
        res == value_of_evaluation(eval, old(heap)@.values),
        *final(heap) == *old(heap),
{
    if eval.variables.len() == 0 {
        return 0;
    }
    let var = &eval.variables[0];
    let (var_string, _signal_string) = generate_string_from_variable(
        var,
        &mut heap.variable_to_value_map,
    );
    match heap.variable_to_value_map.get(var_string.as_str()) {
        Some(value) => *value,
        None => var.numerical_value,
    }
}

} // verus!
