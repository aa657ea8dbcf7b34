//! Expansion of an array-shaped declaration into its concrete names.

use vstd::prelude::*;
use vstd::string::*;
use crate::parser::evaluator::{Environment, bracketed};
use crate::parser::text::{
    decimal, decimal_string, decimal_value, extend_strings, parse_decimal, strings_view,
};
use crate::run::{ExecError, ExecErrorView};

verus! {

/// `[x]`.
pub open spec fn subscript(x: nat) -> Seq<char> {
    bracketed(decimal(x))
}

/// The concrete names of `base` with one subscript per dimension, each
/// running from zero to its limit, the last dimension varying fastest.
pub open spec fn expand_names(base: Seq<char>, limits: Seq<u32>) -> Seq<Seq<char>>
    decreases limits.len(), 1nat, 0nat,
{
    if limits.len() == 0 {
        seq![base]
    } else {
        expand_upto(base, limits, limits[0] as nat)
    }
}

/// The concrete names whose first subscript is below `x`.
pub open spec fn expand_upto(base: Seq<char>, limits: Seq<u32>, x: nat) -> Seq<Seq<char>>
    decreases limits.len(), 0nat, x,
{
    if limits.len() == 0 || x == 0 {
        Seq::empty()
    } else {
        expand_upto(base, limits, (x - 1) as nat) + expand_names(
            base + subscript((x - 1) as nat),
            limits.drop_first(),
        )
    }
}

/// The size that a dimension text denotes: the value bound to it, or else
/// the number it spells.
pub open spec fn dimension_size(dim: Seq<char>, values: Map<Seq<char>, u32>) -> Option<u32> {
    if values.contains_key(dim) {
        Some(values[dim])
    } else {
        decimal_value(dim)
    }
}

/// The sizes of the first `n` dimensions, or the first text among them that
/// denotes no size.
pub open spec fn resolve_dimensions(
    dims: Seq<Seq<char>>,
    values: Map<Seq<char>, u32>,
    n: int,
) -> Result<Seq<u32>, Seq<char>>
    decreases n,
{
    if n <= 0 || n > dims.len() {
        Ok(Seq::empty())
    } else {
        match resolve_dimensions(dims, values, n - 1) {
            Err(d) => Err(d),
            Ok(sizes) => match dimension_size(dims[n - 1], values) {
                Some(size) => Ok(sizes.push(size)),
                None => Err(dims[n - 1]),
            },
        }
    }
}

/// The concrete names that a declaration of `name` with the dimension texts
/// `dims` stands for, or the first dimension text that denotes no size.
pub open spec fn expansion(dims: Seq<Seq<char>>, name: Seq<char>, values: Map<Seq<char>, u32>)
    -> Result<Seq<Seq<char>>, Seq<char>> {
    match resolve_dimensions(dims, values, dims.len() as int) {
        Ok(sizes) => Ok(expand_names(name, sizes)),
        Err(d) => Err(d),
    }
}

/// The concrete names of `base` over the dimensions `limits[k..]`.
fn produce_from(base: &str, limits: &[u32], k: usize) -> (res: Vec<String>)
    requires
        k <= limits@.len(),
    ensures
        strings_view(res) == expand_names(base@, limits@.subrange(k as int, limits@.len() as int)),
    decreases limits@.len() - k,
{
    let ghost rest = limits@.subrange(k as int, limits@.len() as int);
    let mut names: Vec<String> = Vec::new();
    if k == limits.len() {
        names.push(String::from_str(base));
        assert(strings_view(names) =~= seq![base@]);
        return names;
    }
    assert(rest[0] == limits@[k as int]);
    assert(rest.drop_first() =~= limits@.subrange(k + 1, limits@.len() as int));
    let limit = limits[k];
    let next = k + 1;
    let mut x: u32 = 0;
    assert(strings_view(names) =~= expand_upto(base@, rest, 0));
    while x < limit
        invariant
            x <= limit,
            k < limits@.len(),
            next == k + 1,
            limit == limits@[k as int],
            rest == limits@.subrange(k as int, limits@.len() as int),
            rest.drop_first() == limits@.subrange(k + 1, limits@.len() as int),
            strings_view(names) == expand_upto(base@, rest, x as nat),
        decreases limit - x,
    {
        let mut name = String::from_str(base);
        proof {
            reveal_strlit("[");
            reveal_strlit("]");
        }
        name.append("[");
        name.append(decimal_string(x).as_str());
        name.append("]");
        assert(name@ =~= base@ + subscript(x as nat));
        let inner = produce_from(name.as_str(), limits, next);
        extend_strings(&mut names, inner);
        x += 1;
    }
    names
}

/// The concrete names of `base_name` with one subscript per dimension, in
/// row-major order. With no dimension the name stands for itself.
pub fn produce_signals(base_name: String, limit_per_dimension: &[u32]) -> (res: Vec<String>)
    ensures
        strings_view(res) == expand_names(base_name@, limit_per_dimension@),
{
    assert(limit_per_dimension@.subrange(0, limit_per_dimension@.len() as int)
        =~= limit_per_dimension@);
    produce_from(base_name.as_str(), limit_per_dimension, 0)
}

/// The size that a dimension text denotes.
pub fn dimension_size_exec(dimension: &str, variable_to_value_map: &Environment) -> (res: Option<
    u32,
>)
    ensures
        res == dimension_size(dimension@, variable_to_value_map@),
{
    match variable_to_value_map.get(dimension) {
        Some(size) => Some(*size),
        None => parse_decimal(dimension),
    }
}

/// Expands a declaration into its concrete names. A dimension's size is the
/// value bound to its text or else the number that the text spells; the
/// first text that is neither is reported and nothing is expanded.
pub fn get_actual_value_for_signals_components(
    csize_per_dimension: &Vec<String>,
    cname: &String,
    variable_to_value_map: &Environment,
) -> (res: Result<Vec<String>, ExecError>)
    ensures
        match res {
            Ok(names) => expansion(
                strings_view(*csize_per_dimension),
                cname@,
                variable_to_value_map@,
            ) == Ok::<Seq<Seq<char>>, Seq<char>>(strings_view(names)),
            Err(e) => exists|d: Seq<char>|
                e@ == ExecErrorView::UnresolvedArrayDimension(d) && expansion(
                    strings_view(*csize_per_dimension),
                    cname@,
                    variable_to_value_map@,
                ) == Err::<Seq<Seq<char>>, Seq<char>>(d),
        },
{
    let ghost dims = strings_view(*csize_per_dimension);
    let mut limit_per_dimension: Vec<u32> = Vec::new();
    let mut i: usize = 0;
    while i < csize_per_dimension.len()
        invariant
            i <= csize_per_dimension.len(),
            dims == strings_view(*csize_per_dimension),
            resolve_dimensions(dims, variable_to_value_map@, i as int) == Ok::<
                Seq<u32>,
                Seq<char>,
            >(limit_per_dimension@),
        decreases csize_per_dimension.len() - i,
    {
        let dimension = &csize_per_dimension[i];
        assert(dims[i as int] == dimension@);
        match dimension_size_exec(dimension.as_str(), variable_to_value_map) {
            Some(size) => {
                limit_per_dimension.push(size);
            },
            None => {
                proof {
                    lemma_resolve_dimensions_error(
                        dims,
                        variable_to_value_map@,
                        i as int + 1,
                        dims.len() as int,
                    );
                }
                return Err(ExecError::UnresolvedArrayDimension(dimension.clone()));
            },
        }
        i += 1;
    }
    Ok(produce_signals(cname.clone(), limit_per_dimension.as_slice()))
}

/// A dimension that denotes no size among the first `n` is still the one
/// reported when more dimensions are looked at.
pub proof fn lemma_resolve_dimensions_error(
    dims: Seq<Seq<char>>,
    values: Map<Seq<char>, u32>,
    n: int,
    m: int,
)
    requires
        0 <= n <= m <= dims.len(),
        resolve_dimensions(dims, values, n) is Err,
    ensures
        resolve_dimensions(dims, values, m) == resolve_dimensions(dims, values, n),
    decreases m - n,
{
    if n < m {
        lemma_resolve_dimensions_error(dims, values, n, m - 1);
    }
}

/// Number of concrete names of a declaration with the dimension sizes `limits`.
pub open spec fn volume(limits: Seq<u32>) -> nat
    decreases limits.len(),
{
    if limits.len() == 0 {
        1
    } else {
        limits[0] as nat * volume(limits.drop_first())
    }
}

/// The subscripts `[i0][i1]...` of an index vector.
pub open spec fn subscripts(idx: Seq<nat>) -> Seq<char>
    decreases idx.len(),
{
    if idx.len() == 0 {
        Seq::empty()
    } else {
        subscript(idx[0]) + subscripts(idx.drop_first())
    }
}

/// Row-major place of an index vector: the last dimension varies fastest.
pub open spec fn offset(idx: Seq<nat>, limits: Seq<u32>) -> nat
    decreases idx.len(),
{
    if idx.len() == 0 || limits.len() == 0 {
        0
    } else {
        idx[0] * volume(limits.drop_first()) + offset(idx.drop_first(), limits.drop_first())
    }
}

/// Whether an index vector has one index per dimension, each below its limit.
pub open spec fn in_bounds(idx: Seq<nat>, limits: Seq<u32>) -> bool {
    idx.len() == limits.len() && forall|k: int| 0 <= k < idx.len() ==> idx[k] < limits[k]
}

/// A declaration expands to as many names as the product of its dimension sizes.
pub proof fn lemma_expansion_length(base: Seq<char>, limits: Seq<u32>)
    ensures
        expand_names(base, limits).len() == volume(limits),
    decreases limits.len(), 1nat, 0nat,
{
    if limits.len() > 0 {
        lemma_expand_upto_length(base, limits, limits[0] as nat);
    }
}

/// The names whose first subscript is below `x` are `x` blocks of equal length.
pub proof fn lemma_expand_upto_length(base: Seq<char>, limits: Seq<u32>, x: nat)
    requires
        limits.len() > 0,
    ensures
        expand_upto(base, limits, x).len() == x * volume(limits.drop_first()),
    decreases limits.len(), 0nat, x,
{
    let v = volume(limits.drop_first());
    if x > 0 {
        lemma_expand_upto_length(base, limits, (x - 1) as nat);
        lemma_expansion_length(base + subscript((x - 1) as nat), limits.drop_first());
        assert((x - 1) * v + v == x * v) by (nonlinear_arith);
    } else {
        assert(0 * v == 0) by (nonlinear_arith);
    }
}

/// Among the names whose first subscript is below `x`, the block of the
/// first subscript `i` starts at `i` times the block length.
pub proof fn lemma_expand_upto_block(base: Seq<char>, limits: Seq<u32>, x: nat, i: nat, j: nat)
    requires
        limits.len() > 0,
        i < x,
        j < volume(limits.drop_first()),
    ensures
        i * volume(limits.drop_first()) + j < expand_upto(base, limits, x).len(),
        expand_upto(base, limits, x)[(i * volume(limits.drop_first()) + j) as int] == expand_names(
            base + subscript(i),
            limits.drop_first(),
        )[j as int],
    decreases x,
{
    let v = volume(limits.drop_first());
    let earlier = expand_upto(base, limits, (x - 1) as nat);
    let block = expand_names(base + subscript((x - 1) as nat), limits.drop_first());
    lemma_expand_upto_length(base, limits, (x - 1) as nat);
    lemma_expand_upto_length(base, limits, x);
    lemma_expansion_length(base + subscript((x - 1) as nat), limits.drop_first());
    assert((x - 1) * v + v == x * v) by (nonlinear_arith);
    if i == x - 1 {
        assert((earlier + block)[(earlier.len() + j) as int] == block[j as int]);
    } else {
        lemma_expand_upto_block(base, limits, (x - 1) as nat, i, j);
        assert(i * v + j < (x - 1) * v) by (nonlinear_arith)
            requires
                i < x - 1,
                j < v,
        ;
        assert((earlier + block)[(i * v + j) as int] == earlier[(i * v + j) as int]);
    }
}

/// Array expansion is row-major: the name with the subscripts `idx` stands
/// at the row-major place of `idx`, whatever the base name and the sizes.
pub proof fn lemma_expansion_row_major(base: Seq<char>, limits: Seq<u32>, idx: Seq<nat>)
    requires
        in_bounds(idx, limits),
    ensures
        offset(idx, limits) < volume(limits),
        expand_names(base, limits).len() == volume(limits),
        expand_names(base, limits)[offset(idx, limits) as int] == base + subscripts(idx),
    decreases limits.len(),
{
    lemma_expansion_length(base, limits);
    if limits.len() == 0 {
        assert(base + subscripts(idx) =~= base);
    } else {
        let rest = limits.drop_first();
        let tail = idx.drop_first();
        let v = volume(rest);
        let i = idx[0];
        assert(in_bounds(tail, rest)) by {
            assert forall|k: int| 0 <= k < tail.len() implies tail[k] < rest[k] by {
                assert(tail[k] == idx[k + 1]);
                assert(rest[k] == limits[k + 1]);
            }
        }
        lemma_expansion_row_major(base + subscript(i), rest, tail);
        let j = offset(tail, rest);
        lemma_expand_upto_block(base, limits, limits[0] as nat, i, j);
        assert(i * v + j < limits[0] as nat * v) by (nonlinear_arith)
            requires
                i < limits[0] as nat,
                j < v,
        ;
        assert(base + subscript(i) + subscripts(tail) =~= base + subscripts(idx));
    }
}

} // verus!
