//! What a function finds in its parameters, and what its end does.

use crate::error::Location;
use crate::hir::{FunctionType, Symbol};
use crate::ir::{IrType, Op};
use crate::lower::function::{
    bound_from, bound_spec, closed_spec, entry_ops, first_named, function_opened, opening_from,
};
use crate::lower::machine::{executed, run, Machine};
use crate::lower::state::{Lowering, TablesView};
use crate::lower::value_laws::runs_join;
use crate::types::by_value_aggregate;
use vstd::prelude::*;

verus! {

proof fn opening_lists_parameters(types: Seq<IrType>, index: nat, ops: Seq<Op>)
    requires
        types.len() <= usize::MAX,
    ensures
        ({
            let opening = opening_from(types, index, ops);
            &&& index <= types.len() ==> opening.len() == ops.len() + types.len() - index
            &&& forall|i: int| 0 <= i < ops.len() ==> #[trigger] opening[i] == ops[i]
            &&& forall|i: int|
                ops.len() <= i < opening.len() ==> #[trigger] opening[i] == (Op::FunctionParam {
                    index: (index + (i - ops.len())) as usize,
                    ty: types[index + (i - ops.len())],
                })
        }),
    decreases types.len() - index,
{
    if index < types.len() {
        opening_lists_parameters(
            types,
            index + 1,
            ops.push(Op::FunctionParam { index: index as usize, ty: types[index as int] }),
        );
    }
}

/// The value of a function's `i`-th named parameter is the `i`-th argument it
/// is called with, after the address that a function returning an object is
/// called with.
pub proof fn named_parameters_are_the_arguments_in_order(
    function: FunctionType,
    types: Seq<IrType>,
    result_type: Option<IrType>,
    tables: TablesView,
    i: nat,
)
    requires
        ({
            let hidden: nat = if by_value_aggregate(*function.return_type) {
                1
            } else {
                0
            };
            &&& hidden + i < types.len()
            &&& types.len() + 4 <= usize::MAX
        }),
    ensures
        ({
            let s = function_opened(function, types, result_type, tables);
            let hidden: nat = if by_value_aggregate(*function.return_type) {
                1
            } else {
                0
            };
            &&& s.ops[first_named(function) + i] == (Op::FunctionParam {
                index: (hidden + i) as usize,
                ty: types[(hidden + i) as int],
            })
            &&& by_value_aggregate(*function.return_type) ==> {
                &&& s.aggregate_return_address matches Some(address) && s.ops[address as int] == (
                Op::FunctionParam { index: 0, ty: types[0] })
            }
            &&& !by_value_aggregate(*function.return_type) ==> s.aggregate_return_address is None
            &&& s.return_type == result_type
        }),
{
    opening_lists_parameters(types, 0, entry_ops());
}

/// A scalar parameter is a variable that holds the argument.
pub proof fn a_scalar_parameter_holds_its_argument(
    s: Lowering,
    parameter: Symbol,
    value: usize,
    location: Location,
    ops: Seq<Op>,
    m: Machine,
)
    requires
        !by_value_aggregate(*parameter.ctype),
        bound_spec(s, parameter, value, location).1 is Ok,
        ({
            let after = bound_spec(s, parameter, value, location).0;
            &&& after.ops.len() <= ops.len()
            &&& after.ops.len() <= usize::MAX
            &&& forall|k: int| 0 <= k < after.ops.len() ==> #[trigger] ops[k] == after.ops[k]
        }),
        value < s.ops.len(),
    ensures
        ({
            let after = bound_spec(s, parameter, value, location).0;
            let end = run(m, ops, s.ops.len(), after.ops.len());
            &&& after.variables.contains_key(parameter.key)
            &&& after.variables[parameter.key] == s.ops.len()
            &&& end.variables == m.variables.insert(
                after.variables[parameter.key],
                m.values[value],
            )
            &&& end.values == m.values
            &&& end.memory == m.memory
        }),
{
    let after = bound_spec(s, parameter, value, location).0;
    let at = s.ops.len();
    assert(ops[at as int] == after.ops[at as int]);
    assert(ops[at as int + 1] == after.ops[at as int + 1]);
    assert(executed(m, ops, at) == m);
    reveal_with_fuel(run, 3);
}

proof fn binding_grows(
    s: Lowering,
    parameters: Seq<Symbol>,
    index: nat,
    first: usize,
    location: Location,
)
    requires
        forall|i: int|
            index <= i < parameters.len() ==> !by_value_aggregate(
                *(#[trigger] parameters[i]).ctype,
            ),
    ensures
        ({
            let after = bound_from(s, parameters, index, first, location).0;
            &&& s.ops.len() <= after.ops.len()
            &&& forall|k: int| 0 <= k < s.ops.len() ==> #[trigger] after.ops[k] == s.ops[k]
            &&& forall|key: u32|
                (forall|i: int|
                    index <= i < parameters.len() ==> (#[trigger] parameters[i]).key != key)
                    ==> #[trigger] after.variables[key] == s.variables[key]
        }),
    decreases parameters.len() - index,
{
    if index < parameters.len() {
        let (next, done) = bound_spec(
            s,
            parameters[index as int],
            first.wrapping_add(index as usize),
            location,
        );
        if done is Ok {
            binding_grows(next, parameters, index + 1, first, location);
        }
    }
}

/// Scalar parameters with different names each hold the argument in their
/// place.
pub proof fn scalar_parameters_hold_their_arguments(
    s: Lowering,
    parameters: Seq<Symbol>,
    index: nat,
    first: usize,
    location: Location,
    m: Machine,
)
    requires
        forall|i: int|
            index <= i < parameters.len() ==> !by_value_aggregate(
                *(#[trigger] parameters[i]).ctype,
            ),
        forall|i: int, j: int|
            index <= i < j < parameters.len() ==> (#[trigger] parameters[i]).key != (
            #[trigger] parameters[j]).key,
        bound_from(s, parameters, index, first, location).1 is Ok,
        bound_from(s, parameters, index, first, location).0.ops.len() <= usize::MAX,
        index <= parameters.len(),
        first + parameters.len() <= s.ops.len(),
    ensures
        ({
            let after = bound_from(s, parameters, index, first, location).0;
            let end = run(m, after.ops, s.ops.len(), after.ops.len());
            &&& end.values == m.values
            &&& end.memory == m.memory
            &&& forall|variable: usize|
                variable < s.ops.len() ==> #[trigger] end.variables[variable]
                    == m.variables[variable]
            &&& forall|i: int|
                index <= i < parameters.len() ==> end.variables[after.variables[(
                #[trigger] parameters[i]).key]] == m.values[(first + i) as usize]
        }),
    decreases parameters.len() - index,
{
    let after = bound_from(s, parameters, index, first, location).0;
    if index < parameters.len() {
        let parameter = parameters[index as int];
        let value = first.wrapping_add(index as usize);
        let next = bound_spec(s, parameter, value, location).0;
        binding_grows(next, parameters, index + 1, first, location);
        a_scalar_parameter_holds_its_argument(s, parameter, value, location, after.ops, m);
        let middle = run(m, after.ops, s.ops.len(), next.ops.len());
        scalar_parameters_hold_their_arguments(
            next,
            parameters,
            index + 1,
            first,
            location,
            middle,
        );
        runs_join(m, after.ops, s.ops.len(), next.ops.len(), after.ops.len());
        assert(after.variables[parameter.key] == next.variables[parameter.key]);
        assert(middle.variables[s.ops.len() as usize] == m.values[value]);
    }
}

/// A function without a result returns at its end; one with a result that can
/// get to its end is refused.
pub proof fn the_end_of_a_function_returns(s: Lowering, function: FunctionType, location: Location)
    ensures
        (!s.terminated && function.return_type.kind is Void) ==> (closed_spec(
            s,
            function,
            location,
        ) matches Ok(ops) && ops.len() > s.ops.len() && ops[s.ops.len() as int] == Op::Return),
        (!s.terminated && !(function.return_type.kind is Void)) ==> closed_spec(
            s,
            function,
            location,
        ) is Err,
        s.terminated ==> (closed_spec(s, function, location) matches Ok(ops) && ops == s.ops.push(
            Op::SealAllBlocks,
        )),
{
}

} // verus!
