//! What calls pass and what functions return.

use crate::error::{ErrorView, Location};
use crate::hir::{Expr, ExprType, FunctionType, Symbol, Type};
use crate::ir::{IrType, Op};
use crate::lower::expr_laws::{expression_is_lowered_soundly, passing_is_sound};
use crate::lower::expr_model::{
    arguments_spec, call_arguments_from, call_opened, call_spec, call_types_spec, callee_type,
    direct_callee, expr_spec, named_types_spec, parameter_types_from, passed_spec, return_type_spec,
    signature_params_from, signature_spec, unnamed_types_from, CallTarget,
};
use crate::lower::laws::extends;
use crate::lower::machine::{modulus, run, same_but_values, Machine};
use crate::lower::state::{did, type_of_value, Lowering};
use crate::lower::stmt_model::{return_spec, returned_value};
use crate::lower::unary_laws::numbers_reduce;
use crate::lower::value_laws::{a_coercion_keeps_the_number, holds_integer, number_of};
use crate::types::{abi_parameter_spec, by_value_aggregate, floating, parameters, promoted_spec};
use vstd::prelude::*;

verus! {

/// What lowering one more argument leads to: it is evaluated after the others,
/// and what is passed for it comes last.
pub open spec fn and_then_argument(
    before: (Lowering, Result<Seq<usize>, ErrorView>),
    argument: Expr,
    parameter: Option<Type>,
    location: Location,
) -> (Lowering, Result<Seq<usize>, ErrorView>) {
    match before {
        (s, Err(error)) => (s, Err(error)),
        (s, Ok(values)) => match expr_spec(s, argument) {
            (s, Err(error)) => (s, Err(error)),
            (s, Ok(value)) => match passed_spec(s, value, argument.ctype, parameter, location) {
                (s, Err(error)) => (s, Err(error)),
                (s, Ok(passed)) => (s, Ok(values.push(passed))),
            },
        },
    }
}

/// The type of the parameter at a position, if it is a named one.
pub open spec fn parameter_type(parameters: Seq<Symbol>, index: int) -> Option<Type> {
    if index < parameters.len() {
        Some(*parameters[index].ctype)
    } else {
        None
    }
}

proof fn the_last_argument_comes_last(
    s: Lowering,
    shorter: Seq<Expr>,
    longer: Seq<Expr>,
    parameters: Seq<Symbol>,
    index: nat,
    values: Seq<usize>,
    location: Location,
)
    requires
        longer.len() == shorter.len() + 1,
        forall|i: int| 0 <= i < shorter.len() ==> #[trigger] longer[i] == shorter[i],
        index <= shorter.len(),
    ensures
        arguments_spec(s, longer, parameters, index, values, location) == and_then_argument(
            arguments_spec(s, shorter, parameters, index, values, location),
            longer.last(),
            parameter_type(parameters, shorter.len() as int),
            location,
        ),
    decreases shorter.len() - index,
{
    if index < shorter.len() {
        if let (s1, Ok(value)) = expr_spec(s, shorter[index as int]) {
            let parameter = parameter_type(parameters, index as int);
            if let (s2, Ok(passed)) = passed_spec(
                s1,
                value,
                shorter[index as int].ctype,
                parameter,
                location,
            ) {
                the_last_argument_comes_last(
                    s2,
                    shorter,
                    longer,
                    parameters,
                    index + 1,
                    values.push(passed),
                    location,
                );
            }
        }
    } else {
        reveal_with_fuel(arguments_spec, 2);
    }
}

/// Arguments are evaluated and passed in order: a list with one more argument
/// is lowered as the list without it, then the argument is evaluated, and what
/// is passed for it comes after the rest.
pub proof fn arguments_are_passed_in_order(
    s: Lowering,
    shorter: Seq<Expr>,
    argument: Expr,
    parameters: Seq<Symbol>,
    values: Seq<usize>,
    location: Location,
)
    ensures
        arguments_spec(s, Seq::empty(), parameters, 0, values, location) == (
            s,
            Ok::<Seq<usize>, ErrorView>(values),
        ),
        arguments_spec(s, shorter.push(argument), parameters, 0, values, location)
            == and_then_argument(
            arguments_spec(s, shorter, parameters, 0, values, location),
            argument,
            parameter_type(parameters, shorter.len() as int),
            location,
        ),
{
    the_last_argument_comes_last(
        s,
        shorter,
        shorter.push(argument),
        parameters,
        0,
        values,
        location,
    );
}

/// What is passed for a scalar argument is its number, modulo what the type in
/// which the parameter is passed can hold. `m` is the machine after the steps
/// of the argument.
pub proof fn a_scalar_argument_keeps_its_number(
    s: Lowering,
    value: usize,
    ctype: Type,
    parameter: Option<Type>,
    ty: IrType,
    location: Location,
    m: Machine,
)
    requires
        parameter matches Some(of) ==> !by_value_aggregate(of) && abi_parameter_spec(of, location)
            == Ok::<IrType, ErrorView>(ty),
        parameter is None ==> promoted_spec(ctype, location) == Ok::<IrType, ErrorView>(ty),
        !ty.floating(),
        holds_integer(m, s, value),
        passed_spec(s, value, ctype, parameter, location).0.ops.len() <= usize::MAX,
    ensures
        ({
            let (after, passed) = passed_spec(s, value, ctype, parameter, location);
            let end = run(m, after.ops, s.ops.len(), after.ops.len());
            &&& passed is Ok
            &&& same_but_values(m, end, s.ops.len())
            &&& end.values[passed->Ok_0] == number_of(m, s, value, ctype) % modulus(ty) as int
        }),
{
    let (after, passed) = passed_spec(s, value, ctype, parameter, location);
    a_coercion_keeps_the_number(s, value, ty, ctype, after.ops, m);
}

/// The steps that hand the arguments to a call, one for each, in order.
pub proof fn arguments_are_handed_over_in_order(s: Lowering, values: Seq<usize>, index: nat)
    requires
        index <= values.len(),
    ensures
        ({
            let after = call_arguments_from(s, values, index);
            &&& after.ops.len() == s.ops.len() + values.len() - index
            &&& extends(s.ops, after.ops)
            &&& forall|i: int|
                index <= i < values.len() ==> after.ops[#[trigger] (s.ops.len() + i - index)] == (
                Op::CallArgument { value: values[i] })
        }),
    decreases values.len() - index,
{
    if index < values.len() {
        let s1 = did(s, Op::CallArgument { value: values[index as int] });
        arguments_are_handed_over_in_order(s1, values, index + 1);
        let after = call_arguments_from(s, values, index);
        assert(after.ops[s.ops.len() as int] == s1.ops[s.ops.len() as int]);
        assert forall|i: int| index <= i < values.len() implies after.ops[#[trigger] (s.ops.len()
            + i - index)] == (Op::CallArgument { value: values[i] }) by {
            if i > index {
                assert(s1.ops.len() + i - (index + 1) == s.ops.len() + i - index);
            }
        }
    }
}

proof fn signature_params_stand(s: Lowering, types: Seq<IrType>, index: nat)
    requires
        index <= types.len(),
    ensures
        ({
            let after = signature_params_from(s, types, index);
            &&& after.ops.len() == s.ops.len() + types.len() - index
            &&& extends(s.ops, after.ops)
            &&& forall|i: int|
                index <= i < types.len() ==> after.ops[#[trigger] (s.ops.len() + i - index)] == (
                Op::SignatureParam { ty: types[i] })
        }),
    decreases types.len() - index,
{
    if index < types.len() {
        let s1 = did(s, Op::SignatureParam { ty: types[index as int] });
        signature_params_stand(s1, types, index + 1);
        let after = signature_params_from(s, types, index);
        assert(after.ops[s.ops.len() as int] == s1.ops[s.ops.len() as int]);
        assert forall|i: int| index <= i < types.len() implies after.ops[#[trigger] (s.ops.len() + i
            - index)] == (Op::SignatureParam { ty: types[i] }) by {
            if i > index {
                assert(s1.ops.len() + i - (index + 1) == s.ops.len() + i - index);
            }
        }
    }
}

/// A signature lists the types of what is passed in order, then that of the
/// result, if there is one.
pub proof fn a_signature_lists_its_types(s: Lowering, types: Seq<IrType>, result: Option<IrType>)
    ensures
        ({
            let (after, signature) = signature_spec(s, types, result);
            let n = s.ops.len() as int;
            let k = types.len() as int;
            &&& extends(s.ops, after.ops)
            &&& after.ops[n] == Op::BeginSignature
            &&& forall|i: int|
                0 <= i < k ==> after.ops[#[trigger] (n + 1 + i)] == (Op::SignatureParam {
                    ty: types[i],
                })
            &&& result matches Some(ty) ==> after.ops[n + 1 + k] == (Op::SignatureReturn { ty })
            &&& after.ops.len() == n + 2 + k + if result is Some {
                1int
            } else {
                0int
            }
            &&& after.ops.last() == Op::ImportSignature
            &&& signature == (after.ops.len() - 1) as usize
        }),
{
    let s1 = did(s, Op::BeginSignature);
    signature_params_stand(s1, types, 0);
    let s2 = signature_params_from(s1, types, 0);
    let (after, signature) = signature_spec(s, types, result);
    assert(extends(s2.ops, after.ops));
    let n = s.ops.len() as int;
    assert(s2.ops[n] == s1.ops[n]);
    assert(after.ops[n] == s2.ops[n]);
    assert forall|i: int| 0 <= i < types.len() implies after.ops[#[trigger] (n + 1 + i)] == (
    Op::SignatureParam { ty: types[i] }) by {
        assert(s2.ops[s1.ops.len() + i - 0] == (Op::SignatureParam { ty: types[i] }));
        assert(after.ops[n + 1 + i] == s2.ops[n + 1 + i]);
    }
}

proof fn parameter_types_stand(
    named: Seq<Symbol>,
    index: nat,
    location: Location,
    types: Seq<IrType>,
)
    requires
        index <= named.len(),
    ensures
        parameter_types_from(named, index, location, types) matches Ok(all) ==> {
            &&& all.len() == types.len() + named.len() - index
            &&& forall|i: int| 0 <= i < types.len() ==> #[trigger] all[i] == types[i]
            &&& forall|i: int|
                index <= i < named.len() ==> abi_parameter_spec(
                    *(#[trigger] named[i]).ctype,
                    location,
                ) == Ok::<IrType, ErrorView>(all[types.len() + i - index])
        },
    decreases named.len() - index,
{
    if index < named.len() {
        if let Ok(ty) = abi_parameter_spec(*named[index as int].ctype, location) {
            parameter_types_stand(named, index + 1, location, types.push(ty));
            if let Ok(all) = parameter_types_from(named, index + 1, location, types.push(ty)) {
                assert(all[types.len() as int] == types.push(ty)[types.len() as int]);
                assert forall|i: int| 0 <= i < types.len() implies #[trigger] all[i]
                    == types[i] by {
                    assert(all[i] == types.push(ty)[i]);
                }
            }
        }
    }
}

proof fn unnamed_types_stand(
    arguments: Seq<Expr>,
    index: nat,
    location: Location,
    types: Seq<IrType>,
)
    requires
        index <= arguments.len(),
    ensures
        unnamed_types_from(arguments, index, location, types) matches Ok(all) ==> {
            &&& all.len() == types.len() + arguments.len() - index
            &&& forall|i: int| 0 <= i < types.len() ==> #[trigger] all[i] == types[i]
            &&& forall|i: int|
                index <= i < arguments.len() ==> promoted_spec(
                    (#[trigger] arguments[i]).ctype,
                    location,
                ) == Ok::<IrType, ErrorView>(all[types.len() + i - index])
        },
    decreases arguments.len() - index,
{
    if index < arguments.len() {
        if let Ok(ty) = promoted_spec(arguments[index as int].ctype, location) {
            unnamed_types_stand(arguments, index + 1, location, types.push(ty));
            if let Ok(all) = unnamed_types_from(
                arguments,
                index + 1,
                location,
                types.push(ty),
            ) {
                assert(all[types.len() as int] == types.push(ty)[types.len() as int]);
                assert forall|i: int| 0 <= i < types.len() implies #[trigger] all[i]
                    == types[i] by {
                    assert(all[i] == types.push(ty)[i]);
                }
            }
        }
    }
}

/// What is passed to a call, by type: the address of the object that it
/// returns, if it returns one, then each parameter in the type in which it is
/// passed, then each further argument after C's default promotions.
pub proof fn a_call_has_the_types_of_its_arguments(
    function: FunctionType,
    arguments: Seq<Expr>,
    location: Location,
)
    requires
        call_types_spec(function, arguments, location) is Ok,
        arguments.len() >= parameters(function).len(),
        !function.varargs ==> arguments.len() == parameters(function).len(),
    ensures
        ({
            let types = call_types_spec(function, arguments, location)->Ok_0;
            let named = parameters(function);
            let first = if by_value_aggregate(*function.return_type) {
                1int
            } else {
                0int
            };
            &&& types.len() == first + arguments.len()
            &&& first == 1 ==> types[0] == IrType::I32
            &&& forall|i: int|
                0 <= i < named.len() ==> abi_parameter_spec(
                    *(#[trigger] named[i]).ctype,
                    location,
                ) == Ok::<IrType, ErrorView>(types[first + i])
            &&& forall|i: int|
                named.len() <= i < arguments.len() ==> promoted_spec(
                    (#[trigger] arguments[i]).ctype,
                    location,
                ) == Ok::<IrType, ErrorView>(types[first + i])
        }),
{
    let named = parameters(function);
    let first = if by_value_aggregate(*function.return_type) {
        seq![IrType::I32]
    } else {
        Seq::empty()
    };
    parameter_types_stand(named, 0, location, first);
    let start = named_types_spec(function, location)->Ok_0;
    unnamed_types_stand(arguments, named.len(), location, start);
    let types = call_types_spec(function, arguments, location)->Ok_0;
    assert forall|i: int| 0 <= i < named.len() implies abi_parameter_spec(
        *(#[trigger] named[i]).ctype,
        location,
    ) == Ok::<IrType, ErrorView>(types[first.len() + i]) by {
        assert(types[first.len() + i] == start[first.len() + i]);
    }
    if first.len() == 1 {
        assert(start[0] == first[0]);
        assert(types[0] == start[0]);
    }
}

/// The state in which the arguments of a call are lowered, and what the call
/// needs besides them.
pub open spec fn call_started(s: Lowering, e: Expr) -> (Lowering, CallTarget) {
    let function = *e.expr->FuncCall_0;
    let callee = callee_type(function.ctype, e.location)->Ok_0;
    let (opened, target) = call_opened(
        s,
        callee,
        direct_callee(s, function, e.location)->Ok_0,
        call_types_spec(callee, e.expr->FuncCall_1@, e.location)->Ok_0,
        return_type_spec(callee, e.location)->Ok_0,
        e.location,
    );
    (opened, target->Ok_0)
}

/// What is passed before the arguments: the address of the returned object.
pub open spec fn passed_first(target: CallTarget) -> Seq<usize> {
    match target.result {
        Some(address) => seq![address],
        None => Seq::empty(),
    }
}

/// A call of a named function calls the function with that name, and hands
/// over the values that were passed, in order; its value is what the call
/// gives, the address of the object that it returns, or nought.
pub proof fn a_named_call_calls_its_function(s: Lowering, e: Expr, key: u32)
    requires
        e.expr is FuncCall,
        e.expr->FuncCall_0.expr matches ExprType::Id(symbol) && symbol.key == key
            && symbol.ctype.kind is Function,
        s.tables.functions.contains_key(key),
        expr_spec(s, e).1 is Ok,
        expr_spec(s, e).0.ops.len() <= usize::MAX,
    ensures
        ({
            let callee = callee_type(e.expr->FuncCall_0.ctype, e.location)->Ok_0;
            let (opened, target) = call_started(s, e);
            let (passed, values) = arguments_spec(
                opened,
                e.expr->FuncCall_1@,
                parameters(callee),
                0,
                passed_first(target),
                e.location,
            );
            let (after, result) = expr_spec(s, e);
            let at = passed.ops.len() as int;
            let count = values->Ok_0.len() as int;
            let function = target.function->0;
            &&& values is Ok
            &&& target.function is Some
            &&& opened.ops[function as int] == (Op::ImportFunction {
                index: s.tables.functions[key],
                signature: target.signature,
            })
            &&& opened.ops[target.signature as int] == Op::ImportSignature
            &&& forall|i: int|
                0 <= i < count ==> after.ops[#[trigger] (at + i)] == (Op::CallArgument {
                    value: values->Ok_0[i],
                })
            &&& after.ops[at + count] == (Op::Call {
                function,
                result: return_type_spec(callee, e.location)->Ok_0,
            })
            &&& by_value_aggregate(*callee.return_type) ==> target.result == Some(
                result->Ok_0,
            ) && opened.ops[result->Ok_0 as int] is StackAddr
            &&& callee.return_type.kind is Void ==> after.ops[result->Ok_0 as int] == (Op::Iconst {
                ty: IrType::I32,
                value: 0,
            })
            &&& !by_value_aggregate(*callee.return_type) && !(callee.return_type.kind is Void)
                ==> result->Ok_0 == at + count
        }),
{
    let callee = callee_type(e.expr->FuncCall_0.ctype, e.location)->Ok_0;
    assert(expr_spec(s, e) == call_spec(s, e));
    let (opened, target) = call_started(s, e);
    let (passed, values) = arguments_spec(
        opened,
        e.expr->FuncCall_1@,
        parameters(callee),
        0,
        passed_first(target),
        e.location,
    );
    let (after, result) = expr_spec(s, e);
    let types = call_types_spec(callee, e.expr->FuncCall_1@, e.location)->Ok_0;
    let returned = return_type_spec(callee, e.location)->Ok_0;
    a_signature_lists_its_types(s, types, returned);
    arguments_are_handed_over_in_order(passed, values->Ok_0, 0);
    let handed = call_arguments_from(passed, values->Ok_0, 0);
    let at = passed.ops.len() as int;
    let count = values->Ok_0.len() as int;
    assert(extends(handed.ops, after.ops));
    assert forall|i: int| 0 <= i < count implies after.ops[#[trigger] (at + i)] == (
    Op::CallArgument { value: values->Ok_0[i] }) by {
        assert(handed.ops[passed.ops.len() + i - 0] == (Op::CallArgument { value: values->Ok_0[i] }));
        assert(after.ops[at + i] == handed.ops[at + i]);
    }
    arguments_only_add(
        opened,
        e.expr->FuncCall_1@,
        parameters(callee),
        0,
        passed_first(target),
        e.location,
    );
    assert(opened.ops.len() <= usize::MAX);
}

/// A call of anything else calls what is at the address that the callee
/// evaluates to, and hands over the values that were passed, in order; its
/// value is what the call gives, the address of the object that it returns, or
/// nought.
pub proof fn any_other_call_calls_its_address(s: Lowering, e: Expr)
    requires
        e.expr is FuncCall,
        !(e.expr->FuncCall_0.expr matches ExprType::Id(symbol) && symbol.ctype.kind is Function),
        expr_spec(s, e).1 is Ok,
        expr_spec(s, e).0.ops.len() <= usize::MAX,
    ensures
        ({
            let callee = callee_type(e.expr->FuncCall_0.ctype, e.location)->Ok_0;
            let (opened, target) = call_started(s, e);
            let (passed, values) = arguments_spec(
                opened,
                e.expr->FuncCall_1@,
                parameters(callee),
                0,
                passed_first(target),
                e.location,
            );
            let (computed, address) = expr_spec(passed, *e.expr->FuncCall_0);
            let (after, result) = expr_spec(s, e);
            let at = computed.ops.len() as int;
            let count = values->Ok_0.len() as int;
            &&& values is Ok && address is Ok
            &&& target.function is None
            &&& opened.ops[target.signature as int] == Op::ImportSignature
            &&& forall|i: int|
                0 <= i < count ==> after.ops[#[trigger] (at + i)] == (Op::CallArgument {
                    value: values->Ok_0[i],
                })
            &&& after.ops[at + count] == (Op::CallIndirect {
                signature: target.signature,
                callee: address->Ok_0,
                result: return_type_spec(callee, e.location)->Ok_0,
            })
            &&& by_value_aggregate(*callee.return_type) ==> target.result == Some(
                result->Ok_0,
            ) && opened.ops[result->Ok_0 as int] is StackAddr
            &&& callee.return_type.kind is Void ==> after.ops[result->Ok_0 as int] == (Op::Iconst {
                ty: IrType::I32,
                value: 0,
            })
            &&& !by_value_aggregate(*callee.return_type) && !(callee.return_type.kind is Void)
                ==> result->Ok_0 == at + count
        }),
{
    let callee = callee_type(e.expr->FuncCall_0.ctype, e.location)->Ok_0;
    assert(expr_spec(s, e) == call_spec(s, e));
    let (opened, target) = call_started(s, e);
    let (passed, values) = arguments_spec(
        opened,
        e.expr->FuncCall_1@,
        parameters(callee),
        0,
        passed_first(target),
        e.location,
    );
    let (computed, address) = expr_spec(passed, *e.expr->FuncCall_0);
    let (after, result) = expr_spec(s, e);
    let types = call_types_spec(callee, e.expr->FuncCall_1@, e.location)->Ok_0;
    let returned = return_type_spec(callee, e.location)->Ok_0;
    a_signature_lists_its_types(s, types, returned);
    arguments_are_handed_over_in_order(computed, values->Ok_0, 0);
    let handed = call_arguments_from(computed, values->Ok_0, 0);
    let at = computed.ops.len() as int;
    let count = values->Ok_0.len() as int;
    assert(extends(handed.ops, after.ops));
    assert forall|i: int| 0 <= i < count implies after.ops[#[trigger] (at + i)] == (
    Op::CallArgument { value: values->Ok_0[i] }) by {
        assert(handed.ops[computed.ops.len() + i - 0] == (Op::CallArgument {
            value: values->Ok_0[i],
        }));
        assert(after.ops[at + i] == handed.ops[at + i]);
    }
    arguments_only_add(
        opened,
        e.expr->FuncCall_1@,
        parameters(callee),
        0,
        passed_first(target),
        e.location,
    );
    expression_is_lowered_soundly(passed, *e.expr->FuncCall_0);
    assert(opened.ops.len() <= usize::MAX);
}

proof fn arguments_only_add(
    s: Lowering,
    arguments: Seq<Expr>,
    parameters: Seq<Symbol>,
    index: nat,
    values: Seq<usize>,
    location: Location,
)
    ensures
        s.ops.len() <= arguments_spec(s, arguments, parameters, index, values, location).0.ops.len(),
    decreases arguments.len() - index,
{
    if index < arguments.len() {
        expression_is_lowered_soundly(s, arguments[index as int]);
        if let (s1, Ok(value)) = expr_spec(s, arguments[index as int]) {
            let parameter = parameter_type(parameters, index as int);
            passing_only_adds(s1, value, arguments[index as int].ctype, parameter, location);
            if let (s2, Ok(passed)) = passed_spec(
                s1,
                value,
                arguments[index as int].ctype,
                parameter,
                location,
            ) {
                arguments_only_add(
                    s2,
                    arguments,
                    parameters,
                    index + 1,
                    values.push(passed),
                    location,
                );
            }
        }
    }
}

proof fn passing_only_adds(
    s: Lowering,
    value: usize,
    ctype: Type,
    parameter: Option<Type>,
    location: Location,
)
    ensures
        s.ops.len() <= passed_spec(s, value, ctype, parameter, location).0.ops.len(),
{
    passing_is_sound(s, value, ctype, parameter, location);
}

/// A returned integer is the number of its expression, modulo what the type
/// that the function returns can hold. `m` is the machine after the steps of
/// the expression.
pub proof fn a_returned_number_is_kept(
    s: Lowering,
    expression: Expr,
    ty: IrType,
    location: Location,
    m: Machine,
)
    requires
        s.aggregate_return_address is None,
        expr_spec(s, expression).0.return_type == Some(ty),
        !ty.floating(),
        return_spec(s, Some(expression), location).1 is Ok,
        return_spec(s, Some(expression), location).0.ops.len() <= usize::MAX,
        holds_integer(
            m,
            expr_spec(s, expression).0,
            expr_spec(s, expression).1->Ok_0,
        ),
    ensures
        ({
            let (computed, value) = expr_spec(s, expression);
            let after = return_spec(s, Some(expression), location).0;
            let end = run(m, after.ops, computed.ops.len(), after.ops.len());
            &&& after.terminated
            &&& after.ops.last() matches Op::ReturnValue { value: returned } && end.values[returned]
                == number_of(m, computed, value->Ok_0, expression.ctype) % modulus(ty) as int
        }),
{
    let (computed, value) = expr_spec(s, expression);
    let after = return_spec(s, Some(expression), location).0;
    let from = type_of_value(computed, value->Ok_0);
    let (s1, returned) = returned_value(computed, value->Ok_0, expression.ctype);
    assert(after.ops == s1.ops.push(Op::ReturnValue { value: returned }));
    numbers_reduce(m.values[value->Ok_0], from, ty, expression.ctype);
    reveal_with_fuel(run, 3);
    assert(after.ops[value->Ok_0 as int] == computed.ops[value->Ok_0 as int]);
}

/// A function that returns nothing returns so.
pub proof fn a_bare_return_returns_nothing(s: Lowering, location: Location)
    requires
        s.aggregate_return_address is None,
    ensures
        return_spec(s, None, location).1 is Ok,
        return_spec(s, None, location).0.ops == s.ops.push(Op::Return),
        return_spec(s, None, location).0.terminated,
{
}

} // verus!
