//! What holds of whole functions, and of the constructs that C promises
//! something about.

use crate::error::{ErrorView, Location};
use crate::hir::{Expr, ExprType, FunctionType, Stmt, Symbol, Type};
use crate::ir::{IrType, Op};
use crate::lower::expr_laws::{copy_is_sound, kept_is_transitive, slot_is_sound};
use crate::lower::expr_model::{
    expr_spec, named_types_spec, parameter_types_from, passed_spec, return_type_spec,
    static_ref_spec, value_type_spec,
};
use crate::lower::function::{
    bound_from, bound_spec, entry_ops, first_named, function_opened, function_plan_spec,
    opening_from,
};
use crate::lower::init_model::zeroed_from;
use crate::lower::laws::{
    definitions_typed, done_soundly, entry_is_sound, extends, names_earlier, slot_is_recorded,
    state_sound, step_is_sound, steps_sound, value_made, variable_is_recorded,
};
use crate::lower::state::{
    aggregate_slot_spec, case_block, copied, copied_from, did, emitted, type_of_value, Lowering,
    TablesView,
};
use crate::lower::stmt_laws::statements_are_lowered_soundly;
use crate::lower::stmt_model::{case_blocks_spec, statements_spec, stmt_spec};
use crate::types::{abi_parameter_spec, by_value_aggregate, parameters, stripped};
use vstd::prelude::*;

verus! {

broadcast use {step_is_sound, entry_is_sound};

/// Whether the steps that open a function name only earlier ones, and make the
/// values of its parameters from `first` on.
spec fn opening_sound(ops: Seq<Op>, first: int) -> bool {
    &&& steps_sound(ops)
    &&& ops.len() >= 4
    &&& ops[0] is CreateBlock
    &&& first <= ops.len()
}

proof fn opening_is_sound(types: Seq<IrType>, index: nat, ops: Seq<Op>)
    requires
        index <= types.len(),
        opening_sound(ops, 4 + index as int),
        ops.len() == 4 + index,
    ensures
        opening_sound(opening_from(types, index, ops), (4 + types.len()) as int),
        opening_from(types, index, ops).len() == 4 + types.len(),
        extends(ops, opening_from(types, index, ops)),
        forall|i: int|
            index <= i < types.len() ==> #[trigger] opening_from(types, index, ops)[4 + i] == (
            Op::FunctionParam { index: i as usize, ty: types[i] }),
    decreases types.len() - index,
{
    if index < types.len() {
        let op = Op::FunctionParam { index: index as usize, ty: types[index as int] };
        let next = ops.push(op);
        assert forall|i: int| 0 <= i < next.len() implies names_earlier(
            next,
            i,
            #[trigger] next[i],
        ) by {
            if i < ops.len() {
                assert(next[i] == ops[i]);
            }
        }
        opening_is_sound(types, index + 1, next);
    }
}

/// Whether the value was made, and is of the type in which the parameter is
/// passed.
spec fn parameter_made(
    s: Lowering,
    parameter: Symbol,
    value: usize,
    location: Location,
) -> bool {
    &&& value_made(s, value)
    &&& abi_parameter_spec(*parameter.ctype, location) matches Ok(ty) ==> type_of_value(s, value)
        == ty
}

proof fn parameter_is_sound(s: Lowering, parameter: Symbol, value: usize, location: Location)
    ensures
        done_soundly(
            s,
            parameter_made(s, parameter, value, location),
            bound_spec(s, parameter, value, location),
        ),
{
    let ctype = *parameter.ctype;
    if by_value_aggregate(ctype) {
        slot_is_sound(s, ctype, location);
        if let (s1, Ok((slot, address))) = aggregate_slot_spec(s, ctype, location) {
            copy_is_sound(s1, address, value, ctype, location);
            let s2 = copied(s1, address, value, ctype, location).0;
            kept_is_transitive(s, s1, s2);
            slot_is_recorded(s2, parameter.key, slot);
        }
    } else if let Ok(ty) = abi_parameter_spec(ctype, location) {
        let (s1, variable) = emitted(s, Op::DeclareVar { ty });
        let s2 = did(s1, Op::DefVar { variable, value });
        variable_is_recorded(s2, parameter.key, variable, ty);
    }
}

/// Whether the values from `first` on, one for each parameter, were made, each
/// of the type of its parameter.
spec fn parameters_made(
    s: Lowering,
    named: Seq<Symbol>,
    first: usize,
    location: Location,
) -> bool {
    &&& first + named.len() <= s.ops.len()
    &&& forall|i: int|
        0 <= i < named.len() ==> parameter_made(
            s,
            #[trigger] named[i],
            (first + i) as usize,
            location,
        )
}

proof fn parameters_are_sound(
    s: Lowering,
    named: Seq<Symbol>,
    index: nat,
    first: usize,
    location: Location,
)
    ensures
        done_soundly(
            s,
            parameters_made(s, named, first, location),
            bound_from(s, named, index, first, location),
        ),
    decreases named.len() - index,
{
    if index < named.len() {
        let parameter = named[index as int];
        let value = first.wrapping_add(index as usize);
        parameter_is_sound(s, parameter, value, location);
        if let (s1, Ok(_)) = bound_spec(s, parameter, value, location) {
            parameters_are_sound(s1, named, index + 1, first, location);
            let done = bound_from(s1, named, index + 1, first, location);
            if parameters_made(s, named, first, location) && done.0.ops.len() <= usize::MAX {
                assert(first + index < s.ops.len() <= usize::MAX);
                assert(value == first + index);
                assert(parameters_made(s1, named, first, location)) by {
                    assert forall|i: int| 0 <= i < named.len() implies parameter_made(
                        s1,
                        #[trigger] named[i],
                        (first + i) as usize,
                        location,
                    ) by {
                        assert(parameter_made(s, named[i], (first + i) as usize, location));
                    }
                }
            }
        }
    }
}

proof fn parameter_types_are_counted(
    named: Seq<Symbol>,
    index: nat,
    location: Location,
    types: Seq<IrType>,
)
    requires
        index <= named.len(),
    ensures
        parameter_types_from(named, index, location, types) matches Ok(all) ==> {
            &&& all.len() == types.len() + named.len() - index
            &&& forall|i: int| 0 <= i < types.len() ==> #[trigger] all[i] == types[i]
            &&& forall|i: int|
                index <= i < named.len() ==> abi_parameter_spec(
                    *(#[trigger] named[i]).ctype,
                    location,
                ) == Ok::<IrType, ErrorView>(all[types.len() + i - index])
        },
    decreases named.len() - index,
{
    if index < named.len() {
        if let Ok(ty) = abi_parameter_spec(*named[index as int].ctype, location) {
            parameter_types_are_counted(named, index + 1, location, types.push(ty));
            if let Ok(all) = parameter_types_from(named, index + 1, location, types.push(ty)) {
                assert(all[types.len() as int] == types.push(ty)[types.len() as int]);
                assert forall|i: int| 0 <= i < types.len() implies #[trigger] all[i]
                    == types[i] by {
                    assert(all[i] == types.push(ty)[i]);
                }
            }
        }
    }
}

proof fn opened_function_is_sound(
    function: FunctionType,
    types: Seq<IrType>,
    result_type: Option<IrType>,
    tables: TablesView,
    location: Location,
)
    requires
        named_types_spec(function, location) == Ok::<Seq<IrType>, ErrorView>(types),
    ensures
        ({
            let s = function_opened(function, types, result_type, tables);
            &&& state_sound(s)
            &&& s.ops.len() <= usize::MAX ==> parameters_made(
                s,
                parameters(function),
                first_named(function),
                location,
            )
        }),
{
    reveal(state_sound);
    let s = function_opened(function, types, result_type, tables);
    let ops = entry_ops();
    assert forall|i: int| 0 <= i < ops.len() implies names_earlier(ops, i, #[trigger] ops[i]) by {
        assert(i == 0 || i == 1 || i == 2 || i == 3);
    }
    opening_is_sound(types, 0, ops);
    let first = if by_value_aggregate(*function.return_type) {
        seq![IrType::I32]
    } else {
        Seq::empty()
    };
    parameter_types_are_counted(parameters(function), 0, location, first);
    assert(s.ops[0] is CreateBlock);
    assert(types.len() == first.len() + parameters(function).len());
    assert(s.ops =~= opening_from(types, 0, ops));
    if by_value_aggregate(*function.return_type) {
        assert(s.ops[4 + 0int] is FunctionParam);
    }
    let named = parameters(function);
    if s.ops.len() <= usize::MAX {
        assert forall|i: int| 0 <= i < named.len() implies parameter_made(
            s,
            #[trigger] named[i],
            (first_named(function) + i) as usize,
            location,
        ) by {
            let position = first.len() + i;
            assert(abi_parameter_spec(*named[i].ctype, location) == Ok::<IrType, ErrorView>(
                types[position],
            ));
            assert(s.ops[4 + position] == (Op::FunctionParam {
                index: position as usize,
                ty: types[position],
            }));
        }
    }
}

/// Every step of a lowered function names only earlier steps of the right
/// kind: a value that was computed, a block, variable, stack slot, signature
/// or function that was made. Every variable is given values of its own type.
pub proof fn a_lowered_function_names_only_what_it_made(
    function: FunctionType,
    body: Seq<Stmt>,
    location: Location,
    tables: TablesView,
)
    requires
        function_plan_spec(function, body, location, tables) is Ok,
        function_plan_spec(function, body, location, tables)->Ok_0.ops.len() <= usize::MAX,
    ensures
        steps_sound(function_plan_spec(function, body, location, tables)->Ok_0.ops),
        definitions_typed(function_plan_spec(function, body, location, tables)->Ok_0.ops),
{
    let types = named_types_spec(function, location)->Ok_0;
    let result_type = return_type_spec(function, location)->Ok_0;
    let s = function_opened(function, types, result_type, tables);
    opened_function_is_sound(function, types, result_type, tables, location);
    parameters_are_sound(s, parameters(function), 0, first_named(function), location);
    let (s1, bound) = bound_from(s, parameters(function), 0, first_named(function), location);
    statements_are_lowered_soundly(s1, body, 0);
    let (s2, done) = statements_spec(s1, body, 0);
    let s3 = if s2.terminated {
        s2
    } else {
        did(s2, Op::Return)
    };
    let s4 = did(s3, Op::SealAllBlocks);
    assert(function_plan_spec(function, body, location, tables)->Ok_0.ops == s4.ops);
    assert(extends(s1.ops, s2.ops));
    assert(state_sound(s4));
    reveal(state_sound);
}

/// Copying an object copies its complete representation: one load and one
/// store for each of its bytes, in order, and nothing else.
pub proof fn a_copy_is_byte_for_byte(
    s: Lowering,
    destination: usize,
    source: usize,
    offset: i32,
    size: i32,
)
    requires
        0 <= offset <= size,
    ensures
        ({
            let after = copied_from(s, destination, source, offset, size);
            &&& after.ops.len() == s.ops.len() + 2 * (size - offset)
            &&& extends(s.ops, after.ops)
            &&& forall|i: int|
                0 <= i < size - offset ==> copies_byte(
                    after.ops,
                    #[trigger] (s.ops.len() + 2 * i),
                    destination,
                    source,
                    offset + i,
                )
        }),
    decreases size - offset,
{
    if offset < size {
        let (s1, value) = emitted(s, Op::Load { ty: IrType::I8, address: source, offset });
        let s2 = did(s1, Op::Store { value, address: destination, offset });
        a_copy_is_byte_for_byte(s2, destination, source, (offset + 1) as i32, size);
        let after = copied_from(s, destination, source, offset, size);
        assert(after.ops[s.ops.len() as int] == s2.ops[s.ops.len() as int]);
        assert(after.ops[s.ops.len() as int + 1] == s2.ops[s.ops.len() as int + 1]);
        assert forall|i: int| 0 <= i < size - offset implies copies_byte(
            after.ops,
            #[trigger] (s.ops.len() + 2 * i),
            destination,
            source,
            offset + i,
        ) by {
            if i > 0 {
                let at = s2.ops.len() + 2 * (i - 1);
                assert(at == s.ops.len() + 2 * i);
                assert(copies_byte(after.ops, at, destination, source, offset + 1 + (i - 1)));
            }
        }
    }
}

/// Whether the two steps at `at` copy the byte at `offset`.
pub open spec fn copies_byte(
    ops: Seq<Op>,
    at: int,
    destination: usize,
    source: usize,
    offset: int,
) -> bool {
    &&& ops[at] == (Op::Load { ty: IrType::I8, address: source, offset: offset as i32 })
    &&& ops[at + 1] == (Op::Store {
        value: at as usize,
        address: destination,
        offset: offset as i32,
    })
}

/// `&*p` is `p`, and loads nothing.
pub proof fn the_address_of_a_dereference_is_the_pointer(s: Lowering, e: Expr, inner: Expr)
    requires
        value_type_spec(e) is Ok,
        e.expr matches ExprType::StaticRef(value) && *value == inner,
        stripped(inner).expr is Deref,
    ensures
        expr_spec(s, e) == expr_spec(s, *stripped(inner).expr->Deref_0),
{
    assert(expr_spec(s, e) == static_ref_spec(s, inner));
    assert(static_ref_spec(s, inner) == expr_spec(s, *stripped(inner).expr->Deref_0));
}

/// Nothing is lowered for a statement that cannot be reached and that no
/// label leads to.
pub proof fn an_unreachable_statement_adds_nothing(s: Lowering, statement: Stmt)
    requires
        s.terminated,
        !(statement.data is Label),
        !(statement.data is Compound),
        !(statement.data is Case),
        !(statement.data is Default),
    ensures
        stmt_spec(s, statement) == (s, Ok::<(), ErrorView>(())),
{
}

/// An object that is passed by value is a copy: what is passed is the address
/// of a stack slot that was made for this argument.
pub proof fn an_object_argument_is_a_fresh_copy(
    s: Lowering,
    value: usize,
    ctype: Type,
    parameter: Type,
    location: Location,
)
    requires
        by_value_aggregate(parameter),
        passed_spec(s, value, ctype, Some(parameter), location).1 is Ok,
        passed_spec(s, value, ctype, Some(parameter), location).0.ops.len() <= usize::MAX,
    ensures
        ({
            let (after, passed) = passed_spec(s, value, ctype, Some(parameter), location);
            let address = passed->Ok_0;
            &&& s.ops.len() <= address < after.ops.len()
            &&& after.ops[address as int] matches Op::StackAddr { slot } && s.ops.len() <= slot
                && after.ops[slot as int] is CreateStackSlot
        }),
{
    slot_is_sound(s, parameter, location);
    let (s1, made) = aggregate_slot_spec(s, parameter, location);
    if let Ok((slot, address)) = made {
        copy_is_sound(s1, address, value, parameter, location);
        let s2 = copied(s1, address, value, parameter, location).0;
        assert(extends(s1.ops, s2.ops));
        assert(s1.ops.len() == s.ops.len() + 2);
        assert(s2.ops[address as int] == s1.ops[address as int]);
        assert(s2.ops[slot as int] == s1.ops[slot as int]);
    }
}

/// Before the parts of a local are initialized, each of its bytes is set to
/// zero: one store for each, in order, and nothing else.
pub proof fn an_initialized_local_starts_as_zeros(
    s: Lowering,
    slot: usize,
    zero: usize,
    offset: u32,
    size: u32,
    location: Location,
)
    requires
        offset <= size,
        zeroed_from(s, slot, zero, offset, size, location).1 is Ok,
    ensures
        ({
            let after = zeroed_from(s, slot, zero, offset, size, location).0;
            &&& after.ops.len() == s.ops.len() + (size - offset)
            &&& extends(s.ops, after.ops)
            &&& forall|i: int|
                s.ops.len() <= i < after.ops.len() ==> #[trigger] after.ops[i] == (
                Op::StackStore {
                    value: zero,
                    slot,
                    offset: (offset + (i - s.ops.len())) as i32,
                })
        }),
    decreases size - offset,
{
    if offset < size {
        let s1 = did(s, Op::StackStore { value: zero, slot, offset: offset as i32 });
        an_initialized_local_starts_as_zeros(
            s1,
            slot,
            zero,
            (offset + 1) as u32,
            size,
            location,
        );
        let after = zeroed_from(s, slot, zero, offset, size, location).0;
        assert(after.ops[s.ops.len() as int] == s1.ops[s.ops.len() as int]);
    }
}

/// Whether no value has two blocks.
pub open spec fn distinct_cases(cases: Seq<(u64, usize)>) -> bool {
    forall|i: int, j: int|
        0 <= i < j < cases.len() ==> (#[trigger] cases[i]).0 != (#[trigger] cases[j]).0
}

proof fn missing_case_is_new(cases: Seq<(u64, usize)>, value: u64, from: nat)
    ensures
        case_block(cases, value, from) is None ==> forall|i: int|
            from <= i < cases.len() ==> (#[trigger] cases[i]).0 != value,
    decreases cases.len() - from,
{
    if from < cases.len() && cases[from as int].0 != value {
        missing_case_is_new(cases, value, from + 1);
    }
}

/// Every case value of a switch has exactly one block, whatever the order in
/// which the labels stand and however often a value is repeated.
pub proof fn every_case_has_one_block(
    s: Lowering,
    values: Seq<u64>,
    index: nat,
    cases: Seq<(u64, usize)>,
)
    requires
        distinct_cases(cases),
        index <= values.len(),
        forall|i: int|
            0 <= i < index ==> case_block(cases, #[trigger] values[i], 0) is Some,
    ensures
        distinct_cases(case_blocks_spec(s, values, index, cases).1),
        forall|i: int|
            0 <= i < values.len() ==> case_block(
                case_blocks_spec(s, values, index, cases).1,
                #[trigger] values[i],
                0,
            ) is Some,
    decreases values.len() - index,
{
    if index < values.len() {
        let value = values[index as int];
        if case_block(cases, value, 0) is Some {
            every_case_has_one_block(s, values, index + 1, cases);
        } else {
            missing_case_is_new(cases, value, 0);
            let (s1, block) = emitted(s, Op::CreateBlock);
            let more = cases.push((value, block));
            assert forall|i: int| 0 <= i < index + 1 implies case_block(
                more,
                #[trigger] values[i],
                0,
            ) is Some by {
                added_case_is_found(cases, (value, block), values[i], 0);
            }
            every_case_has_one_block(s1, values, index + 1, more);
        }
    }
}

proof fn added_case_is_found(
    cases: Seq<(u64, usize)>,
    added: (u64, usize),
    value: u64,
    from: nat,
)
    requires
        from <= cases.len(),
        case_block(cases, value, from) is Some || added.0 == value,
    ensures
        case_block(cases.push(added), value, from) is Some,
    decreases cases.len() - from,
{
    if from < cases.len() && cases[from as int].0 != value {
        added_case_is_found(cases, added, value, from + 1);
    }
}

} // verus!
