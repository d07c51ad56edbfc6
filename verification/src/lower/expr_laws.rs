//! What lowering an expression keeps.

use crate::error::{ErrorView, Location};
use crate::hir::{
    ArrayType, BinaryOp, ComparisonToken, Expr, ExprType, FunctionType, LiteralValue, Symbol, Type,
    TypeKind,
};
use crate::ir::{BinaryInst, IrType, Op, UnaryInst};
use crate::lower::expr_model::{
    arguments_spec, assign_id_spec, assign_spec, binary_op, binary_spec, bitwise_not_spec,
    call_arguments_from, call_opened, call_spec, call_types_spec, called, callee_type, cast_spec,
    coerced_operand, comma_spec, compared, condition_spec, converted, deref_id_spec, deref_spec,
    direct_callee, expr_spec, float_condition, float_inst, id_spec, increment_spec, int_condition,
    int_inst, literal_spec, local_home, local_increment_spec, logical_spec, lvalue_spec,
    member_address_spec, member_spec, memory_increment_spec, negate_spec, object_address_spec,
    object_type, operated, passed_spec, pointer_difference_spec, pointer_offset_spec,
    return_type_spec, scalar_step_spec, signature_params_from, signature_spec, sizeof_spec,
    static_ref_spec, step_constant, step_inst, stepped, stored_spec, ternary_spec, value_type_spec,
    CallTarget, LocalHome, Lowered,
};
use crate::lower::laws::{
    block_made, enters_from, entry_is_sound, held, kept, kept_from, locals_are_made, lowered_from,
    lowered_soundly, made_soundly, makes_value, names_earlier, slot_before, slot_is_recorded,
    stands_from, state_sound, step_is_sound, value_made,
};
use crate::lower::state::{
    aggregate_slot_spec, align_shift, align_shift_of, coerced, compared_to_zero, copied,
    copied_from, did, emitted, entered, entered_sealed, local_address_spec, string_address_spec,
    symbol_address_spec, type_of_value, used_variable, Lowering,
};
use crate::lower::stmt_model::ended;
use crate::types::{
    abi_parameter_spec, by_value_aggregate, floating, ir_type_spec, parameters, promoted_spec,
    signed_integer, size_spec, stored_as_object, stripped, stripped_is_part,
};
use vstd::prelude::*;

verus! {

broadcast use {step_is_sound, entry_is_sound};

pub proof fn coercion_is_sound(s: Lowering, value: usize, target: IrType, source: Type)
    ensures
        made_soundly(s, value_made(s, value), coerced(s, value, target, source)),
        value_made(s, value) && coerced(s, value, target, source).0.ops.len() <= usize::MAX
            ==> type_of_value(
            coerced(s, value, target, source).0,
            coerced(s, value, target, source).1,
        ) == target,
{
}

pub proof fn operand_is_sound(s: Lowering, value: usize, target: IrType, source: Type)
    ensures
        made_soundly(s, value_made(s, value), coerced_operand(s, value, target, source)),
{
}

proof fn zero_test_is_sound(s: Lowering, value: usize)
    ensures
        made_soundly(s, value_made(s, value), compared_to_zero(s, value)),
{
}

proof fn symbol_is_sound(s: Lowering, key: u32, addend: i64, location: Location)
    ensures
        lowered_soundly(s, true, symbol_address_spec(s, key, addend, location)),
{
}

proof fn string_is_sound(s: Lowering, bytes: Seq<u8>, location: Location)
    ensures
        lowered_soundly(s, true, string_address_spec(s, bytes, location)),
{
}

proof fn name_is_sound(s: Lowering, e: Expr, key: u32)
    ensures
        lowered_soundly(s, true, id_spec(s, e, key)),
{
    if state_sound(s) {
        locals_are_made(s, key);
    }
    symbol_is_sound(s, key, 0, e.location);
}

proof fn named_value_is_sound(s: Lowering, key: u32, ty: IrType, location: Location)
    ensures
        lowered_soundly(s, true, deref_id_spec(s, key, ty, location)),
{
    if state_sound(s) {
        locals_are_made(s, key);
    }
    symbol_is_sound(s, key, 0, location);
}

proof fn object_is_sound(s: Lowering, key: u32, location: Location)
    ensures
        lowered_soundly(s, true, object_address_spec(s, key, location)),
{
    if state_sound(s) {
        locals_are_made(s, key);
    }
    symbol_is_sound(s, key, 0, location);
}

proof fn local_address_is_sound(s: Lowering, key: u32, location: Location)
    ensures
        lowered_soundly(s, true, local_address_spec(s, key, location)),
{
    if state_sound(s) {
        locals_are_made(s, key);
    }
    if !s.stack_locals.contains_key(key) && !s.vla_bases.contains_key(key)
        && s.variables.contains_key(key) {
        let (s1, value) = used_variable(s, s.variables[key]);
        let size = (type_of_value(s1, value).width() / 8) as u32;
        let (s2, slot) = emitted(
            s1,
            Op::CreateStackSlot { size, align_shift: align_shift_of(size as u64) },
        );
        let s3 = did(s2, Op::StackStore { value, slot, offset: 0 });
        let s4 = Lowering { stack_locals: s3.stack_locals.insert(key, slot), ..s3 };
        slot_is_recorded(s3, key, slot);
        assert(kept(s, s4));
    }
}

proof fn literal_is_sound(s: Lowering, literal: LiteralValue, ty: IrType, location: Location)
    ensures
        lowered_soundly(s, true, literal_spec(s, literal, ty, location)),
{
    if let LiteralValue::Str(bytes) = literal {
        string_is_sound(s, bytes@, location);
    }
}

proof fn conversion_is_sound(s: Lowering, e: Expr, value: Expr, ty: IrType, operand: usize)
    ensures
        lowered_soundly(s, value_made(s, operand), converted(s, e, value, ty, operand)),
{
}

pub proof fn slot_is_sound(s: Lowering, ctype: Type, location: Location)
    ensures
        ({
            let (after, result) = aggregate_slot_spec(s, ctype, location);
            &&& kept(s, after)
            &&& state_sound(s) && after.ops.len() <= usize::MAX ==> {
                &&& state_sound(after)
                &&& result matches Ok((slot, address)) ==> slot_before(
                    after.ops,
                    after.ops.len() as int,
                    slot,
                ) && value_made(after, address)
            }
        }),
{
}

proof fn bytes_are_sound(s: Lowering, destination: usize, source: usize, offset: i32, size: i32)
    ensures
        kept(s, copied_from(s, destination, source, offset, size)),
        state_sound(s) && value_made(s, destination) && value_made(s, source) && copied_from(
            s,
            destination,
            source,
            offset,
            size,
        ).ops.len() <= usize::MAX ==> state_sound(
            copied_from(s, destination, source, offset, size),
        ),
    decreases size - offset,
{
    if 0 <= offset < size {
        let (s1, value) = emitted(s, Op::Load { ty: IrType::I8, address: source, offset });
        let s2 = did(s1, Op::Store { value, address: destination, offset });
        bytes_are_sound(s2, destination, source, (offset + 1) as i32, size);
    }
}

pub proof fn copy_is_sound(
    s: Lowering,
    destination: usize,
    source: usize,
    ctype: Type,
    location: Location,
)
    ensures
        ({
            let after = copied(s, destination, source, ctype, location).0;
            &&& kept(s, after)
            &&& state_sound(s) && value_made(s, destination) && value_made(s, source)
                && after.ops.len() <= usize::MAX ==> state_sound(after)
        }),
{
    if let Ok(size) = size_spec(ctype, location) {
        if size <= i32::MAX {
            bytes_are_sound(s, destination, source, 0, size as i32);
        }
    }
}

proof fn store_is_sound(
    s: Lowering,
    address: usize,
    ctype: Type,
    location: Location,
    value: usize,
    source: Type,
)
    ensures
        lowered_soundly(
            s,
            value_made(s, address) && value_made(s, value),
            stored_spec(s, address, ctype, location, value, source),
        ),
{
    if let Ok(target) = ir_type_spec(ctype, location) {
        coercion_is_sound(s, value, target, source);
    }
}

/// An assignment to a local.
proof fn local_assignment_is_sound(
    s: Lowering,
    e: Expr,
    left: Expr,
    symbol: Symbol,
    value: usize,
    source: Type,
)
    requires
        s.variable_types.contains_key(symbol.key),
        s.stack_locals.contains_key(symbol.key) || s.variables.contains_key(symbol.key),
    ensures
        lowered_soundly(
            s,
            value_made(s, value),
            assign_id_spec(s, e, left, symbol, value, source),
        ),
{
    let key = symbol.key;
    if state_sound(s) {
        locals_are_made(s, key);
    }
    let ty = s.variable_types[key];
    coercion_is_sound(s, value, ty, source);
    let (s1, coerced_value) = coerced(s, value, ty, source);
    let s2 = if s.stack_locals.contains_key(key) {
        did(s1, Op::StackStore { value: coerced_value, slot: s.stack_locals[key], offset: 0 })
    } else {
        did(s1, Op::DefVar { variable: s.variables[key], value: coerced_value })
    };
    assert(kept(s1, s2));
    kept_is_transitive(s, s1, s2);
}

proof fn named_assignment_is_sound(
    s: Lowering,
    e: Expr,
    left: Expr,
    symbol: Symbol,
    value: usize,
    source: Type,
)
    ensures
        lowered_soundly(
            s,
            value_made(s, value),
            assign_id_spec(s, e, left, symbol, value, source),
        ),
{
    let key = symbol.key;
    if s.variable_types.contains_key(key) && (s.stack_locals.contains_key(key)
        || s.variables.contains_key(key)) {
        local_assignment_is_sound(s, e, left, symbol, value, source);
    } else {
        symbol_is_sound(s, key, 0, left.location);
        let (s1, address) = symbol_address_spec(s, key, 0, left.location);
        if let Ok(address) = address {
            store_is_sound(s1, address, *symbol.ctype, left.location, value, source);
            let (s2, _) = stored_spec(s1, address, *symbol.ctype, left.location, value, source);
            kept_is_transitive(s, s1, s2);
        }
    }
}

proof fn comparison_is_sound(s: Lowering, op: Op)
    requires
        op is CompareInt || op is CompareFloat,
    ensures
        lowered_soundly(s, names_earlier(s.ops, s.ops.len() as int, op), compared(s, op)),
{
}

pub proof fn instruction_is_sound(s: Lowering, inst: BinaryInst, left: usize, right: usize)
    ensures
        made_soundly(
            s,
            value_made(s, left) && value_made(s, right),
            binary_op(s, inst, left, right),
        ),
{
}

proof fn both_coercions_are_sound(
    s: Lowering,
    ty: IrType,
    left_type: Type,
    right_type: Type,
    left: usize,
    right: usize,
)
    ensures
        ({
            let (s1, left_value) = coerced(s, left, ty, left_type);
            let (s2, right_value) = coerced(s1, right, ty, right_type);
            &&& kept(s, s2)
            &&& state_sound(s) && value_made(s, left) && value_made(s, right) && s2.ops.len()
                <= usize::MAX ==> state_sound(s2) && value_made(s2, left_value) && value_made(
                s2,
                right_value,
            )
        }),
{
    coercion_is_sound(s, left, ty, left_type);
    let (s1, _) = coerced(s, left, ty, left_type);
    coercion_is_sound(s1, right, ty, right_type);
}

proof fn integer_comparison_is_sound(
    s: Lowering,
    token: ComparisonToken,
    ty: IrType,
    left_type: Type,
    right_type: Type,
    left: usize,
    right: usize,
)
    ensures
        ({
            let (s1, left_value) = coerced(s, left, ty, left_type);
            let (s2, right_value) = coerced(s1, right, ty, right_type);
            lowered_soundly(
                s,
                value_made(s, left) && value_made(s, right),
                compared(
                    s2,
                    Op::CompareInt {
                        condition: int_condition(token, signed_integer(left_type)),
                        left: left_value,
                        right: right_value,
                    },
                ),
            )
        }),
{
    both_coercions_are_sound(s, ty, left_type, right_type, left, right);
    let (s1, left_value) = coerced(s, left, ty, left_type);
    let (s2, right_value) = coerced(s1, right, ty, right_type);
    comparison_is_sound(
        s2,
        Op::CompareInt {
            condition: int_condition(token, signed_integer(left_type)),
            left: left_value,
            right: right_value,
        },
    );
}

proof fn integer_operation_is_sound(
    s: Lowering,
    inst: BinaryInst,
    ty: IrType,
    left_type: Type,
    right_type: Type,
    left: usize,
    right: usize,
)
    ensures
        ({
            let (s1, left_value) = coerced(s, left, ty, left_type);
            let (s2, right_value) = coerced(s1, right, ty, right_type);
            made_soundly(
                s,
                value_made(s, left) && value_made(s, right),
                binary_op(s2, inst, left_value, right_value),
            )
        }),
{
    both_coercions_are_sound(s, ty, left_type, right_type, left, right);
    let (s1, left_value) = coerced(s, left, ty, left_type);
    let (s2, right_value) = coerced(s1, right, ty, right_type);
    instruction_is_sound(s2, inst, left_value, right_value);
}

proof fn operation_is_sound(
    s: Lowering,
    e: Expr,
    operator: BinaryOp,
    left_type: Type,
    right_type: Type,
    left: usize,
    right: usize,
)
    ensures
        lowered_soundly(
            s,
            value_made(s, left) && value_made(s, right),
            operated(s, e, operator, left_type, right_type, left, right),
        ),
{
    match operator {
        BinaryOp::Compare(token) => {
            if left_type.kind is Pointer && right_type.kind is Pointer {
                comparison_is_sound(
                    s,
                    Op::CompareInt { condition: int_condition(token, false), left, right },
                );
            } else if floating(left_type) || floating(right_type) {
                comparison_is_sound(
                    s,
                    Op::CompareFloat { condition: float_condition(token), left, right },
                );
            } else {
                let left_ty = type_of_value(s, left);
                let right_ty = type_of_value(s, right);
                let ty = if left_ty.width() >= right_ty.width() {
                    left_ty
                } else {
                    right_ty
                };
                integer_comparison_is_sound(s, token, ty, left_type, right_type, left, right);
            }
        },
        _ => {
            let operation = if operator == BinaryOp::Shl || operator == BinaryOp::Shr {
                Ok(type_of_value(s, left))
            } else {
                ir_type_spec(e.ctype, e.location)
            };
            if let Ok(ty) = operation {
                if floating(e.ctype) {
                    if let Some(inst) = float_inst(operator) {
                        instruction_is_sound(s, inst, left, right);
                    }
                } else {
                    integer_operation_is_sound(
                        s,
                        int_inst(operator, signed_integer(left_type)),
                        ty,
                        left_type,
                        right_type,
                        left,
                        right,
                    );
                }
            }
        },
    }
}

proof fn signature_params_are_sound(s: Lowering, types: Seq<IrType>, index: nat)
    ensures
        kept(s, signature_params_from(s, types, index)),
        state_sound(s) ==> state_sound(signature_params_from(s, types, index)),
    decreases types.len() - index,
{
    if index < types.len() {
        signature_params_are_sound(
            did(s, Op::SignatureParam { ty: types[index as int] }),
            types,
            index + 1,
        );
    }
}

proof fn call_arguments_are_sound(s: Lowering, values: Seq<usize>, index: nat)
    ensures
        kept(s, call_arguments_from(s, values, index)),
        state_sound(s) && (forall|i: int|
            0 <= i < values.len() ==> value_made(s, #[trigger] values[i])) ==> state_sound(
            call_arguments_from(s, values, index),
        ),
    decreases values.len() - index,
{
    if index < values.len() {
        call_arguments_are_sound(
            did(s, Op::CallArgument { value: values[index as int] }),
            values,
            index + 1,
        );
    }
}

/// Whether a call target was made.
pub open spec fn target_made(s: Lowering, target: CallTarget) -> bool {
    &&& target.signature < s.ops.len()
    &&& s.ops[target.signature as int] is ImportSignature
    &&& target.function matches Some(function) ==> function < s.ops.len()
        && s.ops[function as int] is ImportFunction
    &&& target.result matches Some(address) ==> value_made(s, address)
}

proof fn call_opening_is_sound(
    s: Lowering,
    callee: FunctionType,
    direct: Option<usize>,
    types: Seq<IrType>,
    result: Option<IrType>,
    location: Location,
)
    ensures
        ({
            let (after, target) = call_opened(s, callee, direct, types, result, location);
            &&& kept(s, after)
            &&& state_sound(s) && after.ops.len() <= usize::MAX ==> {
                &&& state_sound(after)
                &&& target matches Ok(target) ==> target_made(after, target)
            }
            &&& target matches Ok(target) ==> (target.result is Some) == by_value_aggregate(
                *callee.return_type,
            )
        }),
{
    let s1 = did(s, Op::BeginSignature);
    signature_params_are_sound(s1, types, 0);
    let s2 = signature_params_from(s1, types, 0);
    let (s3, signature) = signature_spec(s, types, result);
    assert(kept(s, s3));
    let s4 = match direct {
        Some(index) => emitted(s3, Op::ImportFunction { index, signature }).0,
        None => s3,
    };
    assert(kept(s, s4));
    slot_is_sound(s4, *callee.return_type, location);
}

pub proof fn passing_is_sound(
    s: Lowering,
    value: usize,
    ctype: Type,
    parameter: Option<Type>,
    location: Location,
)
    ensures
        lowered_soundly(
            s,
            value_made(s, value),
            passed_spec(s, value, ctype, parameter, location),
        ),
{
    match parameter {
        Some(parameter) => {
            slot_is_sound(s, parameter, location);
            let (s1, result) = aggregate_slot_spec(s, parameter, location);
            if let Ok((_, address)) = result {
                copy_is_sound(s1, address, value, parameter, location);
            }
            if let Ok(ty) = abi_parameter_spec(parameter, location) {
                coercion_is_sound(s, value, ty, ctype);
            }
        },
        None => {
            if let Ok(ty) = promoted_spec(ctype, location) {
                coercion_is_sound(s, value, ty, ctype);
            }
        },
    }
}

/// Lowering an expression adds steps and changes nothing else: each step names
/// only earlier steps of the right kind, and so does the value. Locals, open
/// loops and switches, labels and reachability stay as they are, but for
/// locals that move from a variable to a stack slot when their address is
/// taken.
pub proof fn expression_is_lowered_soundly(s: Lowering, e: Expr)
    ensures
        lowered_soundly(s, true, expr_spec(s, e)),
    decreases e, 2nat,
{
    if let Ok(ty) = value_type_spec(e) {
        match e.expr {
            ExprType::Id(symbol) => name_is_sound(s, e, symbol.key),
            ExprType::StaticRef(value) => address_is_sound(s, *value),
            ExprType::Literal(literal) => literal_is_sound(s, literal, ty, e.location),
            ExprType::Noop(value) => expression_is_lowered_soundly(s, *value),
            ExprType::Cast(value) => cast_is_sound(s, e, *value, ty),
            ExprType::Sizeof(sized) => sizeof_is_sound(s, *sized, ty, e.location),
            ExprType::Comma(_, _) => comma_is_sound(s, e, ty),
            ExprType::Member(base, member) => member_is_sound(s, e, *base, member, ty),
            ExprType::Deref(pointer) => deref_is_sound(s, e, *pointer, ty),
            ExprType::Negate(value) => negation_is_sound(s, e, *value, ty),
            ExprType::BitwiseNot(value) => complement_is_sound(s, *value, ty),
            ExprType::PostIncrement(value, increment) => increment_is_sound(
                s,
                *value,
                increment,
                e.location,
            ),
            ExprType::Ternary(_, _, _) => ternary_is_sound(s, e, ty),
            ExprType::Binary(operator, left, right) => {
                if operator == BinaryOp::Assign {
                    assignment_is_sound(s, e);
                } else if operator == BinaryOp::LogicalAnd || operator == BinaryOp::LogicalOr {
                    logic_is_sound(s, e);
                } else if operator == BinaryOp::Sub && left.ctype.kind is Pointer
                    && right.ctype.kind is Pointer {
                    pointer_difference_is_sound(s, e);
                } else if (operator == BinaryOp::Add || operator == BinaryOp::Sub)
                    && left.ctype.kind is Pointer {
                    pointer_offset_is_sound(s, e, false);
                } else if operator == BinaryOp::Add && right.ctype.kind is Pointer {
                    pointer_offset_is_sound(s, e, true);
                } else {
                    operands_are_sound(s, e);
                }
            },
            ExprType::FuncCall(_, _) => call_is_sound(s, e),
        }
    }
}

pub proof fn condition_is_sound(s: Lowering, e: Expr)
    ensures
        lowered_soundly(s, true, condition_spec(s, e)),
    decreases e, 3nat,
{
    expression_is_lowered_soundly(s, e);
    if let (s1, Ok(value)) = expr_spec(s, e) {
        zero_test_is_sound(s1, value);
    }
}

proof fn address_is_sound(s: Lowering, value: Expr)
    ensures
        lowered_soundly(s, true, static_ref_spec(s, value)),
    decreases value, 4nat,
{
    stripped_is_part(value);
    let lvalue = stripped(value);
    match lvalue.expr {
        ExprType::Deref(pointer) => expression_is_lowered_soundly(s, *pointer),
        _ => lvalue_is_sound(s, lvalue),
    }
}

proof fn cast_is_sound(s: Lowering, e: Expr, value: Expr, ty: IrType)
    ensures
        lowered_soundly(s, true, cast_spec(s, e, value, ty)),
    decreases value, 4nat,
{
    expression_is_lowered_soundly(s, value);
    if let (s1, Ok(operand)) = expr_spec(s, value) {
        conversion_is_sound(s1, e, value, ty, operand);
    }
}

proof fn sizeof_is_sound(s: Lowering, sized: Type, ty: IrType, location: Location)
    ensures
        lowered_soundly(s, true, sizeof_spec(s, sized, ty, location)),
    decreases sized, 0nat,
{
    if let TypeKind::Array(element, ArrayType::Variable(bound)) = sized.kind {
        expression_is_lowered_soundly(s, *bound);
        if let (s1, Ok(bound)) = expr_spec(s, *bound) {
            let from = type_of_value(s1, bound);
            let (s2, value) = if from == ty {
                (s1, bound)
            } else if from.width() < ty.width() {
                emitted(s1, Op::Unary { inst: UnaryInst::Uextend, ty, value: bound })
            } else {
                emitted(s1, Op::Unary { inst: UnaryInst::Ireduce, ty, value: bound })
            };
            assert(made_soundly(s1, value_made(s1, bound), (s2, value)));
        }
    }
}

proof fn comma_is_sound(s: Lowering, e: Expr, ty: IrType)
    requires
        e.expr is Comma,
    ensures
        lowered_soundly(s, true, comma_spec(s, e, ty)),
    decreases e, 0nat,
{
    let right = *e.expr->Comma_1;
    expression_is_lowered_soundly(s, *e.expr->Comma_0);
    let (s1, _) = expr_spec(s, *e.expr->Comma_0);
    expression_is_lowered_soundly(s1, right);
    if let (s2, Ok(value)) = expr_spec(s1, right) {
        operand_is_sound(s2, value, ty, right.ctype);
    }
}

proof fn member_is_sound(s: Lowering, e: Expr, base: Expr, member: u32, ty: IrType)
    ensures
        lowered_soundly(s, true, member_spec(s, e, base, member, ty)),
    decreases base, 4nat,
{
    member_address_is_sound(s, base, member, e.location);
}

proof fn deref_is_sound(s: Lowering, e: Expr, pointer: Expr, ty: IrType)
    ensures
        lowered_soundly(s, true, deref_spec(s, e, pointer, ty)),
    decreases pointer, 4nat,
{
    expression_is_lowered_soundly(s, pointer);
    lvalue_is_sound(s, pointer);
    if let ExprType::Id(symbol) = pointer.expr {
        named_value_is_sound(s, symbol.key, ty, e.location);
    }
}

proof fn negation_is_sound(s: Lowering, e: Expr, value: Expr, ty: IrType)
    ensures
        lowered_soundly(s, true, negate_spec(s, e, value, ty)),
    decreases value, 4nat,
{
    expression_is_lowered_soundly(s, value);
    if let (s1, Ok(operand)) = expr_spec(s, value) {
        coercion_is_sound(s1, operand, ty, value.ctype);
    }
}

proof fn complement_is_sound(s: Lowering, value: Expr, ty: IrType)
    ensures
        lowered_soundly(s, true, bitwise_not_spec(s, value, ty)),
    decreases value, 4nat,
{
    expression_is_lowered_soundly(s, value);
    if let (s1, Ok(operand)) = expr_spec(s, value) {
        coercion_is_sound(s1, operand, ty, value.ctype);
    }
}

proof fn step_value_is_sound(s: Lowering, before: usize, step: i64, increment: bool)
    ensures
        made_soundly(s, value_made(s, before), stepped(s, before, step, increment)),
        state_sound(s) && value_made(s, before) && stepped(
            s,
            before,
            step,
            increment,
        ).0.ops.len() <= usize::MAX ==> type_of_value(
            stepped(s, before, step, increment).0,
            stepped(s, before, step, increment).1,
        ) == type_of_value(s, before),
{
    let ty = type_of_value(s, before);
    let (s1, amount) = emitted(s, step_constant(ty, step));
    instruction_is_sound(s1, step_inst(ty, increment), before, amount);
}

proof fn local_increment_is_sound(
    s: Lowering,
    key: u32,
    home: LocalHome,
    ty: IrType,
    step: i64,
    increment: bool,
)
    requires
        match home {
            LocalHome::Slot(slot) => s.stack_locals.contains_key(key) && s.stack_locals[key]
                == slot,
            LocalHome::Variable(variable) => s.variables.contains_key(key) && s.variables[key]
                == variable,
        },
    ensures
        lowered_soundly(s, true, local_increment_spec(s, home, ty, step, increment)),
{
    if state_sound(s) {
        locals_are_made(s, key);
    }
    match home {
        LocalHome::Slot(slot) => {
            let (s1, before) = emitted(s, Op::StackLoad { ty, slot });
            step_value_is_sound(s1, before, step, increment);
            let (s2, value) = stepped(s1, before, step, increment);
            kept_is_transitive(s, s1, s2);
        },
        LocalHome::Variable(variable) => {
            let (s1, before) = used_variable(s, variable);
            step_value_is_sound(s1, before, step, increment);
            let (s2, value) = stepped(s1, before, step, increment);
            kept_is_transitive(s, s1, s2);
        },
    }
}

proof fn memory_increment_is_sound(
    s: Lowering,
    address: usize,
    ty: IrType,
    step: i64,
    increment: bool,
)
    ensures
        lowered_soundly(
            s,
            value_made(s, address),
            memory_increment_spec(s, address, ty, step, increment),
        ),
{
    let (s1, before) = emitted(s, Op::Load { ty, address, offset: 0 });
    step_value_is_sound(s1, before, step, increment);
    let (s2, value) = stepped(s1, before, step, increment);
    kept_is_transitive(s, s1, s2);
}

proof fn increment_is_sound(s: Lowering, value: Expr, increment: bool, location: Location)
    ensures
        lowered_soundly(s, true, increment_spec(s, value, increment, location)),
    decreases value, 5nat,
{
    stripped_is_part(value);
    let lvalue = stripped(value);
    lvalue_is_sound(s, lvalue);
    let parts = scalar_step_spec(object_type(value), location);
    match local_home(s, lvalue) {
        Some(home) => {
            if let Ok((ty, step)) = parts {
                let key = lvalue.expr->Id_0.key;
                local_increment_is_sound(s, key, home, ty, step, increment);
            }
        },
        None => {
            if let (s1, Ok(address)) = lvalue_spec(s, lvalue) {
                if let Ok((ty, step)) = parts {
                    memory_increment_is_sound(s1, address, ty, step, increment);
                    let (s2, _) = memory_increment_spec(s1, address, ty, step, increment);
                    kept_is_transitive(s, s1, s2);
                }
            }
        },
    }
}

/// A block for each of two branches and one where they meet, which takes the
/// value of the whole.
pub struct Fork {
    pub yes_block: usize,
    pub no_block: usize,
    pub merge_block: usize,
    pub result: usize,
}

/// Whether the blocks and the value of a fork were made.
pub open spec fn fork_made(s: Lowering, fork: Fork) -> bool {
    &&& block_made(s, fork.yes_block)
    &&& block_made(s, fork.no_block)
    &&& block_made(s, fork.merge_block)
    &&& value_made(s, fork.result)
}

/// The blocks of a fork.
pub open spec fn forked(s: Lowering, ty: IrType) -> (Lowering, Fork) {
    let (s, yes_block) = emitted(s, Op::CreateBlock);
    let (s, no_block) = emitted(s, Op::CreateBlock);
    let (s, merge_block) = emitted(s, Op::CreateBlock);
    let (s, result) = emitted(s, Op::AppendBlockParam { block: merge_block, ty });
    (s, Fork { yes_block, no_block, merge_block, result })
}

/// Whether the blocks of a fork are made from `floor` on.
pub open spec fn fork_from(floor: nat, s: Lowering, fork: Fork) -> bool {
    s.ops.len() <= usize::MAX ==> floor <= fork.yes_block && floor <= fork.no_block && floor
        <= fork.merge_block
}

pub proof fn fork_is_sound(s: Lowering, ty: IrType)
    ensures
        kept(s, forked(s, ty).0),
        fork_from(s.ops.len(), forked(s, ty).0, forked(s, ty).1),
        state_sound(s) && forked(s, ty).0.ops.len() <= usize::MAX ==> state_sound(
            forked(s, ty).0,
        ) && fork_made(forked(s, ty).0, forked(s, ty).1),
{
}

/// One branch of a fork: its value goes to where the branches meet.
spec fn branch_taken(s: Lowering, e: Expr, ty: IrType, merge_block: usize) -> (
    Lowering,
    Result<(), ErrorView>,
) {
    match expr_spec(s, e) {
        (s, Err(error)) => (s, Err(error)),
        (s, Ok(value)) => {
            let (s, value) = coerced_operand(s, value, ty, e.ctype);
            (did(s, Op::JumpWith { block: merge_block, value }), Ok(()))
        },
    }
}

proof fn branch_is_sound(s: Lowering, e: Expr, ty: IrType, merge_block: usize)
    ensures
        kept(s, branch_taken(s, e, ty, merge_block).0),
        state_sound(s) && block_made(s, merge_block) && branch_taken(
            s,
            e,
            ty,
            merge_block,
        ).0.ops.len() <= usize::MAX ==> state_sound(branch_taken(s, e, ty, merge_block).0),
    decreases e, 3nat,
{
    expression_is_lowered_soundly(s, e);
    if let (s1, Ok(value)) = expr_spec(s, e) {
        operand_is_sound(s1, value, ty, e.ctype);
        let (s2, _) = coerced_operand(s1, value, ty, e.ctype);
        assert(kept(s, s2));
    }
}

pub proof fn sealed_entry_is_sound(s: Lowering, block: usize)
    ensures
        kept_from(block as nat, s, entered_sealed(s, block)),
        state_sound(s) && block_made(s, block) ==> state_sound(entered_sealed(s, block)),
{
}

proof fn merge_is_sound(s: Lowering, block: usize)
    ensures
        kept_from(block as nat, s, entered(did(s, Op::SealBlock { block }), block)),
        state_sound(s) && block_made(s, block) ==> state_sound(
            entered(did(s, Op::SealBlock { block }), block),
        ),
{
}

pub proof fn kept_is_transitive(a: Lowering, b: Lowering, c: Lowering)
    requires
        kept(a, b),
        kept(b, c),
    ensures
        kept(a, c),
{
    parts_are_kept(a.ops.len(), a, b, c);
}

/// What two parts keep one after the other, both keep.
pub proof fn parts_are_kept(floor: nat, a: Lowering, b: Lowering, c: Lowering)
    requires
        held(a, b),
        held(b, c),
        c.ops.len() <= usize::MAX ==> {
            &&& enters_from(floor, a.ops, b.ops)
            &&& stands_from(floor, a, b)
            &&& (enters_from(floor, b.ops, c.ops) && stands_from(floor, b, c)) || (floor
                <= b.ops.len() && kept(b, c))
        },
    ensures
        kept_from(floor, a, c),
{
}

proof fn fork_stays_made(before: Lowering, after: Lowering, fork: Fork)
    requires
        held(before, after),
    ensures
        fork_made(before, fork) ==> fork_made(after, fork),
{
}

/// A fork from its condition on.
spec fn fork_finished(
    s: Lowering,
    condition: usize,
    yes: Expr,
    no: Expr,
    ty: IrType,
    fork: Fork,
) -> Lowered {
    let s = did(s, Op::Branch { condition, yes: fork.yes_block, no: fork.no_block });
    match branch_taken(entered_sealed(s, fork.yes_block), yes, ty, fork.merge_block) {
        (s, Err(error)) => (s, Err(error)),
        (s, Ok(_)) => match branch_taken(
            entered_sealed(s, fork.no_block),
            no,
            ty,
            fork.merge_block,
        ) {
            (s, Err(error)) => (s, Err(error)),
            (s, Ok(_)) => (
                entered(did(s, Op::SealBlock { block: fork.merge_block }), fork.merge_block),
                Ok(fork.result),
            ),
        },
    }
}

proof fn finished_fork_is_sound(
    floor: nat,
    s: Lowering,
    e: Expr,
    condition: usize,
    ty: IrType,
    fork: Fork,
)
    requires
        e.expr is Ternary,
        floor <= s.ops.len(),
        fork_from(floor, s, fork),
    ensures
        lowered_from(
            floor,
            s,
            value_made(s, condition) && fork_made(s, fork),
            fork_finished(
                s,
                condition,
                *e.expr->Ternary_1,
                *e.expr->Ternary_2,
                ty,
                fork,
            ),
        ),
    decreases e, 0nat,
{
    let yes = *e.expr->Ternary_1;
    let no = *e.expr->Ternary_2;
    let s1 = did(s, Op::Branch { condition, yes: fork.yes_block, no: fork.no_block });
    assert(kept_from(floor, s, s1));
    fork_stays_made(s, s1, fork);
    sealed_entry_is_sound(s1, fork.yes_block);
    let s2 = entered_sealed(s1, fork.yes_block);
    parts_are_kept(floor, s, s1, s2);
    fork_stays_made(s, s2, fork);
    branch_is_sound(s2, yes, ty, fork.merge_block);
    let s3 = branch_taken(s2, yes, ty, fork.merge_block).0;
    parts_are_kept(floor, s, s2, s3);
    fork_stays_made(s, s3, fork);
    sealed_entry_is_sound(s3, fork.no_block);
    let s4 = entered_sealed(s3, fork.no_block);
    parts_are_kept(floor, s, s3, s4);
    fork_stays_made(s, s4, fork);
    branch_is_sound(s4, no, ty, fork.merge_block);
    let s5 = branch_taken(s4, no, ty, fork.merge_block).0;
    parts_are_kept(floor, s, s4, s5);
    fork_stays_made(s, s5, fork);
    merge_is_sound(s5, fork.merge_block);
    let s6 = entered(did(s5, Op::SealBlock { block: fork.merge_block }), fork.merge_block);
    parts_are_kept(floor, s, s5, s6);
    fork_stays_made(s, s6, fork);
}

pub proof fn ternary_is_sound(s: Lowering, e: Expr, ty: IrType)
    requires
        e.expr is Ternary,
    ensures
        lowered_soundly(s, true, ternary_spec(s, e, ty)),
    decreases e, 1nat,
{
    condition_is_sound(s, *e.expr->Ternary_0);
    if let (s1, Ok(condition)) = condition_spec(s, *e.expr->Ternary_0) {
        fork_is_sound(s1, ty);
        let (s2, fork) = forked(s1, ty);
        finished_fork_is_sound(s1.ops.len(), s2, e, condition, ty, fork);
        let finished = fork_finished(
            s2,
            condition,
            *e.expr->Ternary_1,
            *e.expr->Ternary_2,
            ty,
            fork,
        );
        assert(ternary_spec(s, e, ty) == finished);
        parts_are_kept(s1.ops.len(), s1, s2, finished.0);
        kept_is_transitive(s, s1, finished.0);
    }
}

proof fn assignment_is_sound(s: Lowering, e: Expr)
    requires
        e.expr is Binary,
    ensures
        lowered_soundly(s, true, assign_spec(s, e)),
    decreases e, 0nat,
{
    let left = *e.expr->Binary_1;
    let right = *e.expr->Binary_2;
    stripped_is_part(left);
    let target = stripped(left);
    if stored_as_object(target.ctype) {
        lvalue_is_sound(s, target);
        if let (s1, Ok(destination)) = lvalue_spec(s, target) {
            expression_is_lowered_soundly(s1, right);
            if let (s2, Ok(source)) = expr_spec(s1, right) {
                copy_is_sound(s2, destination, source, target.ctype, e.location);
            }
        }
    } else {
        expression_is_lowered_soundly(s, right);
        if let (s1, Ok(value)) = expr_spec(s, right) {
            match target.expr {
                ExprType::Id(symbol) => {
                    named_assignment_is_sound(s1, e, left, symbol, value, right.ctype);
                },
                _ => {
                    lvalue_is_sound(s1, target);
                    if let (s2, Ok(address)) = lvalue_spec(s1, target) {
                        store_is_sound(
                            s2,
                            address,
                            target.ctype,
                            left.location,
                            value,
                            right.ctype,
                        );
                    }
                },
            }
        }
    }
}

/// The short way through a logical operator, up to the start of the long one.
pub open spec fn shortcut(s: Lowering, both: bool, left_true: usize, fork: Fork) -> Lowering {
    let s = if both {
        did(s, Op::Branch { condition: left_true, yes: fork.yes_block, no: fork.no_block })
    } else {
        did(s, Op::Branch { condition: left_true, yes: fork.no_block, no: fork.yes_block })
    };
    let s = did(s, Op::SealBlock { block: fork.no_block });
    let s = entered(s, fork.no_block);
    let (s, short_value) = emitted(
        s,
        Op::Iconst {
            ty: IrType::I32,
            value: if both {
                0
            } else {
                1
            },
        },
    );
    let s = did(s, Op::JumpWith { block: fork.merge_block, value: short_value });
    let s = did(s, Op::SealBlock { block: fork.yes_block });
    entered(s, fork.yes_block)
}

pub proof fn shortcut_is_sound(
    floor: nat,
    s: Lowering,
    both: bool,
    left_true: usize,
    fork: Fork,
)
    requires
        fork_from(floor, s, fork),
    ensures
        kept_from(floor, s, shortcut(s, both, left_true, fork)),
        state_sound(s) && value_made(s, left_true) && fork_made(s, fork) && shortcut(
            s,
            both,
            left_true,
            fork,
        ).ops.len() <= usize::MAX ==> state_sound(shortcut(s, both, left_true, fork)),
{
}

/// The long way through a logical operator.
spec fn long_way(s: Lowering, right: Expr, fork: Fork) -> Lowered {
    match condition_spec(s, right) {
        (s, Err(error)) => (s, Err(error)),
        (s, Ok(right_true)) => {
            let (s, right_result) = emitted(
                s,
                Op::Unary { inst: UnaryInst::Uextend, ty: IrType::I32, value: right_true },
            );
            let s = did(s, Op::JumpWith { block: fork.merge_block, value: right_result });
            let s = did(s, Op::SealBlock { block: fork.merge_block });
            (entered(s, fork.merge_block), Ok(fork.result))
        },
    }
}

proof fn long_way_is_sound(floor: nat, s: Lowering, right: Expr, fork: Fork)
    requires
        floor <= s.ops.len(),
        fork_from(floor, s, fork),
    ensures
        lowered_from(floor, s, fork_made(s, fork), long_way(s, right, fork)),
    decreases right, 4nat,
{
    condition_is_sound(s, right);
    if let (s1, Ok(right_true)) = condition_spec(s, right) {
        fork_stays_made(s, s1, fork);
        let (s2, right_result) = emitted(
            s1,
            Op::Unary { inst: UnaryInst::Uextend, ty: IrType::I32, value: right_true },
        );
        let s3 = did(s2, Op::JumpWith { block: fork.merge_block, value: right_result });
        assert(kept(s1, s3));
        fork_stays_made(s1, s3, fork);
        merge_is_sound(s3, fork.merge_block);
        let s4 = entered(did(s3, Op::SealBlock { block: fork.merge_block }), fork.merge_block);
        parts_are_kept(floor, s1, s3, s4);
        fork_stays_made(s1, s4, fork);
        parts_are_kept(floor, s, s1, s4);
    }
}

proof fn logic_is_sound(s: Lowering, e: Expr)
    requires
        e.expr is Binary,
    ensures
        lowered_soundly(s, true, logical_spec(s, e)),
    decreases e, 0nat,
{
    let both = e.expr->Binary_0 == BinaryOp::LogicalAnd;
    let right = *e.expr->Binary_2;
    condition_is_sound(s, *e.expr->Binary_1);
    if let (s1, Ok(left_true)) = condition_spec(s, *e.expr->Binary_1) {
        fork_is_sound(s1, IrType::I32);
        let (s2, fork) = forked(s1, IrType::I32);
        let floor = s1.ops.len();
        shortcut_is_sound(floor, s2, both, left_true, fork);
        let s3 = shortcut(s2, both, left_true, fork);
        parts_are_kept(floor, s1, s2, s3);
        fork_stays_made(s2, s3, fork);
        long_way_is_sound(floor, s3, right, fork);
        let finished = long_way(s3, right, fork);
        assert(logical_spec(s, e) == finished);
        parts_are_kept(floor, s1, s3, finished.0);
        kept_is_transitive(s, s1, finished.0);
    }
}

proof fn pointer_difference_is_sound(s: Lowering, e: Expr)
    requires
        e.expr is Binary,
    ensures
        lowered_soundly(s, true, pointer_difference_spec(s, e)),
    decreases e, 0nat,
{
    let left = *e.expr->Binary_1;
    let right = *e.expr->Binary_2;
    expression_is_lowered_soundly(s, left);
    if let (s1, Ok(left_value)) = expr_spec(s, left) {
        expression_is_lowered_soundly(s1, right);
        if let (s2, Ok(right_value)) = expr_spec(s1, right) {
            instruction_is_sound(s2, BinaryInst::Isub, left_value, right_value);
        }
    }
}

proof fn pointer_offset_is_sound(s: Lowering, e: Expr, swapped: bool)
    requires
        e.expr is Binary,
    ensures
        lowered_soundly(s, true, pointer_offset_spec(s, e, swapped)),
    decreases e, 0nat,
{
    let pointer = if swapped {
        *e.expr->Binary_2
    } else {
        *e.expr->Binary_1
    };
    let index = if swapped {
        *e.expr->Binary_1
    } else {
        *e.expr->Binary_2
    };
    expression_is_lowered_soundly(s, pointer);
    if let (s1, Ok(base)) = expr_spec(s, pointer) {
        expression_is_lowered_soundly(s1, index);
        if let (s2, Ok(value)) = expr_spec(s1, index) {
            coercion_is_sound(s2, value, IrType::I32, index.ctype);
            assert(kept(s, s2));
        }
    }
}

proof fn operands_are_sound(s: Lowering, e: Expr)
    requires
        e.expr is Binary,
    ensures
        lowered_soundly(s, true, binary_spec(s, e)),
    decreases e, 0nat,
{
    let left = *e.expr->Binary_1;
    let right = *e.expr->Binary_2;
    expression_is_lowered_soundly(s, left);
    if let (s1, Ok(left_value)) = expr_spec(s, left) {
        expression_is_lowered_soundly(s1, right);
        if let (s2, Ok(right_value)) = expr_spec(s1, right) {
            operation_is_sound(
                s2,
                e,
                e.expr->Binary_0,
                left.ctype,
                right.ctype,
                left_value,
                right_value,
            );
        }
    }
}

pub proof fn lvalue_is_sound(s: Lowering, lvalue: Expr)
    ensures
        lowered_soundly(s, true, lvalue_spec(s, lvalue)),
    decreases lvalue, 3nat,
{
    match lvalue.expr {
        ExprType::Id(symbol) => {
            local_address_is_sound(s, symbol.key, lvalue.location);
            symbol_is_sound(s, symbol.key, 0, lvalue.location);
        },
        ExprType::Deref(pointer) => expression_is_lowered_soundly(s, *pointer),
        ExprType::Member(base, member) => member_address_is_sound(
            s,
            *base,
            member,
            lvalue.location,
        ),
        ExprType::Binary(BinaryOp::Add, _, _) => expression_is_lowered_soundly(s, lvalue),
        ExprType::Noop(inner) => lvalue_is_sound(s, *inner),
        ExprType::Cast(inner) => lvalue_is_sound(s, *inner),
        _ => {},
    }
}

proof fn member_address_is_sound(s: Lowering, base: Expr, member: u32, location: Location)
    ensures
        lowered_soundly(s, true, member_address_spec(s, base, member, location)),
    decreases base, 3nat,
{
    stripped_is_part(base);
    let object = stripped(base);
    match object.expr {
        ExprType::Id(symbol) => object_is_sound(s, symbol.key, location),
        ExprType::Deref(pointer) => expression_is_lowered_soundly(s, *pointer),
        ExprType::Member(parent, parent_member) => member_address_is_sound(
            s,
            *parent,
            parent_member,
            location,
        ),
        ExprType::Binary(BinaryOp::Add, _, _) => expression_is_lowered_soundly(s, object),
        _ => {},
    }
}

/// Whether each value was made.
pub open spec fn values_made(s: Lowering, values: Seq<usize>) -> bool {
    forall|i: int| 0 <= i < values.len() ==> value_made(s, #[trigger] values[i])
}

proof fn arguments_are_sound(
    s: Lowering,
    arguments: Seq<Expr>,
    parameters: Seq<Symbol>,
    index: nat,
    values: Seq<usize>,
    location: Location,
)
    ensures
        ({
            let (after, result) = arguments_spec(
                s,
                arguments,
                parameters,
                index,
                values,
                location,
            );
            &&& kept(s, after)
            &&& state_sound(s) && values_made(s, values) && after.ops.len() <= usize::MAX ==> {
                &&& state_sound(after)
                &&& result matches Ok(values) ==> values_made(after, values)
            }
        }),
    decreases arguments, arguments.len() - index,
{
    if index < arguments.len() {
        let argument = arguments[index as int];
        expression_is_lowered_soundly(s, argument);
        if let (s1, Ok(value)) = expr_spec(s, argument) {
            let parameter = if index < parameters.len() {
                Some(*parameters[index as int].ctype)
            } else {
                None
            };
            passing_is_sound(s1, value, argument.ctype, parameter, location);
            if let (s2, Ok(value)) = passed_spec(s1, value, argument.ctype, parameter, location) {
                assert(kept(s, s2));
                arguments_are_sound(
                    s2,
                    arguments,
                    parameters,
                    index + 1,
                    values.push(value),
                    location,
                );
            }
        }
    }
}

proof fn finished_call_is_sound(s: Lowering, op: Op, callee: FunctionType, target: CallTarget)
    requires
        op is Call || op is CallIndirect,
        target.result is None && !(callee.return_type.kind is Void) ==> makes_value(op),
    ensures
        lowered_soundly(
            s,
            names_earlier(s.ops, s.ops.len() as int, op) && (
            target.result matches Some(address) ==> value_made(s, address)),
            called(s, op, callee, target),
        ),
{
}

/// The end of a call: the arguments are handed over and the call is made.
spec fn call_ended(
    s: Lowering,
    function: Expr,
    callee: FunctionType,
    target: CallTarget,
    result: Option<IrType>,
    values: Seq<usize>,
) -> Lowered {
    match target.function {
        Some(imported) => called(
            call_arguments_from(s, values, 0),
            Op::Call { function: imported, result },
            callee,
            target,
        ),
        None => match expr_spec(s, function) {
            (s, Err(error)) => (s, Err(error)),
            (s, Ok(address)) => called(
                call_arguments_from(s, values, 0),
                Op::CallIndirect { signature: target.signature, callee: address, result },
                callee,
                target,
            ),
        },
    }
}

proof fn call_end_is_sound(
    s: Lowering,
    function: Expr,
    callee: FunctionType,
    target: CallTarget,
    result: Option<IrType>,
    values: Seq<usize>,
)
    requires
        target.result is None && !(callee.return_type.kind is Void) ==> result is Some,
    ensures
        lowered_soundly(
            s,
            target_made(s, target) && values_made(s, values),
            call_ended(s, function, callee, target, result, values),
        ),
    decreases function, 3nat,
{
    match target.function {
        Some(imported) => {
            call_arguments_are_sound(s, values, 0);
            let s1 = call_arguments_from(s, values, 0);
            finished_call_is_sound(
                s1,
                Op::Call { function: imported, result },
                callee,
                target,
            );
        },
        None => {
            expression_is_lowered_soundly(s, function);
            if let (s1, Ok(address)) = expr_spec(s, function) {
                call_arguments_are_sound(s1, values, 0);
                let s2 = call_arguments_from(s1, values, 0);
                assert(kept(s, s2));
                finished_call_is_sound(
                    s2,
                    Op::CallIndirect { signature: target.signature, callee: address, result },
                    callee,
                    target,
                );
            }
        },
    }
}

proof fn call_is_sound(s: Lowering, e: Expr)
    requires
        e.expr is FuncCall,
    ensures
        lowered_soundly(s, true, call_spec(s, e)),
    decreases e, 0nat,
{
    let function = *e.expr->FuncCall_0;
    let arguments = e.expr->FuncCall_1@;
    let location = e.location;
    if let Ok(callee) = callee_type(function.ctype, location) {
        if let Ok(direct) = direct_callee(s, function, location) {
            if let Ok(types) = call_types_spec(callee, arguments, location) {
                if let Ok(result) = return_type_spec(callee, location) {
                    call_opening_is_sound(s, callee, direct, types, result, location);
                    if let (s1, Ok(target)) = call_opened(
                        s,
                        callee,
                        direct,
                        types,
                        result,
                        location,
                    ) {
                        let first = match target.result {
                            Some(address) => seq![address],
                            None => Seq::empty(),
                        };
                        let named = parameters(callee);
                        arguments_are_sound(s1, arguments, named, 0, first, location);
                        if let (s2, Ok(values)) = arguments_spec(
                            s1,
                            arguments,
                            named,
                            0,
                            first,
                            location,
                        ) {
                            assert(kept(s, s2));
                            call_end_is_sound(s2, function, callee, target, result, values);
                            let ended = call_ended(s2, function, callee, target, result, values);
                            assert(kept(s2, ended.0));
                        }
                    }
                }
            }
        }
    }
}

} // verus!
