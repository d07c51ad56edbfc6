//! The steps that each form of expression stands for.

use crate::error::{unsupported_view, ErrorView, Location};
use crate::hir::{
    ArrayType, BinaryOp, ComparisonToken, Expr, ExprType, Field, FunctionType, LiteralValue, Symbol,
    Type, TypeKind,
};
use crate::ir::{BinaryInst, FloatCC, IntCC, IrType, Op, UnaryInst};
use crate::lower::state::{
    aggregate_slot_spec, coerced, compared_to_zero, copied, did, emitted, entered, entered_sealed,
    extension, local_address_spec, string_address_spec, symbol_address_spec, type_of_value,
    used_variable, Lowering,
};
use crate::types::{
    abi_parameter_spec, address_valued, align_or_spec, aligned, by_value_aggregate, floating,
    ir_type_spec, parameters, promoted_spec, signed_integer, size_or_spec, stored_as_object,
    stripped, stripped_is_part,
};
use vstd::prelude::*;

verus! {

/// What lowering an expression leads to: the state, and the value or the failure.
pub type Lowered = (Lowering, Result<usize, ErrorView>);

/// The machine type in which the value of an expression is computed.
pub open spec fn value_type_spec(e: Expr) -> Result<IrType, ErrorView> {
    if e.ctype.kind is Void || address_valued(e.ctype) {
        Ok(IrType::I32)
    } else {
        ir_type_spec(e.ctype, e.location)
    }
}

/// What an expression stands for.
pub open spec fn expr_spec(s: Lowering, e: Expr) -> Lowered
    decreases e, 1nat,
{
    match value_type_spec(e) {
        Err(error) => (s, Err(error)),
        Ok(ty) => match e.expr {
            ExprType::Id(symbol) => id_spec(s, e, symbol.key),
            ExprType::StaticRef(value) => static_ref_spec(s, *value),
            ExprType::Literal(literal) => literal_spec(s, literal, ty, e.location),
            ExprType::Noop(value) => expr_spec(s, *value),
            ExprType::Cast(value) => cast_spec(s, e, *value, ty),
            ExprType::Sizeof(sized) => sizeof_spec(s, *sized, ty, e.location),
            ExprType::Comma(_, _) => comma_spec(s, e, ty),
            ExprType::Member(base, member) => member_spec(s, e, *base, member, ty),
            ExprType::Deref(pointer) => deref_spec(s, e, *pointer, ty),
            ExprType::Negate(value) => negate_spec(s, e, *value, ty),
            ExprType::BitwiseNot(value) => bitwise_not_spec(s, *value, ty),
            ExprType::PostIncrement(value, increment) => increment_spec(
                s,
                *value,
                increment,
                e.location,
            ),
            ExprType::Ternary(_, _, _) => ternary_spec(s, e, ty),
            ExprType::Binary(operator, left, right) => if operator == BinaryOp::Assign {
                assign_spec(s, e)
            } else if operator == BinaryOp::LogicalAnd || operator == BinaryOp::LogicalOr {
                logical_spec(s, e)
            } else if operator == BinaryOp::Sub && left.ctype.kind is Pointer
                && right.ctype.kind is Pointer {
                pointer_difference_spec(s, e)
            } else if (operator == BinaryOp::Add || operator == BinaryOp::Sub)
                && left.ctype.kind is Pointer {
                pointer_offset_spec(s, e, false)
            } else if operator == BinaryOp::Add && right.ctype.kind is Pointer {
                pointer_offset_spec(s, e, true)
            } else {
                binary_spec(s, e)
            },
            ExprType::FuncCall(_, _) => call_spec(s, e),
        },
    }
}

/// The value of an expression tested for being other than zero.
pub open spec fn condition_spec(s: Lowering, e: Expr) -> Lowered
    decreases e, 2nat,
{
    match expr_spec(s, e) {
        (s, Err(error)) => (s, Err(error)),
        (s, Ok(value)) => {
            let (s, test) = compared_to_zero(s, value);
            (s, Ok(test))
        },
    }
}

/// A name: the address of an object that has one, else the value of its variable.
pub open spec fn id_spec(s: Lowering, e: Expr, key: u32) -> Lowered {
    if s.stack_locals.contains_key(key) {
        let slot = s.stack_locals[key];
        if !address_valued(e.ctype) && s.variable_types.contains_key(key) {
            let (s, value) = emitted(s, Op::StackLoad { ty: s.variable_types[key], slot });
            (s, Ok(value))
        } else {
            let (s, value) = emitted(s, Op::StackAddr { slot });
            (s, Ok(value))
        }
    } else if s.variables.contains_key(key) {
        let (s, value) = used_variable(s, s.variables[key]);
        (s, Ok(value))
    } else if s.vla_bases.contains_key(key) {
        let (s, value) = used_variable(s, s.vla_bases[key]);
        (s, Ok(value))
    } else if s.tables.globals.contains_key(key) || s.tables.functions.contains_key(key) {
        symbol_address_spec(s, key, 0, e.location)
    } else {
        (
            s,
            Err(
                unsupported_view(
                    e.location,
                    "SIA32 identifier has no local or symbolic storage"@,
                ),
            ),
        )
    }
}

/// An address taken: `&*p` is `p`, anything else is the address of the lvalue.
pub open spec fn static_ref_spec(s: Lowering, value: Expr) -> Lowered
    decreases value, 3nat,
{
    proof {
        stripped_is_part(value);
    }
    let lvalue = stripped(value);
    match lvalue.expr {
        ExprType::Deref(pointer) => expr_spec(s, *pointer),
        _ => lvalue_spec(s, lvalue),
    }
}

/// A constant in the machine type of its expression.
pub open spec fn literal_spec(
    s: Lowering,
    literal: LiteralValue,
    ty: IrType,
    location: Location,
) -> Lowered {
    match literal {
        LiteralValue::Int(value) => {
            let (s, value) = emitted(s, Op::Iconst { ty, value });
            (s, Ok(value))
        },
        LiteralValue::UnsignedInt(value) => {
            let (s, value) = emitted(s, Op::Iconst { ty, value: value as i64 });
            (s, Ok(value))
        },
        LiteralValue::Char(value) => {
            let (s, value) = emitted(s, Op::Iconst { ty, value: value as i64 });
            (s, Ok(value))
        },
        LiteralValue::Float { double_bits, single_bits } => if ty == IrType::F32 {
            let (s, value) = emitted(s, Op::F32Const { bits: single_bits });
            (s, Ok(value))
        } else {
            let (s, value) = emitted(s, Op::F64Const { bits: double_bits });
            (s, Ok(value))
        },
        LiteralValue::Str(bytes) => string_address_spec(s, bytes@, location),
    }
}

/// A conversion of `value` to the type of `e`.
pub open spec fn cast_spec(s: Lowering, e: Expr, value: Expr, ty: IrType) -> Lowered
    decreases value, 3nat,
{
    match expr_spec(s, value) {
        (s, Err(error)) => (s, Err(error)),
        (s, Ok(operand)) => if e.ctype.kind is Void {
            let (s, value) = emitted(s, Op::Iconst { ty: IrType::I32, value: 0 });
            (s, Ok(value))
        } else if stored_as_object(value.ctype) && e.ctype.kind is Pointer {
            (s, Ok(operand))
        } else {
            converted(s, e, value, ty, operand)
        },
    }
}

/// The conversion of a computed operand.
pub open spec fn converted(
    s: Lowering,
    e: Expr,
    value: Expr,
    ty: IrType,
    operand: usize,
) -> Lowered {
    let from = type_of_value(s, operand);
    if from == ty {
        (s, Ok(operand))
    } else {
        let inst = if from.floating() && ty.floating() {
            if from == IrType::F32 {
                Some(UnaryInst::Fpromote)
            } else {
                Some(UnaryInst::Fdemote)
            }
        } else if from.floating() {
            if signed_integer(e.ctype) {
                Some(UnaryInst::FcvtToSintSat)
            } else {
                Some(UnaryInst::FcvtToUintSat)
            }
        } else if ty.floating() {
            if signed_integer(value.ctype) {
                Some(UnaryInst::FcvtFromSint)
            } else {
                Some(UnaryInst::FcvtFromUint)
            }
        } else if from.width() < ty.width() {
            Some(extension(value.ctype))
        } else if from.width() > ty.width() {
            Some(UnaryInst::Ireduce)
        } else {
            None
        };
        match inst {
            Some(inst) => {
                let (s, value) = emitted(s, Op::Unary { inst, ty, value: operand });
                (s, Ok(value))
            },
            None => (
                s,
                Err(
                    unsupported_view(
                        e.location,
                        "SIA32 cast lowering is not implemented from "@ + value.ctype.repr@
                            + " to "@ + e.ctype.repr@,
                    ),
                ),
            ),
        }
    }
}

/// The size of a type: computed at run time for an array of variable length.
pub open spec fn sizeof_spec(s: Lowering, sized: Type, ty: IrType, location: Location) -> Lowered
    decreases sized, 0nat,
{
    match sized.kind {
        TypeKind::Array(element, ArrayType::Variable(bound)) => match size_or_spec(
            *element,
            location,
            "sizeof VLA element type must be complete"@,
        ) {
            Err(error) => (s, Err(error)),
            Ok(size) => match expr_spec(s, *bound) {
                (s, Err(error)) => (s, Err(error)),
                (s, Ok(bound)) => {
                    let from = type_of_value(s, bound);
                    let (s, bound) = if from == ty {
                        (s, bound)
                    } else if from.width() < ty.width() {
                        emitted(s, Op::Unary { inst: UnaryInst::Uextend, ty, value: bound })
                    } else {
                        emitted(s, Op::Unary { inst: UnaryInst::Ireduce, ty, value: bound })
                    };
                    let (s, scale) = emitted(s, Op::Iconst { ty, value: size as i64 });
                    let (s, product) = binary_op(s, BinaryInst::Imul, bound, scale);
                    (s, Ok(product))
                },
            },
        },
        _ => match size_or_spec(sized, location, "sizeof requires a complete SIA32 type"@) {
            Err(error) => (s, Err(error)),
            Ok(size) => {
                let (s, value) = emitted(s, Op::Iconst { ty, value: size as i64 });
                (s, Ok(value))
            },
        },
    }
}

/// An instruction on two values, of the type of the first.
pub open spec fn binary_op(s: Lowering, inst: BinaryInst, left: usize, right: usize) -> (
    Lowering,
    usize,
) {
    emitted(s, Op::Binary { inst, ty: type_of_value(s, left), left, right })
}

/// The value of a branch or operand in the machine type of the whole, unless
/// it is an address already.
pub open spec fn coerced_operand(s: Lowering, value: usize, ty: IrType, source: Type) -> (
    Lowering,
    usize,
) {
    if address_valued(source) {
        (s, value)
    } else {
        coerced(s, value, ty, source)
    }
}

/// The left operand, for its effects, and the value of the right one.
pub open spec fn comma_spec(s: Lowering, e: Expr, ty: IrType) -> Lowered
    decreases e, 0nat,
    when e.expr is Comma
{
    let right = *e.expr->Comma_1;
    match expr_spec(s, *e.expr->Comma_0) {
        (s, Err(error)) => (s, Err(error)),
        (s, Ok(_)) => match expr_spec(s, right) {
            (s, Err(error)) => (s, Err(error)),
            (s, Ok(value)) => {
                let (s, value) = coerced_operand(s, value, ty, right.ctype);
                (s, Ok(value))
            },
        },
    }
}

/// A member: its address where it is an object, else its value.
pub open spec fn member_spec(s: Lowering, e: Expr, base: Expr, member: u32, ty: IrType) -> Lowered
    decreases base, 3nat,
{
    match member_address_spec(s, base, member, e.location) {
        (s, Err(error)) => (s, Err(error)),
        (s, Ok(address)) => if address_valued(e.ctype) {
            (s, Ok(address))
        } else {
            let (s, value) = emitted(s, Op::Load { ty, address, offset: 0 });
            (s, Ok(value))
        },
    }
}

/// A value of type `ty` read from an address.
pub open spec fn loaded(lowered: Lowered, ty: IrType) -> Lowered {
    match lowered {
        (s, Err(error)) => (s, Err(error)),
        (s, Ok(address)) => {
            let (s, value) = emitted(s, Op::Load { ty, address, offset: 0 });
            (s, Ok(value))
        },
    }
}

/// What a pointer points at. Reading a local that lives in a variable reads
/// the variable.
pub open spec fn deref_spec(s: Lowering, e: Expr, pointer: Expr, ty: IrType) -> Lowered
    decreases pointer, 3nat,
{
    if address_valued(e.ctype) {
        expr_spec(s, pointer)
    } else {
        match pointer.expr {
            ExprType::Id(symbol) => deref_id_spec(s, symbol.key, ty, e.location),
            ExprType::Member(_, _) => loaded(lvalue_spec(s, pointer), ty),
            ExprType::Noop(_) => loaded(lvalue_spec(s, pointer), ty),
            ExprType::Cast(_) => loaded(lvalue_spec(s, pointer), ty),
            _ => loaded(expr_spec(s, pointer), ty),
        }
    }
}

/// The value of a named object.
pub open spec fn deref_id_spec(s: Lowering, key: u32, ty: IrType, location: Location) -> Lowered {
    if s.stack_locals.contains_key(key) {
        let slot = s.stack_locals[key];
        if s.variable_types.contains_key(key) {
            let (s, value) = emitted(s, Op::StackLoad { ty: s.variable_types[key], slot });
            (s, Ok(value))
        } else {
            let (s, value) = emitted(s, Op::StackAddr { slot });
            (s, Ok(value))
        }
    } else if s.variables.contains_key(key) {
        let (s, value) = used_variable(s, s.variables[key]);
        (s, Ok(value))
    } else {
        loaded(symbol_address_spec(s, key, 0, location), ty)
    }
}

/// A negation: of a number as such, of an integer as zero less it.
pub open spec fn negate_spec(s: Lowering, e: Expr, value: Expr, ty: IrType) -> Lowered
    decreases value, 3nat,
{
    match expr_spec(s, value) {
        (s, Err(error)) => (s, Err(error)),
        (s, Ok(operand)) => if floating(e.ctype) {
            let (s, value) = emitted(
                s,
                Op::Unary {
                    inst: UnaryInst::Fneg,
                    ty: type_of_value(s, operand),
                    value: operand,
                },
            );
            (s, Ok(value))
        } else {
            let (s, operand) = coerced(s, operand, ty, value.ctype);
            let (s, zero) = emitted(s, Op::Iconst { ty, value: 0 });
            let (s, value) = binary_op(s, BinaryInst::Isub, zero, operand);
            (s, Ok(value))
        },
    }
}

/// A complement: the exclusive or with all ones.
pub open spec fn bitwise_not_spec(s: Lowering, value: Expr, ty: IrType) -> Lowered
    decreases value, 3nat,
{
    match expr_spec(s, value) {
        (s, Err(error)) => (s, Err(error)),
        (s, Ok(operand)) => {
            let (s, operand) = coerced(s, operand, ty, value.ctype);
            let (s, ones) = emitted(s, Op::Iconst { ty, value: (-1) as i64 });
            let (s, value) = binary_op(s, BinaryInst::Bxor, operand, ones);
            (s, Ok(value))
        },
    }
}

/// By how much `++` changes an lvalue of the type: one, or the size of what a
/// pointer points at.
pub open spec fn step_spec(ctype: Type, location: Location) -> Result<i64, ErrorView> {
    match ctype.kind {
        TypeKind::Pointer(pointee) => match size_or_spec(
            *pointee,
            location,
            "SIA32 pointer increment requires a complete pointee type"@,
        ) {
            Err(error) => Err(error),
            Ok(bytes) => if bytes > i64::MAX {
                Err(
                    unsupported_view(
                        location,
                        "SIA32 pointer increment step does not fit in i64"@,
                    ),
                )
            } else {
                Ok(bytes as i64)
            },
        },
        _ => Ok(1),
    }
}

/// The type of the object that an lvalue stands for: that of the lvalue inside
/// the conversions around it.
pub open spec fn object_type(lvalue: Expr) -> Type {
    stripped(lvalue).ctype
}

/// The machine type of a scalar, and by how much `++` changes it.
pub open spec fn scalar_step_spec(ctype: Type, location: Location) -> Result<
    (IrType, i64),
    ErrorView,
> {
    match ir_type_spec(ctype, location) {
        Err(error) => Err(error),
        Ok(ty) => match step_spec(ctype, location) {
            Err(error) => Err(error),
            Ok(step) => Ok((ty, step)),
        },
    }
}

/// The constant by which a value of the machine type is moved: the step, or
/// one where the type is a floating-point type.
pub open spec fn step_constant(ty: IrType, step: i64) -> Op {
    match ty {
        IrType::F32 => Op::F32Const { bits: 0x3f80_0000 },
        IrType::F64 => Op::F64Const { bits: 0x3ff0_0000_0000_0000 },
        _ => Op::Iconst { ty, value: step },
    }
}

/// The instruction that moves a value of the machine type up or down.
pub open spec fn step_inst(ty: IrType, increment: bool) -> BinaryInst {
    if ty.floating() {
        if increment {
            BinaryInst::Fadd
        } else {
            BinaryInst::Fsub
        }
    } else if increment {
        BinaryInst::Iadd
    } else {
        BinaryInst::Isub
    }
}

/// A value moved up or down by a constant.
pub open spec fn stepped(s: Lowering, before: usize, step: i64, increment: bool) -> (
    Lowering,
    usize,
) {
    let ty = type_of_value(s, before);
    let (s, amount) = emitted(s, step_constant(ty, step));
    binary_op(s, step_inst(ty, increment), before, amount)
}

/// A local changed by one step where it lives.
pub open spec fn local_increment_spec(
    s: Lowering,
    home: LocalHome,
    ty: IrType,
    step: i64,
    increment: bool,
) -> Lowered {
    match home {
        LocalHome::Slot(slot) => {
            let (s, before) = emitted(s, Op::StackLoad { ty, slot });
            let (s, value) = stepped(s, before, step, increment);
            (did(s, Op::StackStore { value, slot, offset: 0 }), Ok(before))
        },
        LocalHome::Variable(variable) => {
            let (s, before) = used_variable(s, variable);
            let (s, value) = stepped(s, before, step, increment);
            (did(s, Op::DefVar { variable, value }), Ok(before))
        },
    }
}

/// The object at an address changed by one step.
pub open spec fn memory_increment_spec(
    s: Lowering,
    address: usize,
    ty: IrType,
    step: i64,
    increment: bool,
) -> Lowered {
    let (s, before) = emitted(s, Op::Load { ty, address, offset: 0 });
    let (s, value) = stepped(s, before, step, increment);
    (did(s, Op::Store { value, address, offset: 0 }), Ok(before))
}

/// An lvalue changed by one step; the value is the one before the change. A
/// local is read and written where it lives, any other object through its
/// address, which is computed once.
pub open spec fn increment_spec(
    s: Lowering,
    value: Expr,
    increment: bool,
    location: Location,
) -> Lowered
    decreases value, 3nat,
{
    proof {
        stripped_is_part(value);
    }
    let lvalue = stripped(value);
    match local_home(s, lvalue) {
        Some(home) => match scalar_step_spec(object_type(value), location) {
            Err(error) => (s, Err(error)),
            Ok((ty, step)) => local_increment_spec(s, home, ty, step, increment),
        },
        None => match lvalue_spec(s, lvalue) {
            (s, Err(error)) => (s, Err(error)),
            (s, Ok(address)) => match scalar_step_spec(object_type(value), location) {
                Err(error) => (s, Err(error)),
                Ok((ty, step)) => memory_increment_spec(s, address, ty, step, increment),
            },
        },
    }
}

/// Where a local lives.
pub enum LocalHome {
    Slot(usize),
    Variable(usize),
}

/// Where the local that an lvalue names lives.
pub open spec fn local_home(s: Lowering, lvalue: Expr) -> Option<LocalHome> {
    match lvalue.expr {
        ExprType::Id(symbol) => if s.stack_locals.contains_key(symbol.key) {
            Some(LocalHome::Slot(s.stack_locals[symbol.key]))
        } else if s.variables.contains_key(symbol.key) {
            Some(LocalHome::Variable(s.variables[symbol.key]))
        } else {
            None
        },
        _ => None,
    }
}

/// One of two values, of which only the chosen one is computed.
pub open spec fn ternary_spec(s: Lowering, e: Expr, ty: IrType) -> Lowered
    decreases e, 0nat,
    when e.expr is Ternary
{
    let yes = *e.expr->Ternary_1;
    let no = *e.expr->Ternary_2;
    match condition_spec(s, *e.expr->Ternary_0) {
        (s, Err(error)) => (s, Err(error)),
        (s, Ok(condition)) => {
            let (s, yes_block) = emitted(s, Op::CreateBlock);
            let (s, no_block) = emitted(s, Op::CreateBlock);
            let (s, merge_block) = emitted(s, Op::CreateBlock);
            let (s, result) = emitted(s, Op::AppendBlockParam { block: merge_block, ty });
            let s = did(s, Op::Branch { condition, yes: yes_block, no: no_block });
            match expr_spec(entered_sealed(s, yes_block), yes) {
                (s, Err(error)) => (s, Err(error)),
                (s, Ok(value)) => {
                    let (s, value) = coerced_operand(s, value, ty, yes.ctype);
                    let s = did(s, Op::JumpWith { block: merge_block, value });
                    match expr_spec(entered_sealed(s, no_block), no) {
                        (s, Err(error)) => (s, Err(error)),
                        (s, Ok(value)) => {
                            let (s, value) = coerced_operand(s, value, ty, no.ctype);
                            let s = did(s, Op::JumpWith { block: merge_block, value });
                            let s = did(s, Op::SealBlock { block: merge_block });
                            (entered(s, merge_block), Ok(result))
                        },
                    }
                },
            }
        },
    }
}

/// An assignment: a whole object byte for byte, a scalar in the type of its
/// destination.
pub open spec fn assign_spec(s: Lowering, e: Expr) -> Lowered
    decreases e, 0nat,
    when e.expr is Binary
{
    let left = *e.expr->Binary_1;
    let right = *e.expr->Binary_2;
    proof {
        stripped_is_part(left);
    }
    let target = stripped(left);
    if stored_as_object(object_type(left)) {
        match lvalue_spec(s, target) {
            (s, Err(error)) => (s, Err(error)),
            (s, Ok(destination)) => match expr_spec(s, right) {
                (s, Err(error)) => (s, Err(error)),
                (s, Ok(source)) => match copied(
                    s,
                    destination,
                    source,
                    object_type(left),
                    e.location,
                ) {
                    (s, Err(error)) => (s, Err(error)),
                    (s, Ok(_)) => (s, Ok(destination)),
                },
            },
        }
    } else {
        match expr_spec(s, right) {
            (s, Err(error)) => (s, Err(error)),
            (s, Ok(value)) => match target.expr {
                ExprType::Id(symbol) => assign_id_spec(s, e, left, symbol, value, right.ctype),
                _ => match lvalue_spec(s, target) {
                    (s, Err(error)) => (s, Err(error)),
                    (s, Ok(address)) => stored_spec(
                        s,
                        address,
                        object_type(left),
                        left.location,
                        value,
                        right.ctype,
                    ),
                },
            },
        }
    }
}

/// A value written to an address in the machine type of the C type.
pub open spec fn stored_spec(
    s: Lowering,
    address: usize,
    ctype: Type,
    location: Location,
    value: usize,
    source: Type,
) -> Lowered {
    match ir_type_spec(ctype, location) {
        Err(error) => (s, Err(error)),
        Ok(target) => {
            let (s, value) = coerced(s, value, target, source);
            (did(s, Op::Store { value, address, offset: 0 }), Ok(value))
        },
    }
}

/// An assignment to a named object.
pub open spec fn assign_id_spec(
    s: Lowering,
    e: Expr,
    left: Expr,
    symbol: Symbol,
    value: usize,
    source: Type,
) -> Lowered {
    let key = symbol.key;
    if s.stack_locals.contains_key(key) && s.variable_types.contains_key(key) {
        let (s2, value) = coerced(s, value, s.variable_types[key], source);
        (did(s2, Op::StackStore { value, slot: s.stack_locals[key], offset: 0 }), Ok(value))
    } else if s.variables.contains_key(key) {
        if s.variable_types.contains_key(key) {
            let (s2, value) = coerced(s, value, s.variable_types[key], source);
            (did(s2, Op::DefVar { variable: s.variables[key], value }), Ok(value))
        } else {
            (
                s,
                Err(
                    unsupported_view(
                        e.location,
                        "SIA32 local variable type metadata is missing"@,
                    ),
                ),
            )
        }
    } else if s.tables.globals.contains_key(key) {
        match symbol_address_spec(s, key, 0, left.location) {
            (s, Err(error)) => (s, Err(error)),
            (s, Ok(address)) => stored_spec(
                s,
                address,
                *symbol.ctype,
                left.location,
                value,
                source,
            ),
        }
    } else {
        (
            s,
            Err(
                unsupported_view(
                    left.location,
                    "SIA32 assignment to unmapped Id: symbol="@ + symbol.repr@ + ", lhs="@
                        + left.repr@,
                ),
            ),
        )
    }
}

/// `&&` and `||`: the right operand is computed only where the left one does
/// not decide, and the result is nought or one.
pub open spec fn logical_spec(s: Lowering, e: Expr) -> Lowered
    decreases e, 0nat,
    when e.expr is Binary
{
    let both = e.expr->Binary_0 == BinaryOp::LogicalAnd;
    match condition_spec(s, *e.expr->Binary_1) {
        (s, Err(error)) => (s, Err(error)),
        (s, Ok(left_true)) => {
            let (s, rhs_block) = emitted(s, Op::CreateBlock);
            let (s, short_block) = emitted(s, Op::CreateBlock);
            let (s, merge_block) = emitted(s, Op::CreateBlock);
            let (s, result) = emitted(
                s,
                Op::AppendBlockParam { block: merge_block, ty: IrType::I32 },
            );
            let s = if both {
                did(s, Op::Branch { condition: left_true, yes: rhs_block, no: short_block })
            } else {
                did(s, Op::Branch { condition: left_true, yes: short_block, no: rhs_block })
            };
            let s = did(s, Op::SealBlock { block: short_block });
            let s = entered(s, short_block);
            let (s, short_value) = emitted(
                s,
                Op::Iconst {
                    ty: IrType::I32,
                    value: if both {
                        0
                    } else {
                        1
                    },
                },
            );
            let s = did(s, Op::JumpWith { block: merge_block, value: short_value });
            let s = did(s, Op::SealBlock { block: rhs_block });
            match condition_spec(entered(s, rhs_block), *e.expr->Binary_2) {
                (s, Err(error)) => (s, Err(error)),
                (s, Ok(right_true)) => {
                    let (s, right_result) = emitted(
                        s,
                        Op::Unary { inst: UnaryInst::Uextend, ty: IrType::I32, value: right_true },
                    );
                    let s = did(s, Op::JumpWith { block: merge_block, value: right_result });
                    let s = did(s, Op::SealBlock { block: merge_block });
                    (entered(s, merge_block), Ok(result))
                },
            }
        },
    }
}

/// The size of what a pointer type points at; of no other type.
pub open spec fn pointee_size(ctype: Type, location: Location, message: Seq<char>) -> Result<
    u64,
    ErrorView,
> {
    match ctype.kind {
        TypeKind::Pointer(pointee) => size_or_spec(*pointee, location, message),
        _ => Err(unsupported_view(location, message)),
    }
}

/// The number of elements between two pointers.
pub open spec fn pointer_difference_spec(s: Lowering, e: Expr) -> Lowered
    decreases e, 0nat,
    when e.expr is Binary
{
    let left = *e.expr->Binary_1;
    let right = *e.expr->Binary_2;
    let message = "SIA32 pointer difference requires a complete pointee type"@;
    match pointee_size(left.ctype, e.location, message) {
        Err(error) => (s, Err(error)),
        Ok(left_size) => match pointee_size(right.ctype, e.location, message) {
            Err(error) => (s, Err(error)),
            Ok(right_size) => if left_size != right_size {
                (
                    s,
                    Err(
                        unsupported_view(
                            e.location,
                            "SIA32 pointer difference requires compatible pointee sizes"@,
                        ),
                    ),
                )
            } else {
                match expr_spec(s, left) {
                    (s, Err(error)) => (s, Err(error)),
                    (s, Ok(left_value)) => match expr_spec(s, right) {
                        (s, Err(error)) => (s, Err(error)),
                        (s, Ok(right_value)) => {
                            let (s, bytes) = binary_op(
                                s,
                                BinaryInst::Isub,
                                left_value,
                                right_value,
                            );
                            if left_size == 1 {
                                (s, Ok(bytes))
                            } else {
                                let (s, scale) = emitted(
                                    s,
                                    Op::Iconst { ty: IrType::I32, value: left_size as i64 },
                                );
                                let (s, value) = binary_op(s, BinaryInst::Sdiv, bytes, scale);
                                (s, Ok(value))
                            }
                        },
                    },
                }
            },
        },
    }
}

/// A pointer moved by a number of elements. The pointer is the right operand
/// where `swapped` holds.
pub open spec fn pointer_offset_spec(s: Lowering, e: Expr, swapped: bool) -> Lowered
    decreases e, 0nat,
    when e.expr is Binary
{
    let pointer = if swapped {
        *e.expr->Binary_2
    } else {
        *e.expr->Binary_1
    };
    let index = if swapped {
        *e.expr->Binary_1
    } else {
        *e.expr->Binary_2
    };
    let inst = if e.expr->Binary_0 == BinaryOp::Sub {
        BinaryInst::Isub
    } else {
        BinaryInst::Iadd
    };
    match expr_spec(s, pointer) {
        (s, Err(error)) => (s, Err(error)),
        (s, Ok(base)) => match expr_spec(s, index) {
            (s, Err(error)) => (s, Err(error)),
            (s, Ok(value)) => {
                let (s, value) = coerced(s, value, IrType::I32, index.ctype);
                match pointee_size(
                    pointer.ctype,
                    e.location,
                    "SIA32 pointer arithmetic requires a complete pointee type"@,
                ) {
                    Err(error) => (s, Err(error)),
                    Ok(size) => {
                        let (s, scale) = emitted(
                            s,
                            Op::Iconst { ty: IrType::I32, value: size as i64 },
                        );
                        let (s, delta) = binary_op(s, BinaryInst::Imul, value, scale);
                        let (s, moved) = binary_op(s, inst, base, delta);
                        (s, Ok(moved))
                    },
                }
            },
        },
    }
}

/// The condition by which integers compare.
pub open spec fn int_condition(token: ComparisonToken, signed: bool) -> IntCC {
    match token {
        ComparisonToken::Less => if signed {
            IntCC::SignedLessThan
        } else {
            IntCC::UnsignedLessThan
        },
        ComparisonToken::Greater => if signed {
            IntCC::SignedGreaterThan
        } else {
            IntCC::UnsignedGreaterThan
        },
        ComparisonToken::EqualEqual => IntCC::Equal,
        ComparisonToken::NotEqual => IntCC::NotEqual,
        ComparisonToken::LessEqual => if signed {
            IntCC::SignedLessThanOrEqual
        } else {
            IntCC::UnsignedLessThanOrEqual
        },
        ComparisonToken::GreaterEqual => if signed {
            IntCC::SignedGreaterThanOrEqual
        } else {
            IntCC::UnsignedGreaterThanOrEqual
        },
    }
}

/// The condition by which floating-point numbers compare.
pub open spec fn float_condition(token: ComparisonToken) -> FloatCC {
    match token {
        ComparisonToken::Less => FloatCC::LessThan,
        ComparisonToken::Greater => FloatCC::GreaterThan,
        ComparisonToken::EqualEqual => FloatCC::Equal,
        ComparisonToken::NotEqual => FloatCC::NotEqual,
        ComparisonToken::LessEqual => FloatCC::LessThanOrEqual,
        ComparisonToken::GreaterEqual => FloatCC::GreaterThanOrEqual,
    }
}

/// A comparison as a C `int`.
pub open spec fn compared(s: Lowering, op: Op) -> Lowered {
    let (s, boolean) = emitted(s, op);
    let (s, value) = emitted(
        s,
        Op::Unary { inst: UnaryInst::Uextend, ty: IrType::I32, value: boolean },
    );
    (s, Ok(value))
}

/// The instruction of an arithmetic operator on integers of the given signedness.
pub open spec fn int_inst(operator: BinaryOp, signed: bool) -> BinaryInst {
    match operator {
        BinaryOp::Mul => BinaryInst::Imul,
        BinaryOp::Div => if signed {
            BinaryInst::Sdiv
        } else {
            BinaryInst::Udiv
        },
        BinaryOp::Mod => if signed {
            BinaryInst::Srem
        } else {
            BinaryInst::Urem
        },
        BinaryOp::Sub => BinaryInst::Isub,
        BinaryOp::BitwiseAnd => BinaryInst::Band,
        BinaryOp::BitwiseOr => BinaryInst::Bor,
        BinaryOp::Xor => BinaryInst::Bxor,
        BinaryOp::Shl => BinaryInst::Ishl,
        BinaryOp::Shr => if signed {
            BinaryInst::Sshr
        } else {
            BinaryInst::Ushr
        },
        _ => BinaryInst::Iadd,
    }
}

/// The instruction of an arithmetic operator on floating-point numbers.
pub open spec fn float_inst(operator: BinaryOp) -> Option<BinaryInst> {
    match operator {
        BinaryOp::Mul => Some(BinaryInst::Fmul),
        BinaryOp::Div => Some(BinaryInst::Fdiv),
        BinaryOp::Add => Some(BinaryInst::Fadd),
        BinaryOp::Sub => Some(BinaryInst::Fsub),
        _ => None,
    }
}

/// The name of a binary operator in diagnostics.
pub open spec fn operator_name(operator: BinaryOp) -> Seq<char> {
    match operator {
        BinaryOp::LogicalOr => "LogicalOr"@,
        BinaryOp::BitwiseOr => "BitwiseOr"@,
        BinaryOp::LogicalAnd => "LogicalAnd"@,
        BinaryOp::BitwiseAnd => "BitwiseAnd"@,
        BinaryOp::Xor => "Xor"@,
        BinaryOp::Mul => "Mul"@,
        BinaryOp::Div => "Div"@,
        BinaryOp::Mod => "Mod"@,
        BinaryOp::Add => "Add"@,
        BinaryOp::Sub => "Sub"@,
        BinaryOp::Shl => "Shl"@,
        BinaryOp::Shr => "Shr"@,
        BinaryOp::Compare(ComparisonToken::Less) => "Compare(Less)"@,
        BinaryOp::Compare(ComparisonToken::Greater) => "Compare(Greater)"@,
        BinaryOp::Compare(ComparisonToken::EqualEqual) => "Compare(EqualEqual)"@,
        BinaryOp::Compare(ComparisonToken::NotEqual) => "Compare(NotEqual)"@,
        BinaryOp::Compare(ComparisonToken::LessEqual) => "Compare(LessEqual)"@,
        BinaryOp::Compare(ComparisonToken::GreaterEqual) => "Compare(GreaterEqual)"@,
        BinaryOp::Assign => "Assign"@,
    }
}

/// An operator on two computed operands.
pub open spec fn operated(
    s: Lowering,
    e: Expr,
    operator: BinaryOp,
    left_type: Type,
    right_type: Type,
    left: usize,
    right: usize,
) -> Lowered {
    let signed = signed_integer(left_type);
    match operator {
        BinaryOp::Compare(token) => if left_type.kind is Pointer && right_type.kind is Pointer {
            compared(s, Op::CompareInt { condition: int_condition(token, false), left, right })
        } else if floating(left_type) || floating(right_type) {
            compared(s, Op::CompareFloat { condition: float_condition(token), left, right })
        } else {
            let left_ty = type_of_value(s, left);
            let right_ty = type_of_value(s, right);
            let ty = if left_ty.width() >= right_ty.width() {
                left_ty
            } else {
                right_ty
            };
            if floating(e.ctype) {
                (s, Err(no_float_operator(operator, e.location)))
            } else {
                let (s, left) = coerced(s, left, ty, left_type);
                let (s, right) = coerced(s, right, ty, right_type);
                compared(s, Op::CompareInt { condition: int_condition(token, signed), left, right })
            }
        },
        _ => {
            let operation = if operator == BinaryOp::Shl || operator == BinaryOp::Shr {
                Ok(type_of_value(s, left))
            } else {
                ir_type_spec(e.ctype, e.location)
            };
            match operation {
                Err(error) => (s, Err(error)),
                Ok(ty) => if floating(e.ctype) {
                    match float_inst(operator) {
                        Some(inst) => {
                            let (s, value) = binary_op(s, inst, left, right);
                            (s, Ok(value))
                        },
                        None => (s, Err(no_float_operator(operator, e.location))),
                    }
                } else {
                    let (s, left) = coerced(s, left, ty, left_type);
                    let (s, right) = coerced(s, right, ty, right_type);
                    let (s, value) = binary_op(s, int_inst(operator, signed), left, right);
                    (s, Ok(value))
                },
            }
        },
    }
}

/// The failure of an operator that floating-point numbers do not have.
pub open spec fn no_float_operator(operator: BinaryOp, location: Location) -> ErrorView {
    unsupported_view(
        location,
        "floating-point operator "@ + operator_name(operator) + " is not part of L12"@,
    )
}

/// An operator that computes both operands, left to right.
pub open spec fn binary_spec(s: Lowering, e: Expr) -> Lowered
    decreases e, 0nat,
    when e.expr is Binary
{
    let left = *e.expr->Binary_1;
    let right = *e.expr->Binary_2;
    match expr_spec(s, left) {
        (s, Err(error)) => (s, Err(error)),
        (s, Ok(left_value)) => match expr_spec(s, right) {
            (s, Err(error)) => (s, Err(error)),
            (s, Ok(right_value)) => operated(
                s,
                e,
                e.expr->Binary_0,
                left.ctype,
                right.ctype,
                left_value,
                right_value,
            ),
        },
    }
}

/// The address of an lvalue.
pub open spec fn lvalue_spec(s: Lowering, lvalue: Expr) -> Lowered
    decreases lvalue, 2nat,
{
    match lvalue.expr {
        ExprType::Id(symbol) => if s.variables.contains_key(symbol.key)
            || s.stack_locals.contains_key(symbol.key) || s.vla_bases.contains_key(symbol.key) {
            local_address_spec(s, symbol.key, lvalue.location)
        } else {
            symbol_address_spec(s, symbol.key, 0, lvalue.location)
        },
        ExprType::Deref(pointer) => expr_spec(s, *pointer),
        ExprType::Member(base, member) => member_address_spec(s, *base, member, lvalue.location),
        ExprType::Binary(BinaryOp::Add, _, _) => expr_spec(s, lvalue),
        ExprType::Noop(inner) => lvalue_spec(s, *inner),
        ExprType::Cast(inner) => lvalue_spec(s, *inner),
        _ => (
            s,
            Err(
                unsupported_view(
                    lvalue.location,
                    "SIA32 cannot form address for lvalue "@ + lvalue.repr@,
                ),
            ),
        ),
    }
}

/// The offset of `member` among the fields from `index` on, the next free
/// byte being at `offset`.
pub open spec fn field_offset_from(
    fields: Seq<Field>,
    index: nat,
    offset: u64,
    member: u32,
    location: Location,
) -> Result<u64, ErrorView>
    decreases fields.len() - index,
{
    if index >= fields.len() {
        Err(unsupported_view(location, "unknown struct member"@))
    } else {
        let field = fields[index as int];
        match align_or_spec(field.ctype, location, "member has unsupported alignment"@) {
            Err(error) => Err(error),
            Ok(align) => {
                let start = aligned(offset, align);
                if field.id == member {
                    Ok(start)
                } else {
                    match size_or_spec(field.ctype, location, "member has incomplete type"@) {
                        Err(error) => Err(error),
                        Ok(size) => field_offset_from(
                            fields,
                            index + 1,
                            start.wrapping_add(size),
                            member,
                            location,
                        ),
                    }
                }
            },
        }
    }
}

/// The offset of a member of the type that a member access names.
pub open spec fn access_offset(ctype: Type, member: u32, location: Location) -> Result<
    u64,
    ErrorView,
> {
    match ctype.kind {
        TypeKind::Struct(fields) => field_offset_from(fields@, 0, 0, member, location),
        TypeKind::Union(_) => Ok(0),
        _ => Err(unsupported_view(location, "member access requires a struct or union base"@)),
    }
}

/// The address of a member: that of the object it is in, plus its offset.
pub open spec fn member_address_spec(
    s: Lowering,
    base: Expr,
    member: u32,
    location: Location,
) -> Lowered
    decreases base, 2nat,
{
    proof {
        stripped_is_part(base);
    }
    match access_offset(base.ctype, member, location) {
        Err(error) => (s, Err(error)),
        Ok(offset) => {
            let object = stripped(base);
            let lowered = match object.expr {
                ExprType::Id(symbol) => object_address_spec(s, symbol.key, location),
                ExprType::Deref(pointer) => expr_spec(s, *pointer),
                ExprType::Member(parent, parent_member) => member_address_spec(
                    s,
                    *parent,
                    parent_member,
                    location,
                ),
                ExprType::Binary(BinaryOp::Add, _, _) => expr_spec(s, object),
                _ => (
                    s,
                    Err(
                        unsupported_view(
                            location,
                            "SIA32 member access requires an addressable aggregate: base="@
                                + object.repr@,
                        ),
                    ),
                ),
            };
            match lowered {
                (s, Err(error)) => (s, Err(error)),
                (s, Ok(address)) => if offset == 0 {
                    (s, Ok(address))
                } else {
                    let (s, delta) = emitted(
                        s,
                        Op::Iconst { ty: IrType::I32, value: offset as i64 },
                    );
                    let (s, value) = binary_op(s, BinaryInst::Iadd, address, delta);
                    (s, Ok(value))
                },
            }
        },
    }
}

/// The address of a named object whose member is accessed.
pub open spec fn object_address_spec(s: Lowering, key: u32, location: Location) -> Lowered {
    if s.stack_locals.contains_key(key) {
        let (s, value) = emitted(s, Op::StackAddr { slot: s.stack_locals[key] });
        (s, Ok(value))
    } else if s.variables.contains_key(key) {
        let (s, value) = used_variable(s, s.variables[key]);
        (s, Ok(value))
    } else {
        symbol_address_spec(s, key, 0, location)
    }
}

/// The machine types of the parameters from `index` on, after those in `types`.
pub open spec fn parameter_types_from(
    parameters: Seq<Symbol>,
    index: nat,
    location: Location,
    types: Seq<IrType>,
) -> Result<Seq<IrType>, ErrorView>
    decreases parameters.len() - index,
{
    if index >= parameters.len() {
        Ok(types)
    } else {
        match abi_parameter_spec(*parameters[index as int].ctype, location) {
            Err(error) => Err(error),
            Ok(ty) => parameter_types_from(parameters, index + 1, location, types.push(ty)),
        }
    }
}

/// The machine types of the unnamed arguments from `index` on, after those in
/// `types`.
pub open spec fn unnamed_types_from(
    arguments: Seq<Expr>,
    index: nat,
    location: Location,
    types: Seq<IrType>,
) -> Result<Seq<IrType>, ErrorView>
    decreases arguments.len() - index,
{
    if index >= arguments.len() {
        Ok(types)
    } else {
        match promoted_spec(arguments[index as int].ctype, location) {
            Err(error) => Err(error),
            Ok(ty) => unnamed_types_from(arguments, index + 1, location, types.push(ty)),
        }
    }
}

/// The machine type that a function returns: none for `void` and for objects,
/// which are written where the caller says.
pub open spec fn return_type_spec(function: FunctionType, location: Location) -> Result<
    Option<IrType>,
    ErrorView,
> {
    if function.return_type.kind is Void || by_value_aggregate(*function.return_type) {
        Ok(None)
    } else {
        match ir_type_spec(*function.return_type, location) {
            Err(error) => Err(error),
            Ok(ty) => Ok(Some(ty)),
        }
    }
}

/// The machine types of what is passed to a function: the address of the
/// object it returns, if it returns one, then its parameters.
pub open spec fn named_types_spec(function: FunctionType, location: Location) -> Result<
    Seq<IrType>,
    ErrorView,
> {
    let first = if by_value_aggregate(*function.return_type) {
        seq![IrType::I32]
    } else {
        Seq::empty()
    };
    parameter_types_from(parameters(function), 0, location, first)
}

/// The machine types of a call: those of the parameters, then those of the
/// unnamed arguments.
pub open spec fn call_types_spec(
    function: FunctionType,
    arguments: Seq<Expr>,
    location: Location,
) -> Result<Seq<IrType>, ErrorView> {
    match named_types_spec(function, location) {
        Err(error) => Err(error),
        Ok(types) => if function.varargs {
            unnamed_types_from(arguments, parameters(function).len(), location, types)
        } else {
            Ok(types)
        },
    }
}

/// The signature parameters from `index` on.
pub open spec fn signature_params_from(s: Lowering, types: Seq<IrType>, index: nat) -> Lowering
    decreases types.len() - index,
{
    if index >= types.len() {
        s
    } else {
        signature_params_from(
            did(s, Op::SignatureParam { ty: types[index as int] }),
            types,
            index + 1,
        )
    }
}

/// A signature made known to the function.
pub open spec fn signature_spec(s: Lowering, types: Seq<IrType>, result: Option<IrType>) -> (
    Lowering,
    usize,
) {
    let s = signature_params_from(did(s, Op::BeginSignature), types, 0);
    let s = match result {
        Some(ty) => did(s, Op::SignatureReturn { ty }),
        None => s,
    };
    emitted(s, Op::ImportSignature)
}

/// The function type that a call goes through.
pub open spec fn callee_type(ctype: Type, location: Location) -> Result<FunctionType, ErrorView> {
    match ctype.kind {
        TypeKind::Function(function) => Ok(function),
        TypeKind::Pointer(pointee) => match pointee.kind {
            TypeKind::Function(function) => Ok(function),
            _ => Err(
                unsupported_view(
                    location,
                    "SIA32 call target pointer does not point to a function"@,
                ),
            ),
        },
        _ => Err(unsupported_view(location, "SIA32 call target is not a function"@)),
    }
}

/// The number of the function that a call names directly.
pub open spec fn direct_callee(s: Lowering, function: Expr, location: Location) -> Result<
    Option<usize>,
    ErrorView,
> {
    match function.expr {
        ExprType::Id(symbol) => if symbol.ctype.kind is Function {
            if s.tables.functions.contains_key(symbol.key) {
                Ok(Some(s.tables.functions[symbol.key]))
            } else {
                Err(
                    unsupported_view(
                        location,
                        "SIA32 direct call target `"@ + symbol.name@
                            + "` has no translation-unit declaration"@,
                    ),
                )
            }
        } else {
            Ok(None)
        },
        _ => Ok(None),
    }
}

/// The number of arguments that a function takes.
pub open spec fn argument_count_fits(function: FunctionType, count: nat) -> bool {
    if function.varargs {
        count >= parameters(function).len()
    } else {
        count == parameters(function).len()
    }
}

/// The arguments from `index` on, after those whose values are in `values`.
/// An object is passed as the address of a copy of it.
pub open spec fn arguments_spec(
    s: Lowering,
    arguments: Seq<Expr>,
    parameters: Seq<Symbol>,
    index: nat,
    values: Seq<usize>,
    location: Location,
) -> (Lowering, Result<Seq<usize>, ErrorView>)
    decreases arguments, arguments.len() - index,
{
    if index >= arguments.len() {
        (s, Ok(values))
    } else {
        let argument = arguments[index as int];
        match expr_spec(s, argument) {
            (s, Err(error)) => (s, Err(error)),
            (s, Ok(value)) => {
                let parameter = if index < parameters.len() {
                    Some(*parameters[index as int].ctype)
                } else {
                    None
                };
                match passed_spec(s, value, argument.ctype, parameter, location) {
                    (s, Err(error)) => (s, Err(error)),
                    (s, Ok(value)) => arguments_spec(
                        s,
                        arguments,
                        parameters,
                        index + 1,
                        values.push(value),
                        location,
                    ),
                }
            },
        }
    }
}

/// The value that is passed for an argument.
pub open spec fn passed_spec(
    s: Lowering,
    value: usize,
    ctype: Type,
    parameter: Option<Type>,
    location: Location,
) -> Lowered {
    match parameter {
        Some(parameter) => if by_value_aggregate(parameter) {
            match aggregate_slot_spec(s, parameter, location) {
                (s, Err(error)) => (s, Err(error)),
                (s, Ok((_, address))) => match copied(s, address, value, parameter, location) {
                    (s, Err(error)) => (s, Err(error)),
                    (s, Ok(_)) => (s, Ok(address)),
                },
            }
        } else {
            match abi_parameter_spec(parameter, location) {
                Err(error) => (s, Err(error)),
                Ok(ty) => {
                    let (s, value) = coerced(s, value, ty, ctype);
                    (s, Ok(value))
                },
            }
        },
        None => match promoted_spec(ctype, location) {
            Err(error) => (s, Err(error)),
            Ok(ty) => {
                let (s, value) = coerced(s, value, ty, ctype);
                (s, Ok(value))
            },
        },
    }
}

/// The arguments of the call that follows, from `index` on.
pub open spec fn call_arguments_from(s: Lowering, values: Seq<usize>, index: nat) -> Lowering
    decreases values.len() - index,
{
    if index >= values.len() {
        s
    } else {
        call_arguments_from(
            did(s, Op::CallArgument { value: values[index as int] }),
            values,
            index + 1,
        )
    }
}

/// The steps before the arguments of a call: its signature, the function if it
/// is named, and the room for an object that it returns.
pub open spec fn call_opened(
    s: Lowering,
    callee: FunctionType,
    direct: Option<usize>,
    types: Seq<IrType>,
    result: Option<IrType>,
    location: Location,
) -> (Lowering, Result<CallTarget, ErrorView>) {
    let (s, signature) = signature_spec(s, types, result);
    let (s, function) = match direct {
        Some(index) => {
            let (s, function) = emitted(s, Op::ImportFunction { index, signature });
            (s, Some(function))
        },
        None => (s, None),
    };
    if by_value_aggregate(*callee.return_type) {
        match aggregate_slot_spec(s, *callee.return_type, location) {
            (s, Err(error)) => (s, Err(error)),
            (s, Ok((_, address))) => (
                s,
                Ok(CallTarget { signature, function, result: Some(address) }),
            ),
        }
    } else {
        (s, Ok(CallTarget { signature, function, result: None }))
    }
}

/// What a call needs besides its arguments.
pub struct CallTarget {
    /// The imported signature.
    pub signature: usize,
    /// The imported function, where the call names one.
    pub function: Option<usize>,
    /// The address of the object that the call returns.
    pub result: Option<usize>,
}

/// A call: of a named function by its number, of any other through the
/// address that the callee evaluates to after the arguments.
pub open spec fn call_spec(s: Lowering, e: Expr) -> Lowered
    decreases e, 0nat,
    when e.expr is FuncCall
{
    let function = *e.expr->FuncCall_0;
    let arguments = e.expr->FuncCall_1@;
    let location = e.location;
    match callee_type(function.ctype, location) {
        Err(error) => (s, Err(error)),
        Ok(callee) => match direct_callee(s, function, location) {
            Err(error) => (s, Err(error)),
            Ok(direct) => if !argument_count_fits(callee, arguments.len()) {
                (s, Err(unsupported_view(location, "SIA32 call argument count mismatch"@)))
            } else {
                match call_types_spec(callee, arguments, location) {
                    Err(error) => (s, Err(error)),
                    Ok(types) => match return_type_spec(callee, location) {
                        Err(error) => (s, Err(error)),
                        Ok(result) => match call_opened(
                            s,
                            callee,
                            direct,
                            types,
                            result,
                            location,
                        ) {
                            (s, Err(error)) => (s, Err(error)),
                            (s, Ok(target)) => {
                                let first = match target.result {
                                    Some(address) => seq![address],
                                    None => Seq::empty(),
                                };
                                match arguments_spec(
                                    s,
                                    arguments,
                                    parameters(callee),
                                    0,
                                    first,
                                    location,
                                ) {
                                    (s, Err(error)) => (s, Err(error)),
                                    (s, Ok(values)) => match target.function {
                                        Some(imported) => called(
                                            call_arguments_from(s, values, 0),
                                            Op::Call { function: imported, result },
                                            callee,
                                            target,
                                        ),
                                        None => match expr_spec(s, function) {
                                            (s, Err(error)) => (s, Err(error)),
                                            (s, Ok(address)) => called(
                                                call_arguments_from(s, values, 0),
                                                Op::CallIndirect {
                                                    signature: target.signature,
                                                    callee: address,
                                                    result,
                                                },
                                                callee,
                                                target,
                                            ),
                                        },
                                    },
                                }
                            },
                        },
                    },
                }
            },
        },
    }
}

/// The call itself and its value: the address of a returned object, nought
/// for `void`, else what the function returns.
pub open spec fn called(s: Lowering, op: Op, callee: FunctionType, target: CallTarget) -> Lowered {
    let (s, call) = emitted(s, op);
    match target.result {
        Some(address) => (s, Ok(address)),
        None => if callee.return_type.kind is Void {
            let (s, value) = emitted(s, Op::Iconst { ty: IrType::I32, value: 0 });
            (s, Ok(value))
        } else {
            (s, Ok(call))
        },
    }
}

} // verus!
