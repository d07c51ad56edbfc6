//! Lowering of expressions.

use crate::error::{outcome, outcome_view, unsupported, Error, ErrorView, Location};
use crate::hir::{
    ArrayType, BinaryOp, ComparisonToken, Expr, ExprType, FunctionType, LiteralValue, Symbol, Type,
    TypeKind,
};
use crate::ir::{BinaryInst, FloatCC, IntCC, IrType, Op, UnaryInst};
use crate::lower::expr_model::{
    access_offset, arguments_spec, assign_id_spec, assign_spec, binary_op, binary_spec,
    bitwise_not_spec, call_arguments_from, call_opened, call_spec, call_types_spec, called,
    callee_type, cast_spec, coerced_operand, comma_spec, compared, condition_spec, converted,
    deref_id_spec, deref_spec, direct_callee, expr_spec, field_offset_from, float_condition,
    float_inst, id_spec, increment_spec, int_condition, int_inst, literal_spec, local_home,
    local_increment_spec, logical_spec, lvalue_spec, member_address_spec, member_spec,
    named_types_spec, negate_spec, object_address_spec, object_type, operated, operator_name,
    parameter_types_from, passed_spec, pointee_size, pointer_difference_spec, pointer_offset_spec,
    return_type_spec, scalar_step_spec, signature_params_from, signature_spec, sizeof_spec,
    static_ref_spec, step_constant, step_inst, step_spec, stepped, stored_spec, ternary_spec,
    unnamed_types_from, value_type_spec, CallTarget, LocalHome,
};
use crate::lower::state::{lookup, lookup_type, FunctionLowerer};
use crate::text::{concat2, concat3};
use crate::types::{
    abi_parameter_type, abi_scalar_type, align_or, align_up, function_parameters, ir_type,
    is_address_valued_type, is_by_value_aggregate, is_floating, is_signed_integer_type,
    is_stored_as_object, parameters, promoted_type, size_or, strip_wrappers, stripped_is_part,
};
use vstd::prelude::*;

verus! {

broadcast use vstd::std_specs::hash::group_hash_axioms;

/// The machine type in which the value of an expression is computed.
///
/// `void` only occurs for expressions such as a call of a void function; all
/// value-producing expressions need a concrete machine type.
pub fn expression_type(expression: &Expr) -> (result: Result<IrType, Error>)
    ensures
        outcome(result) == value_type_spec(*expression),
{
    if matches!(expression.ctype.kind, TypeKind::Void) || is_address_valued_type(&expression.ctype)
    {
        Ok(IrType::I32)
    } else {
        ir_type(&expression.ctype, expression.location)
    }
}

/// The condition by which integers compare.
pub fn integer_condition(token: ComparisonToken, signed: bool) -> (result: IntCC)
    ensures
        result == int_condition(token, signed),
{
    match token {
        ComparisonToken::Less => if signed {
            IntCC::SignedLessThan
        } else {
            IntCC::UnsignedLessThan
        },
        ComparisonToken::Greater => if signed {
            IntCC::SignedGreaterThan
        } else {
            IntCC::UnsignedGreaterThan
        },
        ComparisonToken::EqualEqual => IntCC::Equal,
        ComparisonToken::NotEqual => IntCC::NotEqual,
        ComparisonToken::LessEqual => if signed {
            IntCC::SignedLessThanOrEqual
        } else {
            IntCC::UnsignedLessThanOrEqual
        },
        ComparisonToken::GreaterEqual => if signed {
            IntCC::SignedGreaterThanOrEqual
        } else {
            IntCC::UnsignedGreaterThanOrEqual
        },
    }
}

/// The condition by which floating-point numbers compare.
pub fn floating_condition(token: ComparisonToken) -> (result: FloatCC)
    ensures
        result == float_condition(token),
{
    match token {
        ComparisonToken::Less => FloatCC::LessThan,
        ComparisonToken::Greater => FloatCC::GreaterThan,
        ComparisonToken::EqualEqual => FloatCC::Equal,
        ComparisonToken::NotEqual => FloatCC::NotEqual,
        ComparisonToken::LessEqual => FloatCC::LessThanOrEqual,
        ComparisonToken::GreaterEqual => FloatCC::GreaterThanOrEqual,
    }
}

/// The instruction of an arithmetic operator on integers.
pub fn integer_instruction(operator: BinaryOp, signed: bool) -> (result: BinaryInst)
    ensures
        result == int_inst(operator, signed),
{
    match operator {
        BinaryOp::Mul => BinaryInst::Imul,
        BinaryOp::Div => if signed {
            BinaryInst::Sdiv
        } else {
            BinaryInst::Udiv
        },
        BinaryOp::Mod => if signed {
            BinaryInst::Srem
        } else {
            BinaryInst::Urem
        },
        BinaryOp::Sub => BinaryInst::Isub,
        BinaryOp::BitwiseAnd => BinaryInst::Band,
        BinaryOp::BitwiseOr => BinaryInst::Bor,
        BinaryOp::Xor => BinaryInst::Bxor,
        BinaryOp::Shl => BinaryInst::Ishl,
        BinaryOp::Shr => if signed {
            BinaryInst::Sshr
        } else {
            BinaryInst::Ushr
        },
        _ => BinaryInst::Iadd,
    }
}

/// The instruction of an arithmetic operator on floating-point numbers.
pub fn floating_instruction(operator: BinaryOp) -> (result: Option<BinaryInst>)
    ensures
        result == float_inst(operator),
{
    match operator {
        BinaryOp::Mul => Some(BinaryInst::Fmul),
        BinaryOp::Div => Some(BinaryInst::Fdiv),
        BinaryOp::Add => Some(BinaryInst::Fadd),
        BinaryOp::Sub => Some(BinaryInst::Fsub),
        _ => None,
    }
}

/// The name of a binary operator in diagnostics.
pub fn operator_text(operator: BinaryOp) -> (result: &'static str)
    ensures
        result@ == operator_name(operator),
{
    match operator {
        BinaryOp::LogicalOr => "LogicalOr",
        BinaryOp::BitwiseOr => "BitwiseOr",
        BinaryOp::LogicalAnd => "LogicalAnd",
        BinaryOp::BitwiseAnd => "BitwiseAnd",
        BinaryOp::Xor => "Xor",
        BinaryOp::Mul => "Mul",
        BinaryOp::Div => "Div",
        BinaryOp::Mod => "Mod",
        BinaryOp::Add => "Add",
        BinaryOp::Sub => "Sub",
        BinaryOp::Shl => "Shl",
        BinaryOp::Shr => "Shr",
        BinaryOp::Compare(ComparisonToken::Less) => "Compare(Less)",
        BinaryOp::Compare(ComparisonToken::Greater) => "Compare(Greater)",
        BinaryOp::Compare(ComparisonToken::EqualEqual) => "Compare(EqualEqual)",
        BinaryOp::Compare(ComparisonToken::NotEqual) => "Compare(NotEqual)",
        BinaryOp::Compare(ComparisonToken::LessEqual) => "Compare(LessEqual)",
        BinaryOp::Compare(ComparisonToken::GreaterEqual) => "Compare(GreaterEqual)",
        BinaryOp::Assign => "Assign",
    }
}

/// By how much `++` changes an lvalue of the type.
pub fn increment_step(ctype: &Type, location: Location) -> (result: Result<i64, Error>)
    ensures
        outcome(result) == step_spec(*ctype, location),
{
    match &ctype.kind {
        TypeKind::Pointer(pointee) => {
            let bytes: u64 = size_or(
                pointee,
                location,
                "SIA32 pointer increment requires a complete pointee type",
            )?;
            if bytes > 0x7fff_ffff_ffff_ffff {
                return Err(
                    unsupported(location, "SIA32 pointer increment step does not fit in i64"),
                );
            }
            Ok(bytes as i64)
        },
        _ => Ok(1),
    }
}

/// The machine type of a scalar, and by how much `++` changes it.
pub fn scalar_step(ctype: &Type, location: Location) -> (result: Result<(IrType, i64), Error>)
    ensures
        outcome(result) == scalar_step_spec(*ctype, location),
{
    let ty = ir_type(ctype, location)?;
    let step: i64 = increment_step(ctype, location)?;
    Ok((ty, step))
}

/// The constant by which a value of the machine type is moved.
pub fn constant_step(ty: IrType, step: i64) -> (result: Op)
    ensures
        result == step_constant(ty, step),
{
    match ty {
        IrType::F32 => Op::F32Const { bits: 0x3f80_0000 },
        IrType::F64 => Op::F64Const { bits: 0x3ff0_0000_0000_0000 },
        _ => Op::Iconst { ty, value: step },
    }
}

/// The instruction that moves a value of the machine type up or down.
pub fn step_instruction(ty: IrType, increment: bool) -> (result: BinaryInst)
    ensures
        result == step_inst(ty, increment),
{
    match (ty.is_float(), increment) {
        (true, true) => BinaryInst::Fadd,
        (true, false) => BinaryInst::Fsub,
        (false, true) => BinaryInst::Iadd,
        (false, false) => BinaryInst::Isub,
    }
}

/// The type of the object that an lvalue stands for.
pub fn type_of_object(lvalue: &Expr) -> (result: &Type)
    ensures
        *result == object_type(*lvalue),
{
    &strip_wrappers(lvalue).ctype
}

/// The size of what a pointer type points at.
pub fn size_of_pointee(ctype: &Type, location: Location, message: &str) -> (result: Result<
    u64,
    Error,
>)
    ensures
        outcome(result) == pointee_size(*ctype, location, message@),
{
    match &ctype.kind {
        TypeKind::Pointer(pointee) => size_or(pointee, location, message),
        _ => Err(unsupported(location, message)),
    }
}

/// The offset of a member of the type that a member access names.
pub fn member_access_offset(ctype: &Type, member: u32, location: Location) -> (result: Result<
    u64,
    Error,
>)
    ensures
        outcome(result) == access_offset(*ctype, member, location),
{
    match &ctype.kind {
        TypeKind::Struct(fields) => {
            let mut offset: u64 = 0;
            let mut index: usize = 0;
            while index < fields.len()
                invariant
                    index <= fields@.len(),
                    ctype.kind == TypeKind::Struct(*fields),
                    field_offset_from(fields@, index as nat, offset, member, location)
                        == field_offset_from(fields@, 0, 0, member, location),
                decreases fields@.len() - index,
            {
                let field = &fields[index];
                let align: u64 = align_or(
                    &field.ctype,
                    location,
                    "member has unsupported alignment",
                )?;
                offset = align_up(offset, align);
                if field.id == member {
                    return Ok(offset);
                }
                let size: u64 = size_or(&field.ctype, location, "member has incomplete type")?;
                offset = offset.wrapping_add(size);
                index += 1;
            }
            Err(unsupported(location, "unknown struct member"))
        },
        TypeKind::Union(_) => Ok(0),
        _ => Err(unsupported(location, "member access requires a struct or union base")),
    }
}

/// The machine types of what is passed to a function.
pub fn named_parameter_types(function: &FunctionType, location: Location) -> (result: Result<
    Vec<IrType>,
    Error,
>)
    ensures
        outcome_view(result) == named_types_spec(*function, location),
{
    let mut types: Vec<IrType> = Vec::new();
    if is_by_value_aggregate(&function.return_type) {
        types.push(IrType::I32);
        assert(types@ =~= seq![IrType::I32]);
    }
    let ghost first = types@;
    let named = function_parameters(function);
    let mut index: usize = 0;
    while index < named.len()
        invariant
            index <= named@.len(),
            named@ == parameters(*function),
            parameter_types_from(named@, index as nat, location, types@) == parameter_types_from(
                named@,
                0,
                location,
                first,
            ),
            named_types_spec(*function, location) == parameter_types_from(
                named@,
                0,
                location,
                first,
            ),
        decreases named@.len() - index,
    {
        let ty = abi_parameter_type(&named[index].ctype, location)?;
        types.push(ty);
        index += 1;
    }
    Ok(types)
}

/// The machine types of a call.
pub fn call_types(function: &FunctionType, arguments: &Vec<Expr>, location: Location) -> (result:
    Result<Vec<IrType>, Error>)
    ensures
        outcome_view(result) == call_types_spec(*function, arguments@, location),
{
    let mut types = named_parameter_types(function, location)?;
    let ghost first = types@;
    if function.varargs {
        let mut index: usize = function_parameters(function).len();
        let ghost start = index as nat;
        while index < arguments.len()
            invariant
                unnamed_types_from(arguments@, index as nat, location, types@)
                    == unnamed_types_from(arguments@, start, location, first),
                call_types_spec(*function, arguments@, location) == unnamed_types_from(
                    arguments@,
                    start,
                    location,
                    first,
                ),
            decreases arguments@.len() - index,
        {
            let ty = promoted_type(&arguments[index].ctype, location)?;
            types.push(ty);
            index += 1;
        }
    }
    Ok(types)
}

/// The machine type that a function returns.
pub fn function_return_type(function: &FunctionType, location: Location) -> (result: Result<
    Option<IrType>,
    Error,
>)
    ensures
        outcome(result) == return_type_spec(*function, location),
{
    if matches!(function.return_type.kind, TypeKind::Void) || is_by_value_aggregate(
        &function.return_type,
    ) {
        Ok(None)
    } else {
        let ty = abi_scalar_type(&function.return_type, location)?;
        Ok(Some(ty))
    }
}

/// The function type that a call goes through.
pub fn call_target_type(ctype: &Type, location: Location) -> (result: Result<&FunctionType, Error>)
    ensures
        (match result {
            Ok(function) => callee_type(*ctype, location) == Ok::<
                FunctionType,
                crate::error::ErrorView,
            >(*function),
            Err(error) => callee_type(*ctype, location) == Err::<
                FunctionType,
                crate::error::ErrorView,
            >(error@),
        }),
{
    match &ctype.kind {
        TypeKind::Function(function) => Ok(function),
        TypeKind::Pointer(pointee) => match &pointee.kind {
            TypeKind::Function(function) => Ok(function),
            _ => Err(
                unsupported(location, "SIA32 call target pointer does not point to a function"),
            ),
        },
        _ => Err(unsupported(location, "SIA32 call target is not a function")),
    }
}

impl<'c> FunctionLowerer<'c> {
    /// An instruction on two values, of the type of the first.
    pub fn binary(&mut self, inst: BinaryInst, left: usize, right: usize) -> (result: usize)
        ensures
            (final(self)@, result) == binary_op(old(self)@, inst, left, right),
    {
        let ty = self.value_type(left);
        self.emit(Op::Binary { inst, ty, left, right })
    }

    /// The value of an operand in the machine type of the whole.
    fn coerce_operand(&mut self, value: usize, ty: IrType, source: &Type) -> (result: usize)
        ensures
            (final(self)@, result) == coerced_operand(old(self)@, value, ty, *source),
    {
        if is_address_valued_type(source) {
            value
        } else {
            self.coerce_integer_value(value, ty, source)
        }
    }

    /// Lowers a name.
    fn compile_id(&mut self, expression: &Expr, key: u32) -> (result: Result<usize, Error>)
        ensures
            (final(self)@, outcome(result)) == id_spec(old(self)@, *expression, key),
    {
        if let Some(slot) = lookup(&self.stack_locals, key) {
            if is_address_valued_type(&expression.ctype) {
                Ok(self.emit(Op::StackAddr { slot }))
            } else if let Some(ty) = lookup_type(&self.variable_types, key) {
                Ok(self.emit(Op::StackLoad { ty, slot }))
            } else {
                Ok(self.emit(Op::StackAddr { slot }))
            }
        } else if let Some(variable) = lookup(&self.variables, key) {
            Ok(self.use_var(variable))
        } else if let Some(variable) = lookup(&self.vla_bases, key) {
            Ok(self.use_var(variable))
        } else if self.tables.globals.contains_key(&key) || self.tables.functions.contains_key(
            &key,
        ) {
            self.symbol_address(key, 0, expression.location)
        } else {
            Err(
                unsupported(
                    expression.location,
                    "SIA32 identifier has no local or symbolic storage",
                ),
            )
        }
    }

    /// Lowers a constant.
    fn compile_literal(&mut self, literal: &LiteralValue, ty: IrType, location: Location) -> (result:
        Result<usize, Error>)
        ensures
            (final(self)@, outcome(result)) == literal_spec(old(self)@, *literal, ty, location),
    {
        match literal {
            LiteralValue::Int(value) => Ok(self.emit(Op::Iconst { ty, value: *value })),
            LiteralValue::UnsignedInt(value) => {
                Ok(self.emit(Op::Iconst { ty, value: #[verifier::truncate] (*value as i64) }))
            },
            LiteralValue::Char(value) => Ok(self.emit(Op::Iconst { ty, value: *value as i64 })),
            LiteralValue::Float { double_bits, single_bits } => {
                if ty == IrType::F32 {
                    Ok(self.emit(Op::F32Const { bits: *single_bits }))
                } else {
                    Ok(self.emit(Op::F64Const { bits: *double_bits }))
                }
            },
            LiteralValue::Str(bytes) => self.string_address(bytes.as_slice(), location),
        }
    }

    /// Converts a computed operand to the type of the cast.
    fn convert(&mut self, expression: &Expr, value: &Expr, ty: IrType, operand: usize) -> (result:
        Result<usize, Error>)
        ensures
            (final(self)@, outcome(result)) == converted(
                old(self)@,
                *expression,
                *value,
                ty,
                operand,
            ),
    {
        let source_ty = self.value_type(operand);
        if source_ty == ty {
            return Ok(operand);
        }
        let inst = if source_ty.is_float() && ty.is_float() {
            if source_ty == IrType::F32 {
                UnaryInst::Fpromote
            } else {
                UnaryInst::Fdemote
            }
        } else if source_ty.is_float() {
            if is_signed_integer_type(&expression.ctype) {
                UnaryInst::FcvtToSintSat
            } else {
                UnaryInst::FcvtToUintSat
            }
        } else if ty.is_float() {
            if is_signed_integer_type(&value.ctype) {
                UnaryInst::FcvtFromSint
            } else {
                UnaryInst::FcvtFromUint
            }
        } else if source_ty.bits() < ty.bits() {
            if is_signed_integer_type(&value.ctype) {
                UnaryInst::Sextend
            } else {
                UnaryInst::Uextend
            }
        } else if source_ty.bits() > ty.bits() {
            UnaryInst::Ireduce
        } else {
            let from = concat2(
                "SIA32 cast lowering is not implemented from ",
                value.ctype.repr.as_str(),
            );
            let message = concat3(from.as_str(), " to ", expression.ctype.repr.as_str());
            return Err(unsupported(expression.location, message.as_str()));
        };
        Ok(self.emit(Op::Unary { inst, ty, value: operand }))
    }

    /// Lowers the value of a named object.
    fn compile_deref_id(&mut self, key: u32, ty: IrType, location: Location) -> (result: Result<
        usize,
        Error,
    >)
        ensures
            (final(self)@, outcome(result)) == deref_id_spec(old(self)@, key, ty, location),
    {
        if let Some(slot) = lookup(&self.stack_locals, key) {
            if let Some(value_ty) = lookup_type(&self.variable_types, key) {
                Ok(self.emit(Op::StackLoad { ty: value_ty, slot }))
            } else {
                Ok(self.emit(Op::StackAddr { slot }))
            }
        } else if let Some(variable) = lookup(&self.variables, key) {
            Ok(self.use_var(variable))
        } else {
            let address: usize = self.symbol_address(key, 0, location)?;
            Ok(self.emit(Op::Load { ty, address, offset: 0 }))
        }
    }

    /// Where the local that an lvalue names lives.
    fn home_of_local(&self, lvalue: &Expr) -> (result: Option<LocalHome>)
        ensures
            result == local_home(self@, *lvalue),
    {
        match &lvalue.expr {
            ExprType::Id(symbol) => {
                if let Some(slot) = lookup(&self.stack_locals, symbol.key) {
                    Some(LocalHome::Slot(slot))
                } else if let Some(variable) = lookup(&self.variables, symbol.key) {
                    Some(LocalHome::Variable(variable))
                } else {
                    None
                }
            },
            _ => None,
        }
    }

    /// Moves a value up or down by a constant.
    fn step_value(&mut self, before: usize, step: i64, increment: bool) -> (result: usize)
        ensures
            (final(self)@, result) == stepped(old(self)@, before, step, increment),
    {
        let ty = self.value_type(before);
        let amount: usize = self.emit(constant_step(ty, step));
        self.binary(step_instruction(ty, increment), before, amount)
    }

    /// Changes a local by one step where it lives.
    fn increment_local(
        &mut self,
        home: LocalHome,
        ty: IrType,
        step: i64,
        increment: bool,
    ) -> (result: usize)
        ensures
            (final(self)@, Ok::<usize, ErrorView>(result)) == local_increment_spec(
                old(self)@,
                home,
                ty,
                step,
                increment,
            ),
    {
        match home {
            LocalHome::Slot(slot) => {
                let before: usize = self.emit(Op::StackLoad { ty, slot });
                let value: usize = self.step_value(before, step, increment);
                self.emit(Op::StackStore { value, slot, offset: 0 });
                before
            },
            LocalHome::Variable(variable) => {
                let before: usize = self.use_var(variable);
                let value: usize = self.step_value(before, step, increment);
                self.emit(Op::DefVar { variable, value });
                before
            },
        }
    }

    /// Writes a value to an address in the machine type of the C type.
    fn store_value(
        &mut self,
        address: usize,
        ctype: &Type,
        location: Location,
        value: usize,
        source: &Type,
    ) -> (result: Result<usize, Error>)
        ensures
            (final(self)@, outcome(result)) == stored_spec(
                old(self)@,
                address,
                *ctype,
                location,
                value,
                *source,
            ),
    {
        let target_ty = ir_type(ctype, location)?;
        let value: usize = self.coerce_integer_value(value, target_ty, source);
        self.emit(Op::Store { value, address, offset: 0 });
        Ok(value)
    }

    /// Assigns to a named object.
    fn compile_assign_id(
        &mut self,
        expression: &Expr,
        left: &Expr,
        symbol: &Symbol,
        value: usize,
        source: &Type,
    ) -> (result: Result<usize, Error>)
        ensures
            (final(self)@, outcome(result)) == assign_id_spec(
                old(self)@,
                *expression,
                *left,
                *symbol,
                value,
                *source,
            ),
    {
        let key: u32 = symbol.key;
        if let Some(slot) = lookup(&self.stack_locals, key) {
            if let Some(target_ty) = lookup_type(&self.variable_types, key) {
                let value: usize = self.coerce_integer_value(value, target_ty, source);
                self.emit(Op::StackStore { value, slot, offset: 0 });
                return Ok(value);
            }
        }
        if let Some(variable) = lookup(&self.variables, key) {
            return match lookup_type(&self.variable_types, key) {
                Some(variable_ty) => {
                    let value: usize = self.coerce_integer_value(value, variable_ty, source);
                    self.emit(Op::DefVar { variable, value });
                    Ok(value)
                },
                None => Err(
                    unsupported(
                        expression.location,
                        "SIA32 local variable type metadata is missing",
                    ),
                ),
            };
        }
        if self.tables.globals.contains_key(&key) {
            let address: usize = self.symbol_address(key, 0, left.location)?;
            return self.store_value(address, &symbol.ctype, left.location, value, source);
        }
        let name = concat2(
            "SIA32 assignment to unmapped Id: symbol=",
            symbol.repr.as_str(),
        );
        let message = concat3(name.as_str(), ", lhs=", left.repr.as_str());
        Err(unsupported(left.location, message.as_str()))
    }

    /// A comparison as a C `int`.
    ///
    /// Machine comparisons produce a byte, but a C comparison has type `int`:
    /// the canonical boolean is widened to the native width.
    fn compare(&mut self, op: Op) -> (result: Result<usize, Error>)
        ensures
            (final(self)@, outcome(result)) == compared(old(self)@, op),
    {
        let boolean: usize = self.emit(op);
        Ok(self.emit(Op::Unary { inst: UnaryInst::Uextend, ty: IrType::I32, value: boolean }))
    }

    /// Applies an operator to two computed operands.
    ///
    /// The front end records C's usual arithmetic conversions on the whole
    /// expression: both operands are brought to that width first.
    fn operate(
        &mut self,
        expression: &Expr,
        operator: BinaryOp,
        left_type: &Type,
        right_type: &Type,
        left: usize,
        right: usize,
    ) -> (result: Result<usize, Error>)
        ensures
            (final(self)@, outcome(result)) == operated(
                old(self)@,
                *expression,
                operator,
                *left_type,
                *right_type,
                left,
                right,
            ),
    {
        if let BinaryOp::Compare(token) = operator {
            if matches!(left_type.kind, TypeKind::Pointer(_)) && matches!(
                right_type.kind,
                TypeKind::Pointer(_)
            ) {
                let condition = integer_condition(token, false);
                return self.compare(Op::CompareInt { condition, left, right });
            }
            if is_floating(left_type) || is_floating(right_type) {
                let condition = floating_condition(token);
                return self.compare(Op::CompareFloat { condition, left, right });
            }
        }
        let ty = match operator {
            BinaryOp::Shl | BinaryOp::Shr => self.value_type(left),
            BinaryOp::Compare(_) => {
                let left_ty = self.value_type(left);
                let right_ty = self.value_type(right);
                if left_ty.bits() >= right_ty.bits() {
                    left_ty
                } else {
                    right_ty
                }
            },
            _ => ir_type(&expression.ctype, expression.location)?,
        };
        if is_floating(&expression.ctype) {
            return match floating_instruction(operator) {
                Some(inst) => Ok(self.binary(inst, left, right)),
                None => {
                    let message = concat3(
                        "floating-point operator ",
                        operator_text(operator),
                        " is not part of L12",
                    );
                    Err(unsupported(expression.location, message.as_str()))
                },
            };
        }
        let signed = is_signed_integer_type(left_type);
        let left: usize = self.coerce_integer_value(left, ty, left_type);
        let right: usize = self.coerce_integer_value(right, ty, right_type);
        match operator {
            BinaryOp::Compare(token) => {
                let condition = integer_condition(token, signed);
                self.compare(Op::CompareInt { condition, left, right })
            },
            _ => Ok(self.binary(integer_instruction(operator, signed), left, right)),
        }
    }

    /// The address of a named object whose member is accessed.
    fn object_address(&mut self, key: u32, location: Location) -> (result: Result<usize, Error>)
        ensures
            (final(self)@, outcome(result)) == object_address_spec(old(self)@, key, location),
    {
        if let Some(slot) = lookup(&self.stack_locals, key) {
            Ok(self.emit(Op::StackAddr { slot }))
        } else if let Some(variable) = lookup(&self.variables, key) {
            Ok(self.use_var(variable))
        } else {
            self.symbol_address(key, 0, location)
        }
    }

    /// Makes a signature known to the function.
    fn import_signature(&mut self, types: &Vec<IrType>, result_type: Option<IrType>) -> (result:
        usize)
        ensures
            (final(self)@, result) == signature_spec(old(self)@, types@, result_type),
    {
        self.emit(Op::BeginSignature);
        let ghost start = self@;
        let mut index: usize = 0;
        while index < types.len()
            invariant
                index <= types@.len(),
                signature_params_from(self@, types@, index as nat) == signature_params_from(
                    start,
                    types@,
                    0,
                ),
            decreases types@.len() - index,
        {
            self.emit(Op::SignatureParam { ty: types[index] });
            index += 1;
        }
        if let Some(ty) = result_type {
            self.emit(Op::SignatureReturn { ty });
        }
        self.emit(Op::ImportSignature)
    }

    /// Hands the values to the call that follows.
    fn pass_arguments(&mut self, values: &Vec<usize>)
        ensures
            final(self)@ == call_arguments_from(old(self)@, values@, 0),
    {
        let mut index: usize = 0;
        while index < values.len()
            invariant
                index <= values@.len(),
                call_arguments_from(self@, values@, index as nat) == call_arguments_from(
                    old(self)@,
                    values@,
                    0,
                ),
            decreases values@.len() - index,
        {
            self.emit(Op::CallArgument { value: values[index] });
            index += 1;
        }
    }

    /// The number of the function that a call names directly.
    fn direct_call_index(&self, function: &Expr, location: Location) -> (result: Result<
        Option<usize>,
        Error,
    >)
        ensures
            outcome(result) == direct_callee(self@, *function, location),
    {
        match &function.expr {
            ExprType::Id(symbol) => {
                if !matches!(symbol.ctype.kind, TypeKind::Function(_)) {
                    return Ok(None);
                }
                match lookup(&self.tables.functions, symbol.key) {
                    Some(index) => Ok(Some(index)),
                    None => {
                        let message = concat3(
                            "SIA32 direct call target `",
                            symbol.name.as_str(),
                            "` has no translation-unit declaration",
                        );
                        Err(unsupported(location, message.as_str()))
                    },
                }
            },
            _ => Ok(None),
        }
    }

    /// Prepares a call: its signature, its function and the room for an
    /// object that it returns.
    fn open_call(
        &mut self,
        callee: &FunctionType,
        direct: Option<usize>,
        types: &Vec<IrType>,
        result_type: Option<IrType>,
        location: Location,
    ) -> (result: Result<CallTarget, Error>)
        ensures
            (final(self)@, outcome(result)) == call_opened(
                old(self)@,
                *callee,
                direct,
                types@,
                result_type,
                location,
            ),
    {
        let signature: usize = self.import_signature(types, result_type);
        let function = match direct {
            Some(index) => Some(self.emit(Op::ImportFunction { index, signature })),
            None => None,
        };
        if is_by_value_aggregate(&callee.return_type) {
            let (_, address) = self.create_aggregate_slot(&callee.return_type, location)?;
            Ok(CallTarget { signature, function, result: Some(address) })
        } else {
            Ok(CallTarget { signature, function, result: None })
        }
    }

    /// The value that is passed for an argument.
    fn pass_argument(
        &mut self,
        value: usize,
        ctype: &Type,
        parameter: Option<&Type>,
        location: Location,
    ) -> (result: Result<usize, Error>)
        ensures
            (final(self)@, outcome(result)) == passed_spec(
                old(self)@,
                value,
                *ctype,
                (match parameter {
                    Some(parameter) => Some(*parameter),
                    None => None,
                }),
                location,
            ),
    {
        match parameter {
            Some(parameter) => {
                if is_by_value_aggregate(parameter) {
                    let (_, address) = self.create_aggregate_slot(parameter, location)?;
                    self.copy_aggregate_value(address, value, parameter, location)?;
                    Ok(address)
                } else {
                    let ty = abi_parameter_type(parameter, location)?;
                    Ok(self.coerce_integer_value(value, ty, ctype))
                }
            },
            None => {
                let ty = promoted_type(ctype, location)?;
                Ok(self.coerce_integer_value(value, ty, ctype))
            },
        }
    }

    /// Makes a call and takes its value.
    fn finish_call(&mut self, op: Op, callee: &FunctionType, target: &CallTarget) -> (result: Result<
        usize,
        Error,
    >)
        ensures
            (final(self)@, outcome(result)) == called(old(self)@, op, *callee, *target),
    {
        let call: usize = self.emit(op);
        if let Some(address) = target.result {
            return Ok(address);
        }
        if matches!(callee.return_type.kind, TypeKind::Void) {
            // Expression statements discard this value: a harmless integer
            // keeps every expression a value without inventing a machine
            // return value.
            return Ok(self.emit(Op::Iconst { ty: IrType::I32, value: 0 }));
        }
        Ok(call)
    }

    /// Lowers an expression and tests its value for being other than zero.
    pub fn compile_condition(&mut self, expression: &Expr) -> (result: Result<usize, Error>)
        ensures
            (final(self)@, outcome(result)) == condition_spec(old(self)@, *expression),
        decreases expression, 3nat,
    {
        let value: usize = self.compile_expr(expression)?;
        Ok(self.compare_to_zero(value))
    }

    /// Lowers an expression to its value.
    pub fn compile_expr(&mut self, expression: &Expr) -> (result: Result<usize, Error>)
        ensures
            (final(self)@, outcome(result)) == expr_spec(old(self)@, *expression),
        decreases expression, 2nat,
    {
        let ty = expression_type(expression)?;
        match &expression.expr {
            ExprType::Id(symbol) => self.compile_id(expression, symbol.key),
            ExprType::StaticRef(value) => self.compile_static_ref(value),
            ExprType::Literal(literal) => self.compile_literal(literal, ty, expression.location),
            ExprType::Noop(value) => self.compile_expr(value),
            ExprType::Cast(value) => self.compile_cast(expression, value, ty),
            ExprType::Sizeof(sized) => self.compile_sizeof(sized, ty, expression.location),
            ExprType::Comma(left, right) => self.compile_comma(expression, left, right, ty),
            ExprType::Member(base, member) => self.compile_member(expression, base, *member, ty),
            ExprType::Deref(pointer) => self.compile_deref(expression, pointer, ty),
            ExprType::Negate(value) => self.compile_negate(expression, value, ty),
            ExprType::BitwiseNot(value) => self.compile_bitwise_not(value, ty),
            ExprType::PostIncrement(value, increment) => {
                self.compile_increment(value, *increment, expression.location)
            },
            ExprType::Ternary(condition, yes, no) => {
                self.compile_ternary(expression, condition, yes, no, ty)
            },
            ExprType::Binary(operator, left, right) => {
                self.compile_binary(expression, *operator, left, right)
            },
            ExprType::FuncCall(function, arguments) => {
                self.compile_call(expression, function, arguments)
            },
        }
    }

    /// Lowers an address taken.
    ///
    /// `&*p` is exactly `p` and does not load. Every other operand uses the
    /// same address path as assignment and `++`.
    fn compile_static_ref(&mut self, value: &Expr) -> (result: Result<usize, Error>)
        ensures
            (final(self)@, outcome(result)) == static_ref_spec(old(self)@, *value),
        decreases value, 4nat,
    {
        let lvalue = strip_wrappers(value);
        proof {
            stripped_is_part(*value);
        }
        if let ExprType::Deref(pointer) = &lvalue.expr {
            self.compile_expr(pointer)
        } else {
            self.compile_lvalue_address(lvalue)
        }
    }

    /// Lowers a conversion.
    fn compile_cast(&mut self, expression: &Expr, value: &Expr, ty: IrType) -> (result: Result<
        usize,
        Error,
    >)
        ensures
            (final(self)@, outcome(result)) == cast_spec(old(self)@, *expression, *value, ty),
        decreases value, 4nat,
    {
        let operand: usize = self.compile_expr(value)?;
        if matches!(expression.ctype.kind, TypeKind::Void) {
            return Ok(self.emit(Op::Iconst { ty: IrType::I32, value: 0 }));
        }
        if is_stored_as_object(&value.ctype) && matches!(
            expression.ctype.kind,
            TypeKind::Pointer(_)
        ) {
            return Ok(operand);
        }
        self.convert(expression, value, ty, operand)
    }

    /// Lowers `sizeof`.
    fn compile_sizeof(&mut self, sized: &Type, ty: IrType, location: Location) -> (result: Result<
        usize,
        Error,
    >)
        ensures
            (final(self)@, outcome(result)) == sizeof_spec(old(self)@, *sized, ty, location),
        decreases sized, 0nat,
    {
        match &sized.kind {
            TypeKind::Array(element, ArrayType::Variable(bound_expression)) => {
                let size: u64 = size_or(
                    element,
                    location,
                    "sizeof VLA element type must be complete",
                )?;
                let bound: usize = self.compile_expr(bound_expression)?;
                let bound_ty = self.value_type(bound);
                let bound: usize = if bound_ty == ty {
                    bound
                } else if bound_ty.bits() < ty.bits() {
                    self.emit(Op::Unary { inst: UnaryInst::Uextend, ty, value: bound })
                } else {
                    self.emit(Op::Unary { inst: UnaryInst::Ireduce, ty, value: bound })
                };
                let scale: usize = self.emit(
                    Op::Iconst { ty, value: #[verifier::truncate] (size as i64) },
                );
                Ok(self.binary(BinaryInst::Imul, bound, scale))
            },
            _ => {
                let size: u64 = size_or(sized, location, "sizeof requires a complete SIA32 type")?;
                Ok(self.emit(Op::Iconst { ty, value: #[verifier::truncate] (size as i64) }))
            },
        }
    }

    /// Lowers two expressions of which the second is the value.
    fn compile_comma(&mut self, expression: &Expr, left: &Expr, right: &Expr, ty: IrType) -> (result:
        Result<usize, Error>)
        requires
            expression.expr matches ExprType::Comma(l, r) && *l == *left && *r == *right,
        ensures
            (final(self)@, outcome(result)) == comma_spec(old(self)@, *expression, ty),
        decreases expression, 0nat,
    {
        let _ = self.compile_expr(left)?;
        let value: usize = self.compile_expr(right)?;
        Ok(self.coerce_operand(value, ty, &right.ctype))
    }

    /// Lowers a member access.
    fn compile_member(&mut self, expression: &Expr, base: &Expr, member: u32, ty: IrType) -> (result:
        Result<usize, Error>)
        ensures
            (final(self)@, outcome(result)) == member_spec(
                old(self)@,
                *expression,
                *base,
                member,
                ty,
            ),
        decreases base, 4nat,
    {
        let address: usize = self.compile_member_address(base, member, expression.location)?;
        if is_address_valued_type(&expression.ctype) {
            Ok(address)
        } else {
            Ok(self.emit(Op::Load { ty, address, offset: 0 }))
        }
    }

    /// Lowers what a pointer points at.
    ///
    /// The front end represents an ordinary read of a local as a dereference
    /// of its name: a local that lives in a variable is read from there.
    fn compile_deref(&mut self, expression: &Expr, pointer: &Expr, ty: IrType) -> (result: Result<
        usize,
        Error,
    >)
        ensures
            (final(self)@, outcome(result)) == deref_spec(old(self)@, *expression, *pointer, ty),
        decreases pointer, 4nat,
    {
        if is_address_valued_type(&expression.ctype) {
            return self.compile_expr(pointer);
        }
        match &pointer.expr {
            ExprType::Id(symbol) => self.compile_deref_id(symbol.key, ty, expression.location),
            ExprType::Member(_, _) | ExprType::Noop(_) | ExprType::Cast(_) => {
                let address: usize = self.compile_lvalue_address(pointer)?;
                Ok(self.emit(Op::Load { ty, address, offset: 0 }))
            },
            _ => {
                let address: usize = self.compile_expr(pointer)?;
                Ok(self.emit(Op::Load { ty, address, offset: 0 }))
            },
        }
    }

    /// Lowers a negation.
    fn compile_negate(&mut self, expression: &Expr, value: &Expr, ty: IrType) -> (result: Result<
        usize,
        Error,
    >)
        ensures
            (final(self)@, outcome(result)) == negate_spec(old(self)@, *expression, *value, ty),
        decreases value, 4nat,
    {
        let operand: usize = self.compile_expr(value)?;
        if is_floating(&expression.ctype) {
            let float_ty = self.value_type(operand);
            return Ok(
                self.emit(Op::Unary { inst: UnaryInst::Fneg, ty: float_ty, value: operand }),
            );
        }
        let operand: usize = self.coerce_integer_value(operand, ty, &value.ctype);
        let zero: usize = self.emit(Op::Iconst { ty, value: 0 });
        Ok(self.binary(BinaryInst::Isub, zero, operand))
    }

    /// Lowers a complement.
    fn compile_bitwise_not(&mut self, value: &Expr, ty: IrType) -> (result: Result<usize, Error>)
        ensures
            (final(self)@, outcome(result)) == bitwise_not_spec(old(self)@, *value, ty),
        decreases value, 4nat,
    {
        let operand: usize = self.compile_expr(value)?;
        let operand: usize = self.coerce_integer_value(operand, ty, &value.ctype);
        let ones: usize = self.emit(Op::Iconst { ty, value: -1 });
        Ok(self.binary(BinaryInst::Bxor, operand, ones))
    }

    /// Lowers `++` and `--` after an lvalue.
    fn compile_increment(&mut self, value: &Expr, increment: bool, location: Location) -> (result:
        Result<usize, Error>)
        ensures
            (final(self)@, outcome(result)) == increment_spec(
                old(self)@,
                *value,
                increment,
                location,
            ),
        decreases value, 4nat,
    {
        let lvalue = strip_wrappers(value);
        proof {
            stripped_is_part(*value);
        }
        if let Some(home) = self.home_of_local(lvalue) {
            let (ty, step) = scalar_step(type_of_object(value), location)?;
            return Ok(self.increment_local(home, ty, step, increment));
        }
        let address: usize = self.compile_lvalue_address(lvalue)?;
        let (ty, step) = scalar_step(type_of_object(value), location)?;
        let before: usize = self.emit(Op::Load { ty, address, offset: 0 });
        let value: usize = self.step_value(before, step, increment);
        self.emit(Op::Store { value, address, offset: 0 });
        Ok(before)
    }

    /// Lowers a choice between two values.
    fn compile_ternary(
        &mut self,
        expression: &Expr,
        condition: &Expr,
        yes: &Expr,
        no: &Expr,
        ty: IrType,
    ) -> (result: Result<usize, Error>)
        requires
            expression.expr matches ExprType::Ternary(c, y, n) && *c == *condition && *y == *yes
                && *n == *no,
        ensures
            (final(self)@, outcome(result)) == ternary_spec(old(self)@, *expression, ty),
        decreases expression, 0nat,
    {
        let condition: usize = self.compile_condition(condition)?;
        let yes_block: usize = self.emit(Op::CreateBlock);
        let no_block: usize = self.emit(Op::CreateBlock);
        let merge_block: usize = self.emit(Op::CreateBlock);
        let result: usize = self.emit(Op::AppendBlockParam { block: merge_block, ty });
        self.emit(Op::Branch { condition, yes: yes_block, no: no_block });

        self.switch_to_sealed(yes_block);
        let value: usize = self.compile_expr(yes)?;
        let value: usize = self.coerce_operand(value, ty, &yes.ctype);
        self.emit(Op::JumpWith { block: merge_block, value });

        self.switch_to_sealed(no_block);
        let value: usize = self.compile_expr(no)?;
        let value: usize = self.coerce_operand(value, ty, &no.ctype);
        self.emit(Op::JumpWith { block: merge_block, value });

        self.emit(Op::SealBlock { block: merge_block });
        self.switch_to_block(merge_block);
        Ok(result)
    }

    /// Lowers a binary operator.
    fn compile_binary(
        &mut self,
        expression: &Expr,
        operator: BinaryOp,
        left: &Expr,
        right: &Expr,
    ) -> (result: Result<usize, Error>)
        requires
            expression.expr matches ExprType::Binary(o, l, r) && o == operator && *l == *left && *r
                == *right,
            value_type_spec(*expression) is Ok,
        ensures
            (final(self)@, outcome(result)) == expr_spec(old(self)@, *expression),
        decreases expression, 1nat,
    {
        let left_pointer = matches!(left.ctype.kind, TypeKind::Pointer(_));
        let right_pointer = matches!(right.ctype.kind, TypeKind::Pointer(_));
        match operator {
            BinaryOp::Assign => {
                return self.compile_assign(expression, left, right);
            },
            BinaryOp::LogicalAnd | BinaryOp::LogicalOr => {
                return self.compile_logical(expression, operator, left, right);
            },
            BinaryOp::Sub => {
                if left_pointer && right_pointer {
                    return self.compile_pointer_difference(expression, left, right);
                }
                if left_pointer {
                    return self.compile_pointer_offset(expression, left, right, true, false);
                }
            },
            BinaryOp::Add => {
                if left_pointer {
                    return self.compile_pointer_offset(expression, left, right, false, false);
                }
                if right_pointer {
                    return self.compile_pointer_offset(expression, right, left, false, true);
                }
            },
            _ => {},
        }
        self.compile_operands(expression, operator, left, right)
    }

    /// Lowers an operator that computes both operands, left to right.
    fn compile_operands(
        &mut self,
        expression: &Expr,
        operator: BinaryOp,
        left: &Expr,
        right: &Expr,
    ) -> (result: Result<usize, Error>)
        requires
            expression.expr matches ExprType::Binary(o, l, r) && o == operator && *l == *left && *r
                == *right,
        ensures
            (final(self)@, outcome(result)) == binary_spec(old(self)@, *expression),
        decreases expression, 0nat,
    {
        let left_value: usize = self.compile_expr(left)?;
        let right_value: usize = self.compile_expr(right)?;
        self.operate(expression, operator, &left.ctype, &right.ctype, left_value, right_value)
    }

    /// Lowers an assignment.
    ///
    /// The front end can wrap the destination in conversions, which are
    /// stripped first, and may name a local directly or through a
    /// dereference: both mean the same variable.
    fn compile_assign(&mut self, expression: &Expr, left: &Expr, right: &Expr) -> (result: Result<
        usize,
        Error,
    >)
        requires
            expression.expr matches ExprType::Binary(o, l, r) && *l == *left && *r == *right,
        ensures
            (final(self)@, outcome(result)) == assign_spec(old(self)@, *expression),
        decreases expression, 0nat,
    {
        let target = strip_wrappers(left);
        proof {
            stripped_is_part(*left);
        }
        let ctype = type_of_object(left);
        if is_stored_as_object(ctype) {
            let destination: usize = self.compile_lvalue_address(target)?;
            let source: usize = self.compile_expr(right)?;
            self.copy_aggregate_value(destination, source, ctype, expression.location)?;
            return Ok(destination);
        }
        let value: usize = self.compile_expr(right)?;
        if let ExprType::Id(symbol) = &target.expr {
            return self.compile_assign_id(expression, left, symbol, value, &right.ctype);
        }
        let address: usize = self.compile_lvalue_address(target)?;
        self.store_value(address, ctype, left.location, value, &right.ctype)
    }

    /// Lowers `&&` and `||`.
    ///
    /// C's logical operators sequence their operands: the right one is
    /// evaluated only when required, so they become explicit control flow
    /// that merges a canonical nought or one.
    fn compile_logical(
        &mut self,
        expression: &Expr,
        operator: BinaryOp,
        left: &Expr,
        right: &Expr,
    ) -> (result: Result<usize, Error>)
        requires
            expression.expr matches ExprType::Binary(o, l, r) && o == operator && *l == *left && *r
                == *right,
        ensures
            (final(self)@, outcome(result)) == logical_spec(old(self)@, *expression),
        decreases expression, 0nat,
    {
        let both = matches!(operator, BinaryOp::LogicalAnd);
        let left_true: usize = self.compile_condition(left)?;
        let rhs_block: usize = self.emit(Op::CreateBlock);
        let short_block: usize = self.emit(Op::CreateBlock);
        let merge_block: usize = self.emit(Op::CreateBlock);
        let result: usize = self.emit(
            Op::AppendBlockParam { block: merge_block, ty: IrType::I32 },
        );
        if both {
            self.emit(Op::Branch { condition: left_true, yes: rhs_block, no: short_block });
        } else {
            self.emit(Op::Branch { condition: left_true, yes: short_block, no: rhs_block });
        }

        self.emit(Op::SealBlock { block: short_block });
        self.switch_to_block(short_block);
        let short_value: i64 = if both {
            0
        } else {
            1
        };
        let short_value: usize = self.emit(Op::Iconst { ty: IrType::I32, value: short_value });
        self.emit(Op::JumpWith { block: merge_block, value: short_value });

        self.emit(Op::SealBlock { block: rhs_block });
        self.switch_to_block(rhs_block);
        let right_true: usize = self.compile_condition(right)?;
        let right_result: usize = self.emit(
            Op::Unary { inst: UnaryInst::Uextend, ty: IrType::I32, value: right_true },
        );
        self.emit(Op::JumpWith { block: merge_block, value: right_result });

        self.emit(Op::SealBlock { block: merge_block });
        self.switch_to_block(merge_block);
        Ok(result)
    }

    /// Lowers the difference of two pointers.
    fn compile_pointer_difference(&mut self, expression: &Expr, left: &Expr, right: &Expr) -> (result:
        Result<usize, Error>)
        requires
            expression.expr matches ExprType::Binary(o, l, r) && *l == *left && *r == *right,
        ensures
            (final(self)@, outcome(result)) == pointer_difference_spec(old(self)@, *expression),
        decreases expression, 0nat,
    {
        let message = "SIA32 pointer difference requires a complete pointee type";
        let left_size: u64 = size_of_pointee(&left.ctype, expression.location, message)?;
        let right_size: u64 = size_of_pointee(&right.ctype, expression.location, message)?;
        if left_size != right_size {
            return Err(
                unsupported(
                    expression.location,
                    "SIA32 pointer difference requires compatible pointee sizes",
                ),
            );
        }
        let left_value: usize = self.compile_expr(left)?;
        let right_value: usize = self.compile_expr(right)?;
        let bytes: usize = self.binary(BinaryInst::Isub, left_value, right_value);
        if left_size == 1 {
            return Ok(bytes);
        }
        let scale: usize = self.emit(
            Op::Iconst { ty: IrType::I32, value: #[verifier::truncate] (left_size as i64) },
        );
        Ok(self.binary(BinaryInst::Sdiv, bytes, scale))
    }

    /// Lowers a pointer moved by a number of elements.
    fn compile_pointer_offset(
        &mut self,
        expression: &Expr,
        pointer: &Expr,
        index: &Expr,
        subtract: bool,
        swapped: bool,
    ) -> (result: Result<usize, Error>)
        requires
            expression.expr matches ExprType::Binary(o, l, r) && subtract == (o == BinaryOp::Sub)
                && if swapped {
                *r == *pointer && *l == *index
            } else {
                *l == *pointer && *r == *index
            },
        ensures
            (final(self)@, outcome(result)) == pointer_offset_spec(
                old(self)@,
                *expression,
                swapped,
            ),
        decreases expression, 0nat,
    {
        let base: usize = self.compile_expr(pointer)?;
        let value: usize = self.compile_expr(index)?;
        let value: usize = self.coerce_integer_value(value, IrType::I32, &index.ctype);
        let size: u64 = size_of_pointee(
            &pointer.ctype,
            expression.location,
            "SIA32 pointer arithmetic requires a complete pointee type",
        )?;
        let scale: usize = self.emit(
            Op::Iconst { ty: IrType::I32, value: #[verifier::truncate] (size as i64) },
        );
        let delta: usize = self.binary(BinaryInst::Imul, value, scale);
        let inst = if subtract {
            BinaryInst::Isub
        } else {
            BinaryInst::Iadd
        };
        Ok(self.binary(inst, base, delta))
    }

    /// Lowers a call.
    fn compile_call(&mut self, expression: &Expr, function: &Expr, arguments: &Vec<Expr>) -> (result:
        Result<usize, Error>)
        requires
            expression.expr matches ExprType::FuncCall(f, a) && *f == *function && a == *arguments,
        ensures
            (final(self)@, outcome(result)) == call_spec(old(self)@, *expression),
        decreases expression, 0nat,
    {
        let location = expression.location;
        let callee = call_target_type(&function.ctype, location)?;
        let direct = self.direct_call_index(function, location)?;
        let named = function_parameters(callee);
        if (!callee.varargs && arguments.len() != named.len()) || (callee.varargs
            && arguments.len() < named.len()) {
            return Err(unsupported(location, "SIA32 call argument count mismatch"));
        }
        let types = call_types(callee, arguments, location)?;
        let result_type = function_return_type(callee, location)?;
        let target = self.open_call(callee, direct, &types, result_type, location)?;
        let mut values: Vec<usize> = Vec::new();
        if let Some(address) = target.result {
            values.push(address);
            assert(values@ =~= seq![address]);
        }
        let values = self.compile_arguments(arguments, named, values, location)?;
        match target.function {
            Some(imported) => {
                self.pass_arguments(&values);
                self.finish_call(
                    Op::Call { function: imported, result: result_type },
                    callee,
                    &target,
                )
            },
            None => {
                let address: usize = self.compile_expr(function)?;
                self.pass_arguments(&values);
                self.finish_call(
                    Op::CallIndirect {
                        signature: target.signature,
                        callee: address,
                        result: result_type,
                    },
                    callee,
                    &target,
                )
            },
        }
    }

    /// Lowers the arguments of a call, after the values that are there already.
    fn compile_arguments(
        &mut self,
        arguments: &Vec<Expr>,
        named: &[Symbol],
        first: Vec<usize>,
        location: Location,
    ) -> (result: Result<Vec<usize>, Error>)
        ensures
            (final(self)@, outcome_view(result)) == arguments_spec(
                old(self)@,
                arguments@,
                named@,
                0,
                first@,
                location,
            ),
        decreases arguments@, arguments@.len() + 1,
    {
        let ghost start = self@;
        let ghost opening = first@;
        let mut values = first;
        let mut index: usize = 0;
        while index < arguments.len()
            invariant
                index <= arguments@.len(),
                start == old(self)@,
                opening == first@,
                arguments_spec(self@, arguments@, named@, index as nat, values@, location)
                    == arguments_spec(start, arguments@, named@, 0, opening, location),
            decreases arguments@.len() - index,
        {
            let argument = &arguments[index];
            let value: usize = self.compile_expr(argument)?;
            let parameter = if index < named.len() {
                Some(&*named[index].ctype)
            } else {
                None
            };
            let value: usize = self.pass_argument(value, &argument.ctype, parameter, location)?;
            values.push(value);
            index += 1;
        }
        Ok(values)
    }

    /// Lowers the address of an lvalue.
    pub fn compile_lvalue_address(&mut self, lvalue: &Expr) -> (result: Result<usize, Error>)
        ensures
            (final(self)@, outcome(result)) == lvalue_spec(old(self)@, *lvalue),
        decreases lvalue, 3nat,
    {
        match &lvalue.expr {
            ExprType::Id(symbol) => {
                if self.variables.contains_key(&symbol.key) || self.stack_locals.contains_key(
                    &symbol.key,
                ) || self.vla_bases.contains_key(&symbol.key) {
                    self.address_of_local(symbol.key, lvalue.location)
                } else {
                    self.symbol_address(symbol.key, 0, lvalue.location)
                }
            },
            ExprType::Deref(pointer) => self.compile_expr(pointer),
            ExprType::Member(base, member) => {
                self.compile_member_address(base, *member, lvalue.location)
            },
            // Subscripting arrives as pointer arithmetic, which can stand
            // directly as the lvalue.
            ExprType::Binary(BinaryOp::Add, _, _) => self.compile_expr(lvalue),
            ExprType::Noop(inner) | ExprType::Cast(inner) => self.compile_lvalue_address(inner),
            _ => {
                let message = concat2(
                    "SIA32 cannot form address for lvalue ",
                    lvalue.repr.as_str(),
                );
                Err(unsupported(lvalue.location, message.as_str()))
            },
        }
    }

    /// Lowers the address of a member.
    pub fn compile_member_address(&mut self, base: &Expr, member: u32, location: Location) -> (result:
        Result<usize, Error>)
        ensures
            (final(self)@, outcome(result)) == member_address_spec(
                old(self)@,
                *base,
                member,
                location,
            ),
        decreases base, 3nat,
    {
        let offset: u64 = member_access_offset(&base.ctype, member, location)?;
        let object = strip_wrappers(base);
        proof {
            stripped_is_part(*base);
        }
        let address: usize = match &object.expr {
            // Direct access to a member of a local or a global.
            ExprType::Id(symbol) => self.object_address(symbol.key, location)?,
            // Access through a pointer, nested expressions included.
            ExprType::Deref(pointer) => self.compile_expr(pointer)?,
            // Nested direct access.
            ExprType::Member(parent, parent_member) => {
                self.compile_member_address(parent, *parent_member, location)?
            },
            // An element of an array of aggregates is pointer arithmetic
            // whose value is already the element's address.
            ExprType::Binary(BinaryOp::Add, _, _) => self.compile_expr(object)?,
            _ => {
                let message = concat2(
                    "SIA32 member access requires an addressable aggregate: base=",
                    object.repr.as_str(),
                );
                return Err(unsupported(location, message.as_str()));
            },
        };
        if offset == 0 {
            Ok(address)
        } else {
            let delta: usize = self.emit(
                Op::Iconst { ty: IrType::I32, value: #[verifier::truncate] (offset as i64) },
            );
            Ok(self.binary(BinaryInst::Iadd, address, delta))
        }
    }
}

} // verus!
