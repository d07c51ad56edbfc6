//! What is asked of the machine for floating-point numbers, and for constants
//! that are not numbers of its own.

use crate::error::ErrorView;
use crate::hir::{BinaryOp, ComparisonToken, Expr, ExprType, LiteralValue};
use crate::ir::{FloatCC, IrType, Op, UnaryInst};
use crate::lower::expr_model::{binary_spec, expr_spec, negate_spec, operated};
use crate::lower::state::{pool_position, Lowering};
use crate::lower::unary_laws::type_of;
use crate::types::floating;
use vstd::prelude::*;

verus! {

/// An operator on floating-point numbers is computed by the instruction of
/// that name, on the value of its left operand and then that of its right
/// operand.
pub proof fn a_float_operator_is_its_own_instruction(s: Lowering, e: Expr)
    requires
        e.expr is Binary,
        !(e.expr->Binary_0 is Compare),
        e.expr->Binary_0 != BinaryOp::Assign,
        e.expr->Binary_0 != BinaryOp::LogicalAnd,
        e.expr->Binary_0 != BinaryOp::LogicalOr,
        !(e.expr->Binary_1.ctype.kind is Pointer),
        !(e.expr->Binary_2.ctype.kind is Pointer),
        floating(e.ctype),
        expr_spec(s, e).1 is Ok,
        expr_spec(s, e).0.ops.len() <= usize::MAX,
    ensures
        ({
            let (first, left) = expr_spec(s, *e.expr->Binary_1);
            let (second, right) = expr_spec(first, *e.expr->Binary_2);
            let (after, result) = expr_spec(s, e);
            &&& left is Ok && right is Ok
            &&& after.ops.len() == second.ops.len() + 1
            &&& result->Ok_0 == second.ops.len()
            &&& after.ops.last() matches Op::Binary { inst, ty: _, left: l, right: r } && {
                &&& l == left->Ok_0
                &&& r == right->Ok_0
                &&& e.expr->Binary_0 == BinaryOp::Add <==> inst is Fadd
                &&& e.expr->Binary_0 == BinaryOp::Sub <==> inst is Fsub
                &&& e.expr->Binary_0 == BinaryOp::Mul <==> inst is Fmul
                &&& e.expr->Binary_0 == BinaryOp::Div <==> inst is Fdiv
                &&& inst is Fadd || inst is Fsub || inst is Fmul || inst is Fdiv
            }
        }),
{
    let (first, left) = expr_spec(s, *e.expr->Binary_1);
    let (second, right) = expr_spec(first, *e.expr->Binary_2);
    assert(expr_spec(s, e) == binary_spec(s, e));
    assert(binary_spec(s, e) == operated(
        second,
        e,
        e.expr->Binary_0,
        e.expr->Binary_1.ctype,
        e.expr->Binary_2.ctype,
        left->Ok_0,
        right->Ok_0,
    ));
}

/// Whether a condition on floating-point numbers is the comparison.
pub open spec fn same_comparison(condition: FloatCC, token: ComparisonToken) -> bool {
    &&& condition is LessThan <==> token is Less
    &&& condition is GreaterThan <==> token is Greater
    &&& condition is Equal <==> token is EqualEqual
    &&& condition is NotEqual <==> token is NotEqual
    &&& condition is LessThanOrEqual <==> token is LessEqual
    &&& condition is GreaterThanOrEqual <==> token is GreaterEqual
}

/// A comparison of floating-point numbers compares the left operand with the
/// right one, and gives nought or one as an `int`.
pub proof fn a_float_comparison_is_its_own_condition(s: Lowering, e: Expr)
    requires
        e.expr is Binary,
        e.expr->Binary_0 is Compare,
        floating(e.expr->Binary_1.ctype) || floating(e.expr->Binary_2.ctype),
        expr_spec(s, e).1 is Ok,
        expr_spec(s, e).0.ops.len() <= usize::MAX,
    ensures
        ({
            let (first, left) = expr_spec(s, *e.expr->Binary_1);
            let (second, right) = expr_spec(first, *e.expr->Binary_2);
            let (after, result) = expr_spec(s, e);
            let at = second.ops.len() as int;
            &&& left is Ok && right is Ok
            &&& after.ops.len() == at + 2
            &&& result->Ok_0 == at + 1
            &&& after.ops[at] matches Op::CompareFloat { condition, left: l, right: r } && {
                &&& l == left->Ok_0
                &&& r == right->Ok_0
                &&& same_comparison(condition, e.expr->Binary_0->Compare_0)
            }
            &&& after.ops[at + 1] == (Op::Unary {
                inst: UnaryInst::Uextend,
                ty: IrType::I32,
                value: at as usize,
            })
        }),
{
    let (first, left) = expr_spec(s, *e.expr->Binary_1);
    let (second, right) = expr_spec(first, *e.expr->Binary_2);
    assert(expr_spec(s, e) == binary_spec(s, e));
    assert(binary_spec(s, e) == operated(
        second,
        e,
        e.expr->Binary_0,
        e.expr->Binary_1.ctype,
        e.expr->Binary_2.ctype,
        left->Ok_0,
        right->Ok_0,
    ));
}

/// A negated floating-point number is negated by the machine.
pub proof fn a_float_is_negated(s: Lowering, e: Expr, operand: Expr)
    requires
        e.expr matches ExprType::Negate(value) && *value == operand,
        floating(e.ctype),
        expr_spec(s, e).1 is Ok,
        expr_spec(s, e).0.ops.len() <= usize::MAX,
    ensures
        ({
            let (computed, value) = expr_spec(s, operand);
            let (after, result) = expr_spec(s, e);
            &&& value is Ok
            &&& result->Ok_0 == computed.ops.len()
            &&& after.ops.len() == computed.ops.len() + 1
            &&& after.ops.last() matches Op::Unary { inst, ty: _, value: v } && inst is Fneg && v
                == value->Ok_0
        }),
{
    assert(expr_spec(s, e) == negate_spec(s, e, operand, type_of(e)));
}

/// A floating-point constant has the bits of its number at its own precision.
pub proof fn a_float_constant_has_its_bits(
    s: Lowering,
    e: Expr,
    double_bits: u64,
    single_bits: u32,
)
    requires
        e.expr == ExprType::Literal(LiteralValue::Float { double_bits, single_bits }),
        floating(e.ctype),
    ensures
        ({
            let (after, result) = expr_spec(s, e);
            &&& result == Ok::<usize, ErrorView>(s.ops.len() as usize)
            &&& e.ctype.kind is Float ==> after.ops == s.ops.push(
                Op::F32Const { bits: single_bits },
            )
            &&& e.ctype.kind is Double ==> after.ops == s.ops.push(
                Op::F64Const { bits: double_bits },
            )
        }),
{
}

proof fn found_where_it_stands(pool: Seq<Seq<u8>>, bytes: Seq<u8>, from: nat)
    requires
        pool.len() <= usize::MAX,
    ensures
        pool_position(pool, bytes, from) matches Some(index) ==> index < pool.len()
            && pool[index as int] == bytes,
        (exists|i: int| from <= i < pool.len() && #[trigger] pool[i] == bytes) ==> pool_position(
            pool,
            bytes,
            from,
        ) is Some,
    decreases pool.len() - from,
{
    if from < pool.len() && pool[from as int] != bytes {
        found_where_it_stands(pool, bytes, from + 1);
    }
}

/// A string literal is the address of the object of a literal with the same
/// bytes, at its start.
pub proof fn a_string_is_the_address_of_its_object(s: Lowering, e: Expr, bytes: Vec<u8>)
    requires
        e.expr == ExprType::Literal(LiteralValue::Str(bytes)),
        s.tables.strings.len() <= usize::MAX,
        expr_spec(s, e).1 is Ok,
    ensures
        ({
            let (after, result) = expr_spec(s, e);
            &&& result->Ok_0 == s.ops.len() as usize
            &&& after.ops.len() == s.ops.len() + 1
            &&& after.ops.last() matches Op::SymbolValue { namespace, index, addend } && {
                &&& namespace == 2
                &&& addend == 0
                &&& index < s.tables.strings.len()
                &&& s.tables.strings[index as int] == bytes@
            }
        }),
{
    found_where_it_stands(s.tables.strings, bytes@, 0);
}

} // verus!
