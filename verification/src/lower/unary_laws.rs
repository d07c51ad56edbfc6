//! What operators on one operand, constants and conversions compute when their
//! steps run.

use crate::hir::{ArrayType, Expr, ExprType, LiteralValue, Type, TypeKind};
use crate::ir::{BinaryInst, IrType, Op, UnaryInst};
use crate::lower::expr_model::{
    bitwise_not_spec, cast_spec, coerced_operand, comma_spec, converted, expr_spec, literal_spec,
    negate_spec, sizeof_spec, value_type_spec,
};
use crate::lower::laws::extends;
use crate::lower::machine::{executed, modulus, run, same_but_values, Machine};
use crate::lower::state::{coerced, type_of_value, Lowering};
use crate::lower::value_laws::{
    a_coercion_keeps_the_number, holds_integer, number, number_of, runs_join,
};
use crate::types::{address_valued, floating, signed_integer, stored_as_object};
use vstd::arithmetic::div_mod::{
    lemma_mod_multiples_vanish, lemma_mul_mod_noop, lemma_small_mod, lemma_sub_mod_noop_right,
};
use vstd::prelude::*;

verus! {

/// The machine type of the value of an expression.
pub open spec fn type_of(e: Expr) -> IrType {
    value_type_spec(e)->Ok_0
}

/// A negation is nought less the number, modulo what the type can hold. `m` is
/// the machine after the steps of the operand.
pub proof fn a_negation_negates(s: Lowering, e: Expr, operand: Expr, m: Machine)
    requires
        e.expr matches ExprType::Negate(value) && *value == operand,
        !floating(e.ctype),
        expr_spec(s, e).1 is Ok,
        expr_spec(s, e).0.ops.len() <= usize::MAX,
        holds_integer(m, expr_spec(s, operand).0, expr_spec(s, operand).1->Ok_0),
    ensures
        ({
            let (computed, value) = expr_spec(s, operand);
            let (after, result) = expr_spec(s, e);
            let end = run(m, after.ops, computed.ops.len(), after.ops.len());
            &&& same_but_values(m, end, computed.ops.len())
            &&& end.values[result->Ok_0] == -number_of(m, computed, value->Ok_0, operand.ctype)
                % modulus(type_of(e)) as int
        }),
{
    let ty = type_of(e);
    let (computed, value) = expr_spec(s, operand);
    let (after, result) = expr_spec(s, e);
    assert(expr_spec(s, e) == negate_spec(s, e, operand, ty));
    let (s1, a) = coerced(computed, value->Ok_0, ty, operand.ctype);
    assert(extends(s1.ops, after.ops));
    a_coercion_keeps_the_number(computed, value->Ok_0, ty, operand.ctype, after.ops, m);
    let at = s1.ops.len();
    let m1 = run(m, after.ops, computed.ops.len(), at);
    runs_join(m, after.ops, computed.ops.len(), at, at + 2);
    reveal_with_fuel(run, 3);
    assert(after.ops[at as int] == (Op::Iconst { ty, value: 0 }));
    assert(after.ops[at as int + 1] == (Op::Binary {
        inst: BinaryInst::Isub,
        ty,
        left: at as usize,
        right: a,
    }));
    let m2 = executed(m1, after.ops, at);
    lemma_small_mod(0, modulus(ty));
    assert(m2.values[at as usize] == 0);
    lemma_sub_mod_noop_right(
        0,
        number_of(m, computed, value->Ok_0, operand.ctype),
        modulus(ty) as int,
    );
}

proof fn complements(x: nat, ty: IrType)
    requires
        !ty.floating(),
        x < modulus(ty),
    ensures
        (x as u64 ^ (-1 % modulus(ty) as int) as nat as u64) as nat == modulus(ty) - 1 - x,
{
    let v = x as u64;
    match ty {
        IrType::I8 => {
            assert(-1 % 0x100int == 0xff);
            assert(v < 0x100u64 ==> v ^ 0xffu64 == 0xffu64 - v) by (bit_vector);
        },
        IrType::I16 => {
            assert(-1 % 0x1_0000int == 0xffff);
            assert(v < 0x1_0000u64 ==> v ^ 0xffffu64 == 0xffffu64 - v) by (bit_vector);
        },
        _ => {
            assert(-1 % 0x1_0000_0000int == 0xffff_ffff);
            assert(v < 0x1_0000_0000u64 ==> v ^ 0xffff_ffffu64 == 0xffff_ffffu64 - v)
                by (bit_vector);
        },
    }
}

/// A complement has every bit of the number turned: it is one less than the
/// negation. `m` is the machine after the steps of the operand.
pub proof fn a_complement_turns_every_bit(s: Lowering, e: Expr, operand: Expr, m: Machine)
    requires
        e.expr matches ExprType::BitwiseNot(value) && *value == operand,
        !type_of(e).floating(),
        expr_spec(s, e).1 is Ok,
        expr_spec(s, e).0.ops.len() <= usize::MAX,
        holds_integer(m, expr_spec(s, operand).0, expr_spec(s, operand).1->Ok_0),
    ensures
        ({
            let (computed, value) = expr_spec(s, operand);
            let (after, result) = expr_spec(s, e);
            let end = run(m, after.ops, computed.ops.len(), after.ops.len());
            &&& same_but_values(m, end, computed.ops.len())
            &&& end.values[result->Ok_0] == modulus(type_of(e)) - 1 - number_of(
                m,
                computed,
                value->Ok_0,
                operand.ctype,
            ) % modulus(type_of(e)) as int
        }),
{
    let ty = type_of(e);
    let (computed, value) = expr_spec(s, operand);
    let (after, result) = expr_spec(s, e);
    assert(expr_spec(s, e) == bitwise_not_spec(s, operand, ty));
    let (s1, a) = coerced(computed, value->Ok_0, ty, operand.ctype);
    assert(extends(s1.ops, after.ops));
    a_coercion_keeps_the_number(computed, value->Ok_0, ty, operand.ctype, after.ops, m);
    let at = s1.ops.len();
    let m1 = run(m, after.ops, computed.ops.len(), at);
    runs_join(m, after.ops, computed.ops.len(), at, at + 2);
    reveal_with_fuel(run, 3);
    assert(after.ops[at as int] == (Op::Iconst { ty, value: -1i64 }));
    assert(after.ops[at as int + 1] == (Op::Binary {
        inst: BinaryInst::Bxor,
        ty,
        left: a,
        right: at as usize,
    }));
    complements(m1.values[a], ty);
}

/// What a value is in another type.
pub proof fn numbers_reduce(value: nat, from: IrType, to: IrType, ctype: Type)
    requires
        !from.floating(),
        !to.floating(),
        value < modulus(from),
    ensures
        from == to ==> value == number(value, from, ctype) % modulus(to) as int,
        from.width() < to.width() && !signed_integer(ctype) ==> value == number(
            value,
            from,
            ctype,
        ) % modulus(to) as int,
        from.width() > to.width() ==> value % modulus(to) == number(value, from, ctype) % modulus(
            to,
        ) as int,
{
    let own = number(value, from, ctype);
    assert(own == value || own == value - modulus(from));
    if from.width() < to.width() {
        lemma_small_mod(value, modulus(to));
    } else {
        let times: int = match (from, to) {
            (IrType::I16, IrType::I8) => 0x100,
            (IrType::I32, IrType::I8) => 0x100_0000,
            (IrType::I32, IrType::I16) => 0x1_0000,
            _ => 1,
        };
        assert(modulus(from) == modulus(to) * times);
        lemma_mod_multiples_vanish(-times, value as int, modulus(to) as int);
        assert(modulus(to) * -times + value == value - modulus(from)) by (nonlinear_arith)
            requires
                modulus(from) == modulus(to) * times,
        ;
        if from == to {
            lemma_small_mod(value, modulus(to));
        }
    }
}

/// A conversion between integer types, to or from pointers among them, keeps
/// the number, modulo what the new type can hold. `m` is the machine after the
/// steps of the operand.
pub proof fn a_cast_keeps_the_number(s: Lowering, e: Expr, operand: Expr, m: Machine)
    requires
        e.expr matches ExprType::Cast(value) && *value == operand,
        !(e.ctype.kind is Void),
        !(stored_as_object(operand.ctype) && e.ctype.kind is Pointer),
        !type_of(e).floating(),
        expr_spec(s, e).1 is Ok,
        expr_spec(s, e).0.ops.len() <= usize::MAX,
        holds_integer(m, expr_spec(s, operand).0, expr_spec(s, operand).1->Ok_0),
    ensures
        ({
            let (computed, value) = expr_spec(s, operand);
            let (after, result) = expr_spec(s, e);
            let end = run(m, after.ops, computed.ops.len(), after.ops.len());
            &&& same_but_values(m, end, computed.ops.len())
            &&& end.values[result->Ok_0] == number_of(m, computed, value->Ok_0, operand.ctype)
                % modulus(type_of(e)) as int
        }),
{
    let ty = type_of(e);
    let (computed, value) = expr_spec(s, operand);
    let (after, result) = expr_spec(s, e);
    assert(expr_spec(s, e) == cast_spec(s, e, operand, ty));
    assert(expr_spec(s, e) == converted(computed, e, operand, ty, value->Ok_0));
    let at = computed.ops.len();
    let from = type_of_value(computed, value->Ok_0);
    reveal_with_fuel(run, 2);
    numbers_reduce(m.values[value->Ok_0], from, ty, operand.ctype);
    if from != ty {
        assert(after.ops.len() == at + 1);
        assert(result->Ok_0 == at);
        assert(after.ops[value->Ok_0 as int] == computed.ops[value->Ok_0 as int]);
        assert(run(m, after.ops, at, at + 1) == executed(m, after.ops, at));
    } else {
        assert(run(m, after.ops, at, at) == m);
    }
}

/// An array, struct or union that becomes a pointer is its own address.
pub proof fn an_object_decays_to_its_address(s: Lowering, e: Expr, operand: Expr)
    requires
        e.expr matches ExprType::Cast(value) && *value == operand,
        stored_as_object(operand.ctype),
        e.ctype.kind is Pointer,
        expr_spec(s, e).1 is Ok,
    ensures
        expr_spec(s, e) == expr_spec(s, operand),
{
    assert(expr_spec(s, e) == cast_spec(s, e, operand, type_of(e)));
}

/// A conversion to `void` runs its operand, and computes nothing of it.
pub proof fn a_cast_to_void_keeps_the_effects(s: Lowering, e: Expr, operand: Expr)
    requires
        e.expr matches ExprType::Cast(value) && *value == operand,
        e.ctype.kind is Void,
        expr_spec(s, e).1 is Ok,
    ensures
        expr_spec(s, e).0.ops == expr_spec(s, operand).0.ops.push(
            Op::Iconst { ty: IrType::I32, value: 0 },
        ),
{
    assert(expr_spec(s, e) == cast_spec(s, e, operand, type_of(e)));
}

/// Which step converts between machine types of which one is a floating-point
/// type: a number keeps its value as far as the new type can, signed integers
/// apart from unsigned ones.
pub proof fn a_float_conversion_is_of_its_kind(s: Lowering, e: Expr, operand: Expr)
    requires
        e.expr matches ExprType::Cast(value) && *value == operand,
        !(e.ctype.kind is Void),
        !(stored_as_object(operand.ctype) && e.ctype.kind is Pointer),
        expr_spec(s, e).1 is Ok,
        type_of_value(expr_spec(s, operand).0, expr_spec(s, operand).1->Ok_0) != type_of(e),
    ensures
        ({
            let (computed, value) = expr_spec(s, operand);
            let from = type_of_value(computed, value->Ok_0);
            let to = type_of(e);
            let after = expr_spec(s, e).0;
            &&& from == IrType::F32 && to == IrType::F64 ==> after.ops.last() == (Op::Unary {
                inst: UnaryInst::Fpromote,
                ty: to,
                value: value->Ok_0,
            })
            &&& from == IrType::F64 && to == IrType::F32 ==> after.ops.last() == (Op::Unary {
                inst: UnaryInst::Fdemote,
                ty: to,
                value: value->Ok_0,
            })
            &&& from.floating() && !to.floating() ==> after.ops.last() == (Op::Unary {
                inst: if signed_integer(e.ctype) {
                    UnaryInst::FcvtToSintSat
                } else {
                    UnaryInst::FcvtToUintSat
                },
                ty: to,
                value: value->Ok_0,
            })
            &&& !from.floating() && to.floating() ==> after.ops.last() == (Op::Unary {
                inst: if signed_integer(operand.ctype) {
                    UnaryInst::FcvtFromSint
                } else {
                    UnaryInst::FcvtFromUint
                },
                ty: to,
                value: value->Ok_0,
            })
        }),
{
    assert(expr_spec(s, e) == cast_spec(s, e, operand, type_of(e)));
}

/// The number of an integer constant.
pub open spec fn literal_number(literal: LiteralValue) -> Option<int> {
    match literal {
        LiteralValue::Int(value) => Some(value as int),
        LiteralValue::UnsignedInt(value) => if value <= i64::MAX {
            Some(value as int)
        } else {
            None
        },
        LiteralValue::Char(value) => Some(value as int),
        _ => None,
    }
}

/// An integer constant is its number, modulo what its type can hold.
pub proof fn a_constant_is_its_number(s: Lowering, e: Expr, literal: LiteralValue, m: Machine)
    requires
        e.expr == ExprType::Literal(literal),
        literal_number(literal) is Some,
        expr_spec(s, e).1 is Ok,
        expr_spec(s, e).0.ops.len() <= usize::MAX,
    ensures
        ({
            let (after, result) = expr_spec(s, e);
            let end = run(m, after.ops, s.ops.len(), after.ops.len());
            &&& same_but_values(m, end, s.ops.len())
            &&& end.values[result->Ok_0] == literal_number(literal)->0 % modulus(
                type_of(e),
            ) as int
        }),
{
    assert(expr_spec(s, e) == literal_spec(s, literal, type_of(e), e.location));
    reveal_with_fuel(run, 2);
}

/// The size of a type that has one is that size.
pub proof fn a_size_is_the_size(s: Lowering, e: Expr, sized: Type, size: u64, m: Machine)
    requires
        e.expr matches ExprType::Sizeof(of) && *of == sized,
        !(sized.kind matches TypeKind::Array(_, ArrayType::Variable(_))),
        sized.size == Ok::<u64, String>(size),
        size <= i64::MAX,
        expr_spec(s, e).1 is Ok,
        expr_spec(s, e).0.ops.len() <= usize::MAX,
    ensures
        ({
            let (after, result) = expr_spec(s, e);
            let end = run(m, after.ops, s.ops.len(), after.ops.len());
            &&& same_but_values(m, end, s.ops.len())
            &&& end.values[result->Ok_0] == size as int % modulus(type_of(e)) as int
        }),
{
    assert(expr_spec(s, e) == sizeof_spec(s, sized, type_of(e), e.location));
    reveal_with_fuel(run, 2);
}

/// The size of an array of variable length is its bound times the size of its
/// elements. `m` is the machine after the steps of the bound.
pub proof fn a_variable_size_is_computed(
    s: Lowering,
    e: Expr,
    sized: Type,
    element: Type,
    bound: Expr,
    size: u64,
    m: Machine,
)
    requires
        e.expr matches ExprType::Sizeof(of) && *of == sized,
        sized.kind matches TypeKind::Array(of, ArrayType::Variable(count)) && *of == element
            && *count == bound,
        element.size == Ok::<u64, String>(size),
        size <= i64::MAX,
        !type_of(e).floating(),
        expr_spec(s, e).1 is Ok,
        expr_spec(s, e).0.ops.len() <= usize::MAX,
        holds_integer(m, expr_spec(s, bound).0, expr_spec(s, bound).1->Ok_0),
    ensures
        ({
            let (computed, count) = expr_spec(s, bound);
            let (after, result) = expr_spec(s, e);
            let end = run(m, after.ops, computed.ops.len(), after.ops.len());
            &&& same_but_values(m, end, computed.ops.len())
            &&& end.values[result->Ok_0] == (m.values[count->Ok_0] * size) % modulus(
                type_of(e),
            ) as int
        }),
{
    let ty = type_of(e);
    assert(expr_spec(s, e) == sizeof_spec(s, sized, ty, e.location));
    let (computed, count) = expr_spec(s, bound);
    let (after, result) = expr_spec(s, e);
    let at = computed.ops.len();
    let from = type_of_value(computed, count->Ok_0);
    let big = modulus(ty) as int;
    lemma_mul_mod_noop(m.values[count->Ok_0] as int, size as int, big);
    lemma_small_mod(m.values[count->Ok_0], modulus(from));
    reveal_with_fuel(run, 4);
    if from == ty {
        let m1 = executed(m, after.ops, at);
        let m2 = executed(m1, after.ops, at + 1);
        assert(m1.values[at as usize] == size as int % big);
        assert(run(m, after.ops, at, at + 2) == m2);
        lemma_small_mod(m.values[count->Ok_0], modulus(ty));
    } else {
        let m1 = executed(m, after.ops, at);
        let m2 = executed(m1, after.ops, at + 1);
        let m3 = executed(m2, after.ops, at + 2);
        assert(m1.values[at as usize] == m.values[count->Ok_0] as int % big) by {
            if from.width() < ty.width() {
                lemma_small_mod(m.values[count->Ok_0], modulus(ty));
            }
        }
        assert(m2.values[(at + 1) as usize] == size as int % big);
        assert(run(m, after.ops, at, at + 3) == m3);
    }
}

/// A comma runs its left operand, then its right one, and is the number of the
/// right one. `m` is the machine after the steps of both.
pub proof fn a_comma_is_its_right_operand(s: Lowering, e: Expr, left: Expr, right: Expr, m: Machine)
    requires
        e.expr matches ExprType::Comma(l, r) && *l == left && *r == right,
        !type_of(e).floating(),
        expr_spec(s, e).1 is Ok,
        expr_spec(s, e).0.ops.len() <= usize::MAX,
        ({
            let (computed, value) = expr_spec(expr_spec(s, left).0, right);
            holds_integer(m, computed, value->Ok_0)
        }),
    ensures
        ({
            let (computed, value) = expr_spec(expr_spec(s, left).0, right);
            let (after, result) = expr_spec(s, e);
            let end = run(m, after.ops, computed.ops.len(), after.ops.len());
            &&& same_but_values(m, end, computed.ops.len())
            &&& address_valued(right.ctype) ==> result->Ok_0 == value->Ok_0
            &&& !address_valued(right.ctype) ==> end.values[result->Ok_0] == number_of(
                m,
                computed,
                value->Ok_0,
                right.ctype,
            ) % modulus(type_of(e)) as int
        }),
{
    let ty = type_of(e);
    let (computed, value) = expr_spec(expr_spec(s, left).0, right);
    let (after, result) = expr_spec(s, e);
    assert(expr_spec(s, e) == comma_spec(s, e, ty));
    assert(after == coerced_operand(computed, value->Ok_0, ty, right.ctype).0);
    if !address_valued(right.ctype) {
        a_coercion_keeps_the_number(computed, value->Ok_0, ty, right.ctype, after.ops, m);
    } else {
        reveal_with_fuel(run, 1);
    }
}

} // verus!
