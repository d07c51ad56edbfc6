//! What pointer arithmetic computes when its steps run.

use crate::hir::{BinaryOp, Expr, TypeKind};
use crate::ir::{BinaryInst, IrType, Op};
use crate::lower::expr_model::{expr_spec, pointer_difference_spec, pointer_offset_spec};
use crate::lower::laws::extends;
use crate::lower::machine::{executed, quotient, run, same_but_values, signed_number, Machine};
use crate::lower::state::{coerced, type_of_value, Lowering};
use crate::lower::value_laws::{
    a_coercion_keeps_the_number, a_number_that_fits_is_held, holds_integer, number_of, runs_join,
};
use vstd::arithmetic::div_mod::{
    lemma_add_mod_noop_right, lemma_fundamental_div_mod_converse, lemma_mul_mod_noop,
    lemma_small_mod, lemma_sub_mod_noop_right,
};
use vstd::prelude::*;

verus! {

/// The pointer among two operands: the left one where it is a pointer.
pub open spec fn pointer_operand(e: Expr) -> Expr {
    if e.expr->Binary_1.ctype.kind is Pointer {
        *e.expr->Binary_1
    } else {
        *e.expr->Binary_2
    }
}

/// The operand that is not the pointer.
pub open spec fn index_operand(e: Expr) -> Expr {
    if e.expr->Binary_1.ctype.kind is Pointer {
        *e.expr->Binary_2
    } else {
        *e.expr->Binary_1
    }
}

/// The state after the pointer and the index, and their values.
pub open spec fn pointer_operands(s: Lowering, e: Expr) -> (Lowering, usize, usize) {
    let (s1, pointer) = expr_spec(s, pointer_operand(e));
    let (s2, index) = expr_spec(s1, index_operand(e));
    (s2, pointer->Ok_0, index->Ok_0)
}

/// Whether an expression moves a pointer: `p + i`, `i + p` or `p - i`.
pub open spec fn moves_pointer(e: Expr) -> bool {
    &&& e.expr is Binary
    &&& e.expr->Binary_0 == BinaryOp::Add || e.expr->Binary_0 == BinaryOp::Sub
    &&& pointer_operand(e).ctype.kind is Pointer
    &&& e.expr->Binary_0 == BinaryOp::Sub ==> e.expr->Binary_1.ctype.kind is Pointer && !(
    e.expr->Binary_2.ctype.kind is Pointer)
}

proof fn pointers_move(p: int, i: int, size: int)
    ensures
        (p + ((i % 0x1_0000_0000) * (size % 0x1_0000_0000)) % 0x1_0000_0000) % 0x1_0000_0000 == (p
            + i * size) % 0x1_0000_0000,
        (p - ((i % 0x1_0000_0000) * (size % 0x1_0000_0000)) % 0x1_0000_0000) % 0x1_0000_0000 == (p
            - i * size) % 0x1_0000_0000,
{
    lemma_mul_mod_noop(i, size, 0x1_0000_0000);
    lemma_add_mod_noop_right(p, i * size, 0x1_0000_0000);
    lemma_sub_mod_noop_right(p, i * size, 0x1_0000_0000);
}

/// The steps that scale an index and move a pointer by it.
proof fn scaled_step_runs(
    ops: Seq<Op>,
    at: nat,
    pointer: usize,
    index: usize,
    size: u64,
    subtract: bool,
    m: Machine,
    i: int,
)
    requires
        ops.len() == at + 3,
        ops.len() <= usize::MAX,
        pointer < at,
        index < at,
        size <= i64::MAX,
        m.values[index] == i % 0x1_0000_0000,
        ops[at as int] == (Op::Iconst { ty: IrType::I32, value: size as i64 }),
        ops[at as int + 1] == (Op::Binary {
            inst: BinaryInst::Imul,
            ty: IrType::I32,
            left: index,
            right: at as usize,
        }),
        ops[at as int + 2] == (Op::Binary {
            inst: if subtract {
                BinaryInst::Isub
            } else {
                BinaryInst::Iadd
            },
            ty: IrType::I32,
            left: pointer,
            right: (at + 1) as usize,
        }),
    ensures
        ({
            let end = run(m, ops, at, at + 3);
            let p = m.values[pointer] as int;
            &&& same_but_values(m, end, at)
            &&& end.values[(at + 2) as usize] == (if subtract {
                p - i * size
            } else {
                p + i * size
            }) % 0x1_0000_0000
        }),
{
    reveal_with_fuel(run, 4);
    pointers_move(m.values[pointer] as int, i, size as int);
    let m1 = executed(m, ops, at);
    let m2 = executed(m1, ops, at + 1);
    let m3 = executed(m2, ops, at + 2);
    assert(m1.values[at as usize] == size as int % 0x1_0000_0000);
    let delta = ((i % 0x1_0000_0000) * (size as int % 0x1_0000_0000)) % 0x1_0000_0000;
    assert(m2.values[(at + 1) as usize] == delta);
    assert(run(m, ops, at, at + 3) == m3);
}

/// `p + i` and `i + p` are `i` elements after `p`, and `p - i` is `i` elements
/// before it, modulo the address space. `m` is the machine after the steps of
/// the operands.
pub proof fn a_pointer_moves_by_elements(s: Lowering, e: Expr, size: u64, m: Machine)
    requires
        moves_pointer(e),
        pointer_operand(e).ctype.kind matches TypeKind::Pointer(pointee) && pointee.size == Ok::<
            u64,
            String,
        >(size),
        size <= i64::MAX,
        expr_spec(s, e).1 is Ok,
        expr_spec(s, e).0.ops.len() <= usize::MAX,
        pointer_operands(s, e).1 < pointer_operands(s, e).0.ops.len(),
        type_of_value(pointer_operands(s, e).0, pointer_operands(s, e).1) == IrType::I32,
        type_of_value(expr_spec(s, pointer_operand(e)).0, pointer_operands(s, e).1) == IrType::I32,
        holds_integer(m, pointer_operands(s, e).0, pointer_operands(s, e).2),
    ensures
        ({
            let (computed, pointer, index) = pointer_operands(s, e);
            let (after, result) = expr_spec(s, e);
            let end = run(m, after.ops, computed.ops.len(), after.ops.len());
            let p = m.values[pointer] as int;
            let i = number_of(m, computed, index, index_operand(e).ctype);
            &&& same_but_values(m, end, computed.ops.len())
            &&& e.expr->Binary_0 == BinaryOp::Add ==> end.values[result->Ok_0] == (p + i * size)
                % 0x1_0000_0000
            &&& e.expr->Binary_0 == BinaryOp::Sub ==> end.values[result->Ok_0] == (p - i * size)
                % 0x1_0000_0000
        }),
{
    let swapped = !(e.expr->Binary_1.ctype.kind is Pointer);
    let (s2, pointer, index) = pointer_operands(s, e);
    assert(expr_spec(s, e) == pointer_offset_spec(s, e, swapped));
    let (after, result) = expr_spec(s, e);
    let index_type = index_operand(e).ctype;
    let (s3, value) = coerced(s2, index, IrType::I32, index_type);
    let at = s3.ops.len();
    let subtract = e.expr->Binary_0 == BinaryOp::Sub;
    assert(extends(s3.ops, after.ops));
    a_coercion_keeps_the_number(s2, index, IrType::I32, index_type, after.ops, m);
    let m3 = run(m, after.ops, s2.ops.len(), at);
    assert(s3.ops[pointer as int] == s2.ops[pointer as int]);
    assert(after.ops.len() == at + 3);
    scaled_step_runs(
        after.ops,
        at,
        pointer,
        value,
        size,
        subtract,
        m3,
        number_of(m, s2, index, index_type),
    );
    runs_join(m, after.ops, s2.ops.len(), at, at + 3);
}

proof fn distances_divide(p: int, q: int, count: int, size: int)
    requires
        size > 0,
        p - q == count * size,
        -0x8000_0000 <= p - q < 0x8000_0000,
        size < 0x8000_0000,
    ensures
        signed_number(((p - q) % 0x1_0000_0000) as nat, IrType::I32) == p - q,
        quotient(p - q, size) == count,
        -0x8000_0000 <= count < 0x8000_0000,
        signed_number(size as nat, IrType::I32) == size,
{
    let d = p - q;
    a_number_that_fits_is_held(d, IrType::I32);
    if d >= 0 {
        assert(count >= 0) by (nonlinear_arith)
            requires
                count * size >= 0,
                size > 0,
        ;
        lemma_fundamental_div_mod_converse(d, size, count, 0);
        assert(count <= d) by (nonlinear_arith)
            requires
                d == count * size,
                size > 0,
                count >= 0,
        ;
    } else {
        assert(count <= 0) by (nonlinear_arith)
            requires
                count * size < 0,
                size > 0,
        ;
        assert(-d == -count * size) by (nonlinear_arith)
            requires
                d == count * size,
        ;
        lemma_fundamental_div_mod_converse(-d, size, -count, 0);
        assert(-count <= -d) by (nonlinear_arith)
            requires
                -d == -count * size,
                size > 0,
                count <= 0,
        ;
    }
}

/// The operands of a difference of pointers.
pub open spec fn both_operands(s: Lowering, e: Expr) -> (Lowering, usize, usize) {
    let (s1, left) = expr_spec(s, *e.expr->Binary_1);
    let (s2, right) = expr_spec(s1, *e.expr->Binary_2);
    (s2, left->Ok_0, right->Ok_0)
}

/// The difference of two pointers is the number of elements between them. `m`
/// is the machine after the steps of the operands.
pub proof fn pointers_differ_by_elements(
    s: Lowering,
    e: Expr,
    size: u64,
    count: int,
    m: Machine,
)
    requires
        e.expr is Binary,
        e.expr->Binary_0 == BinaryOp::Sub,
        e.expr->Binary_1.ctype.kind matches TypeKind::Pointer(pointee) && pointee.size == Ok::<
            u64,
            String,
        >(size),
        e.expr->Binary_2.ctype.kind is Pointer,
        0 < size < 0x8000_0000,
        expr_spec(s, e).1 is Ok,
        expr_spec(s, e).0.ops.len() <= usize::MAX,
        both_operands(s, e).1 < both_operands(s, e).0.ops.len(),
        both_operands(s, e).2 < both_operands(s, e).0.ops.len(),
        type_of_value(both_operands(s, e).0, both_operands(s, e).1) == IrType::I32,
        m.values[both_operands(s, e).1] - m.values[both_operands(s, e).2] == count * size,
        -0x8000_0000 <= count * size < 0x8000_0000,
    ensures
        ({
            let (computed, left, right) = both_operands(s, e);
            let (after, result) = expr_spec(s, e);
            let end = run(m, after.ops, computed.ops.len(), after.ops.len());
            &&& same_but_values(m, end, computed.ops.len())
            &&& signed_number(end.values[result->Ok_0], IrType::I32) == count
        }),
{
    let (s2, left, right) = both_operands(s, e);
    assert(expr_spec(s, e) == pointer_difference_spec(s, e));
    let (after, result) = expr_spec(s, e);
    let p = m.values[left] as int;
    let q = m.values[right] as int;
    let at = s2.ops.len();
    distances_divide(p, q, count, size as int);
    a_number_that_fits_is_held(count, IrType::I32);
    lemma_small_mod(size as nat, 0x1_0000_0000);
    reveal_with_fuel(run, 4);
    assert(after.ops[at as int] == (Op::Binary {
        inst: BinaryInst::Isub,
        ty: IrType::I32,
        left,
        right,
    }));
    let m1 = executed(m, after.ops, at);
    assert(m1.values[at as usize] == (p - q) % 0x1_0000_0000);
    if size != 1 {
        assert(after.ops[at as int + 1] == (Op::Iconst { ty: IrType::I32, value: size as i64 }));
        assert(after.ops[at as int + 2] == (Op::Binary {
            inst: BinaryInst::Sdiv,
            ty: IrType::I32,
            left: at as usize,
            right: (at + 1) as usize,
        }));
        let m2 = executed(m1, after.ops, at + 1);
        assert(m2.values[(at + 1) as usize] == size);
        let m3 = executed(m2, after.ops, at + 2);
        assert(run(m, after.ops, at, at + 3) == m3);
    } else {
        assert(run(m, after.ops, at, at + 1) == m1);
    }
}

} // verus!
