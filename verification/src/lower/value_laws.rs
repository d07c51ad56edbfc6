//! What the lowered forms of expressions compute when their steps run.

use crate::hir::{BinaryOp, ComparisonToken, Expr, Type};
use crate::ir::{IntCC, IrType, Op, UnaryInst};
use crate::lower::expr_model::{binary_spec, compared, expr_spec, int_condition, int_inst, operated};
use crate::lower::laws::extends;
use crate::lower::machine::{
    computed, executed, modulus, numbers_compare, quotient, run, same_but_values, signed_number,
    Machine,
};
use crate::lower::state::{coerced, type_of_value, Lowering};
use crate::types::{floating, ir_type_spec, signed_integer};
use vstd::arithmetic::div_mod::{
    lemma_add_mod_noop, lemma_div_is_ordered_by_denominator, lemma_div_pos_is_pos,
    lemma_fundamental_div_mod, lemma_mul_mod_noop, lemma_mul_mod_noop_left, lemma_small_mod,
    lemma_sub_mod_noop,
};
use vstd::arithmetic::power2::{lemma_pow2_pos, pow2};
use vstd::prelude::*;

verus! {

/// The number that a value stands for in C: signed where its C type is.
pub open spec fn number(value: nat, ty: IrType, ctype: Type) -> int {
    if signed_integer(ctype) {
        signed_number(value, ty)
    } else {
        value as int
    }
}

/// The number that a value of a lowered expression stands for.
pub open spec fn number_of(m: Machine, s: Lowering, value: usize, ctype: Type) -> int {
    number(m.values[value], type_of_value(s, value), ctype)
}

/// Whether the machine holds an integer of the value's type.
pub open spec fn holds_integer(m: Machine, s: Lowering, value: usize) -> bool {
    &&& value < s.ops.len()
    &&& !type_of_value(s, value).floating()
    &&& m.values[value] < modulus(type_of_value(s, value))
}

/// Running on to a place and from there to another is running to the other.
pub proof fn runs_join(m: Machine, ops: Seq<Op>, from: nat, middle: nat, to: nat)
    requires
        from <= middle <= to,
    ensures
        run(run(m, ops, from, middle), ops, middle, to) == run(m, ops, from, to),
    decreases middle - from,
{
    if from < middle {
        runs_join(executed(m, ops, from), ops, from + 1, middle, to);
    }
}

/// One step runs.
pub proof fn one_step_runs(m: Machine, ops: Seq<Op>, at: nat)
    ensures
        run(m, ops, at, at + 1) == executed(m, ops, at),
{
    reveal_with_fuel(run, 2);
}

/// A conversion between integer types keeps the number, modulo what the new
/// type can hold.
pub proof fn a_coercion_keeps_the_number(
    s: Lowering,
    value: usize,
    target: IrType,
    source: Type,
    ops: Seq<Op>,
    m: Machine,
)
    requires
        holds_integer(m, s, value),
        !target.floating(),
        extends(coerced(s, value, target, source).0.ops, ops),
        ops.len() <= usize::MAX,
    ensures
        ({
            let (after, result) = coerced(s, value, target, source);
            let end = run(m, ops, s.ops.len(), after.ops.len());
            &&& same_but_values(m, end, s.ops.len())
            &&& end.values[result] == number_of(m, s, value, source) % modulus(target) as int
            &&& end.values[result] < modulus(target)
            &&& result < after.ops.len()
            &&& type_of_value(after, result) == target
            &&& extends(s.ops, after.ops)
        }),
{
    let (after, result) = coerced(s, value, target, source);
    let at = s.ops.len();
    let from = type_of_value(s, value);
    reveal_with_fuel(run, 3);
    assert(ops[value as int] == s.ops[value as int]) by {
        assert(after.ops[value as int] == s.ops[value as int]);
    }
    if after.ops.len() > at {
        assert(ops[at as int] == after.ops[at as int]);
    }
    if after.ops.len() > at + 1 {
        assert(ops[at as int + 1] == after.ops[at as int + 1]);
    }
}

/// Whether bit `k` of a value is set.
pub open spec fn bit(value: nat, k: u64) -> bool {
    (value as u64 >> k) & 1u64 == 1u64
}

/// A number as an operand of the type: signed or not.
pub open spec fn operand_number(a: int, ty: IrType, signed: bool) -> int {
    let value = a % modulus(ty) as int;
    if signed {
        signed_number(value as nat, ty)
    } else {
        value
    }
}

/// Whether a value is what C computes of two numbers in the type: sums,
/// differences and products modulo what the type can hold, quotients rounded
/// toward nought and the remainders that go with them, bits one by one, and
/// shifts as products and quotients of powers of two. Division by nought and
/// shifts by the width or more are undefined.
pub open spec fn is_c_result(
    operator: BinaryOp,
    a: int,
    b: int,
    ty: IrType,
    signed: bool,
    value: nat,
) -> bool {
    let m = modulus(ty) as int;
    let left = operand_number(a, ty, signed);
    let right = operand_number(b, ty, signed);
    let left_bits = (a % m) as nat;
    let right_bits = (b % m) as nat;
    match operator {
        BinaryOp::Add => value == (a + b) % m,
        BinaryOp::Sub => value == (a - b) % m,
        BinaryOp::Mul => value == (a * b) % m,
        BinaryOp::Div => right != 0 ==> value == quotient(left, right) % m,
        BinaryOp::Mod => right != 0 ==> value == (left - right * quotient(left, right)) % m,
        BinaryOp::BitwiseAnd => forall|k: u64|
            k < 64 ==> #[trigger] bit(value, k) == (bit(left_bits, k) && bit(right_bits, k)),
        BinaryOp::BitwiseOr => forall|k: u64|
            k < 64 ==> #[trigger] bit(value, k) == (bit(left_bits, k) || bit(right_bits, k)),
        BinaryOp::Xor => forall|k: u64|
            k < 64 ==> #[trigger] bit(value, k) == (bit(left_bits, k) != bit(right_bits, k)),
        BinaryOp::Shl => right_bits < ty.width() ==> value == (a * pow2(right_bits)) % m,
        BinaryOp::Shr => right_bits < ty.width() ==> value == (left / pow2(right_bits) as int) % m,
        _ => true,
    }
}

/// Whether the operator is one of integer arithmetic.
pub open spec fn arithmetic(operator: BinaryOp) -> bool {
    match operator {
        BinaryOp::Assign => false,
        BinaryOp::LogicalAnd => false,
        BinaryOp::LogicalOr => false,
        BinaryOp::Compare(_) => false,
        _ => true,
    }
}

proof fn bits_combine(x: u64, y: u64)
    ensures
        forall|k: u64|
            k < 64 ==> #[trigger] bit((x & y) as nat, k) == (bit(x as nat, k) && bit(y as nat, k)),
        forall|k: u64|
            k < 64 ==> #[trigger] bit((x | y) as nat, k) == (bit(x as nat, k) || bit(y as nat, k)),
        forall|k: u64|
            k < 64 ==> #[trigger] bit((x ^ y) as nat, k) == (bit(x as nat, k) != bit(y as nat, k)),
{
    assert forall|k: u64| k < 64 implies #[trigger] bit((x & y) as nat, k) == (bit(x as nat, k)
        && bit(y as nat, k)) by {
        assert((((x & y) >> k) & 1u64 == 1u64) == ((x >> k) & 1u64 == 1u64 && (y >> k) & 1u64
            == 1u64)) by (bit_vector);
    }
    assert forall|k: u64| k < 64 implies #[trigger] bit((x | y) as nat, k) == (bit(x as nat, k)
        || bit(y as nat, k)) by {
        assert((((x | y) >> k) & 1u64 == 1u64) == ((x >> k) & 1u64 == 1u64 || (y >> k) & 1u64
            == 1u64)) by (bit_vector);
    }
    assert forall|k: u64| k < 64 implies #[trigger] bit((x ^ y) as nat, k) == (bit(x as nat, k)
        != bit(y as nat, k)) by {
        assert((((x ^ y) >> k) & 1u64 == 1u64) == (((x >> k) & 1u64 == 1u64) != ((y >> k) & 1u64
            == 1u64))) by (bit_vector);
    }
}

proof fn quotients_are_small(a: int, b: int)
    requires
        a >= 0,
        b > 0,
    ensures
        0 <= a / b <= a,
        0 <= a - b * (a / b) < b,
        a - b * (a / b) <= a,
{
    lemma_fundamental_div_mod(a, b);
    lemma_div_pos_is_pos(a, b);
    lemma_div_is_ordered_by_denominator(a, 1, b);
    assert(a / 1 == a);
    assert(b * (a / b) >= 0) by (nonlinear_arith)
        requires
            b > 0,
            a / b >= 0,
    ;
}

/// The instruction that C's operator is lowered to computes what C computes.
proof fn instructions_compute(
    operator: BinaryOp,
    signed: bool,
    a: int,
    b: int,
    ty: IrType,
)
    requires
        arithmetic(operator),
        !ty.floating(),
    ensures
        ({
            let left = (a % modulus(ty) as int) as nat;
            let right = (b % modulus(ty) as int) as nat;
            let value = computed(int_inst(operator, signed), left, right, ty);
            value is Some && is_c_result(operator, a, b, ty, signed, value->0)
        }),
{
    let m = modulus(ty) as int;
    let left = (a % m) as nat;
    let right = (b % m) as nat;
    lemma_add_mod_noop(a, b, m);
    lemma_sub_mod_noop(a, b, m);
    lemma_mul_mod_noop(a, b, m);
    bits_combine(left as u64, right as u64);
    let shift = pow2(right) as int;
    lemma_pow2_pos(right);
    lemma_mul_mod_noop_left(a, shift, m);
    if right < ty.width() {
        lemma_small_mod(right, ty.width() as nat);
    }
    quotients_are_small(left as int, shift);
    if right > 0 {
        quotients_are_small(left as int, right as int);
    }
    lemma_small_mod(left, m as nat);
    if !signed {
        if right > 0 {
            lemma_small_mod((left as int / right as int) as nat, m as nat);
            lemma_small_mod((left - right * (left as int / right as int)) as nat, m as nat);
        }
        lemma_small_mod((left as int / shift) as nat, m as nat);
    }
}

/// Two operands converted one after the other.
proof fn operands_are_converted(
    s: Lowering,
    left: usize,
    right: usize,
    ty: IrType,
    left_type: Type,
    right_type: Type,
    ops: Seq<Op>,
    m: Machine,
)
    requires
        holds_integer(m, s, left),
        holds_integer(m, s, right),
        !ty.floating(),
        ({
            let (s1, _) = coerced(s, left, ty, left_type);
            extends(coerced(s1, right, ty, right_type).0.ops, ops)
        }),
        ops.len() <= usize::MAX,
    ensures
        ({
            let (s1, a) = coerced(s, left, ty, left_type);
            let (s2, b) = coerced(s1, right, ty, right_type);
            let end = run(m, ops, s.ops.len(), s2.ops.len());
            &&& same_but_values(m, end, s.ops.len())
            &&& end.values[a] == number_of(m, s, left, left_type) % modulus(ty) as int
            &&& end.values[b] == number_of(m, s, right, right_type) % modulus(ty) as int
            &&& a < s2.ops.len()
            &&& b < s2.ops.len()
            &&& type_of_value(s2, a) == ty
            &&& type_of_value(s2, b) == ty
            &&& extends(s.ops, s2.ops)
        }),
{
    let (s1, a) = coerced(s, left, ty, left_type);
    let (s2, b) = coerced(s1, right, ty, right_type);
    assert(extends(s1.ops, s2.ops));
    assert(extends(s1.ops, ops)) by {
        assert forall|i: int| 0 <= i < s1.ops.len() implies #[trigger] ops[i] == s1.ops[i] by {
            assert(s2.ops[i] == s1.ops[i]);
        }
    }
    a_coercion_keeps_the_number(s, left, ty, left_type, ops, m);
    let m1 = run(m, ops, s.ops.len(), s1.ops.len());
    assert(s1.ops[right as int] == s.ops[right as int]);
    a_coercion_keeps_the_number(s1, right, ty, right_type, ops, m1);
    runs_join(m, ops, s.ops.len(), s1.ops.len(), s2.ops.len());
    assert(s2.ops[a as int] == s1.ops[a as int]);
}

/// The operands of an expression with two: the states after them and their
/// values.
pub open spec fn operands(s: Lowering, e: Expr) -> (Lowering, usize, usize) {
    let (s1, left) = expr_spec(s, *e.expr->Binary_1);
    let (s2, right) = expr_spec(s1, *e.expr->Binary_2);
    (s2, left->Ok_0, right->Ok_0)
}

/// The type in which an integer operator computes: that of the left operand
/// for shifts, else that of the expression.
pub open spec fn operation_type(s: Lowering, e: Expr) -> IrType {
    let operator = e.expr->Binary_0;
    if operator == BinaryOp::Shl || operator == BinaryOp::Shr {
        type_of_value(operands(s, e).0, operands(s, e).1)
    } else {
        ir_type_spec(e.ctype, e.location)->Ok_0
    }
}

/// Each integer operator computes what C computes of the numbers that its
/// operands stand for. `m` is the machine after the steps of the operands.
pub proof fn an_integer_operator_computes_its_result(s: Lowering, e: Expr, m: Machine)
    requires
        e.expr is Binary,
        arithmetic(e.expr->Binary_0),
        !(e.expr->Binary_1.ctype.kind is Pointer),
        !(e.expr->Binary_2.ctype.kind is Pointer),
        !floating(e.ctype),
        expr_spec(s, e).1 is Ok,
        expr_spec(s, e).0.ops.len() <= usize::MAX,
        holds_integer(m, operands(s, e).0, operands(s, e).1),
        holds_integer(m, operands(s, e).0, operands(s, e).2),
    ensures
        ({
            let (computed, left, right) = operands(s, e);
            let (after, result) = expr_spec(s, e);
            let end = run(m, after.ops, computed.ops.len(), after.ops.len());
            &&& same_but_values(m, end, computed.ops.len())
            &&& is_c_result(
                e.expr->Binary_0,
                number_of(m, computed, left, e.expr->Binary_1.ctype),
                number_of(m, computed, right, e.expr->Binary_2.ctype),
                operation_type(s, e),
                signed_integer(e.expr->Binary_1.ctype),
                end.values[result->Ok_0],
            )
        }),
{
    let operator = e.expr->Binary_0;
    let left_type = e.expr->Binary_1.ctype;
    let right_type = e.expr->Binary_2.ctype;
    let (s2, left, right) = operands(s, e);
    assert(expr_spec(s, e) == binary_spec(s, e));
    assert(expr_spec(s, e) == operated(s2, e, operator, left_type, right_type, left, right));
    let (after, result) = expr_spec(s, e);
    let ty = operation_type(s, e);
    assert(!ty.floating());
    let (s3, a) = coerced(s2, left, ty, left_type);
    let (s4, b) = coerced(s3, right, ty, right_type);
    let signed = signed_integer(left_type);
    let op = Op::Binary { inst: int_inst(operator, signed), ty: type_of_value(s4, a), left: a, right: b };
    assert(after.ops == s4.ops.push(op));
    operands_are_converted(s2, left, right, ty, left_type, right_type, after.ops, m);
    let at = s4.ops.len();
    let m4 = run(m, after.ops, s2.ops.len(), at);
    runs_join(m, after.ops, s2.ops.len(), at, at + 1);
    one_step_runs(m4, after.ops, at);
    instructions_compute(
        operator,
        signed,
        number_of(m, s2, left, left_type),
        number_of(m, s2, right, right_type),
        ty,
    );
}

/// Whether two numbers compare so.
pub open spec fn compares(token: ComparisonToken, a: int, b: int) -> bool {
    match token {
        ComparisonToken::Less => a < b,
        ComparisonToken::Greater => a > b,
        ComparisonToken::EqualEqual => a == b,
        ComparisonToken::NotEqual => a != b,
        ComparisonToken::LessEqual => a <= b,
        ComparisonToken::GreaterEqual => a >= b,
    }
}

/// A number that a type can hold is held as it is.
pub proof fn a_number_that_fits_is_held(a: int, ty: IrType)
    requires
        !ty.floating(),
    ensures
        0 <= a < modulus(ty) ==> a % modulus(ty) as int == a,
        -(modulus(ty) as int / 2) <= a < modulus(ty) as int / 2 ==> signed_number(
            (a % modulus(ty) as int) as nat,
            ty,
        ) == a,
{
    match ty {
        IrType::I8 => {
            assert(modulus(ty) == 0x100);
        },
        IrType::I16 => {
            assert(modulus(ty) == 0x1_0000);
        },
        _ => {
            assert(modulus(ty) == 0x1_0000_0000);
        },
    }
}

/// Numbers compare in a wider type as they do in their own.
proof fn widening_keeps_the_order(
    token: ComparisonToken,
    left: nat,
    right: nat,
    left_ty: IrType,
    right_ty: IrType,
    ty: IrType,
    left_type: Type,
    right_type: Type,
)
    requires
        !left_ty.floating(),
        !right_ty.floating(),
        ty == left_ty || ty == right_ty,
        left_ty.width() <= ty.width(),
        right_ty.width() <= ty.width(),
        left < modulus(left_ty),
        right < modulus(right_ty),
        signed_integer(left_type) == signed_integer(right_type),
    ensures
        numbers_compare(
            int_condition(token, signed_integer(left_type)),
            (number(left, left_ty, left_type) % modulus(ty) as int) as nat,
            (number(right, right_ty, right_type) % modulus(ty) as int) as nat,
            ty,
        ) == compares(
            token,
            number(left, left_ty, left_type),
            number(right, right_ty, right_type),
        ),
{
    let a = number(left, left_ty, left_type);
    let b = number(right, right_ty, right_type);
    let m = modulus(ty) as int;
    let x = (a % m) as nat;
    let y = (b % m) as nat;
    a_number_that_fits_is_held(a, ty);
    a_number_that_fits_is_held(b, ty);
    if signed_integer(left_type) {
        assert(-(m / 2) <= a < m / 2);
        assert(-(m / 2) <= b < m / 2);
        assert(signed_number(x, ty) == a);
        assert(signed_number(y, ty) == b);
    } else {
        assert(0 <= a < m && 0 <= b < m);
        assert(x == a && y == b);
    }
}

/// The steps of a comparison after those that convert its operands.
proof fn comparison_runs(ops: Seq<Op>, at: nat, condition: IntCC, x: usize, y: usize, m: Machine)
    requires
        ops.len() == at + 2,
        ops.len() <= usize::MAX,
        x < at,
        y < at,
        ops[at as int] == (Op::CompareInt { condition, left: x, right: y }),
        ops[at as int + 1] == (Op::Unary {
            inst: UnaryInst::Uextend,
            ty: IrType::I32,
            value: at as usize,
        }),
    ensures
        ({
            let end = run(m, ops, at, at + 2);
            &&& same_but_values(m, end, at)
            &&& end.values[(at + 1) as usize] == if numbers_compare(
                condition,
                m.values[x],
                m.values[y],
                ops[x as int].result_type(),
            ) {
                1nat
            } else {
                0nat
            }
        }),
{
    reveal_with_fuel(run, 3);
}

/// The steps of a comparison of integers.
proof fn integers_are_compared(
    s: Lowering,
    left: usize,
    right: usize,
    left_type: Type,
    right_type: Type,
    token: ComparisonToken,
    ty: IrType,
    m: Machine,
)
    requires
        holds_integer(m, s, left),
        holds_integer(m, s, right),
        signed_integer(left_type) == signed_integer(right_type),
        ty == (if type_of_value(s, left).width() >= type_of_value(s, right).width() {
            type_of_value(s, left)
        } else {
            type_of_value(s, right)
        }),
        ({
            let (s1, a) = coerced(s, left, ty, left_type);
            let (s2, b) = coerced(s1, right, ty, right_type);
            s2.ops.len() + 2 <= usize::MAX
        }),
    ensures
        ({
            let (s1, a) = coerced(s, left, ty, left_type);
            let (s2, b) = coerced(s1, right, ty, right_type);
            let (after, result) = compared(
                s2,
                Op::CompareInt {
                    condition: int_condition(token, signed_integer(left_type)),
                    left: a,
                    right: b,
                },
            );
            let end = run(m, after.ops, s.ops.len(), after.ops.len());
            &&& same_but_values(m, end, s.ops.len())
            &&& end.values[result->Ok_0] == if compares(
                token,
                number_of(m, s, left, left_type),
                number_of(m, s, right, right_type),
            ) {
                1nat
            } else {
                0nat
            }
        }),
{
    let (s1, a) = coerced(s, left, ty, left_type);
    let (s2, b) = coerced(s1, right, ty, right_type);
    let condition = int_condition(token, signed_integer(left_type));
    let (after, result) = compared(s2, Op::CompareInt { condition, left: a, right: b });
    let at = s2.ops.len();
    operands_are_converted(s, left, right, ty, left_type, right_type, after.ops, m);
    widening_keeps_the_order(
        token,
        m.values[left],
        m.values[right],
        type_of_value(s, left),
        type_of_value(s, right),
        ty,
        left_type,
        right_type,
    );
    let m2 = run(m, after.ops, s.ops.len(), at);
    runs_join(m, after.ops, s.ops.len(), at, at + 2);
    assert(after.ops[a as int] == s2.ops[a as int]);
    comparison_runs(after.ops, at, condition, a, b, m2);
}

/// A comparison of two integers of one signedness, or of two pointers, is one
/// where the numbers compare so, else nought. `m` is the machine after the
/// steps of the operands.
pub proof fn a_comparison_compares_the_numbers(
    s: Lowering,
    e: Expr,
    token: ComparisonToken,
    m: Machine,
)
    requires
        e.expr is Binary,
        e.expr->Binary_0 == BinaryOp::Compare(token),
        !floating(e.ctype),
        !floating(e.expr->Binary_1.ctype),
        !floating(e.expr->Binary_2.ctype),
        signed_integer(e.expr->Binary_1.ctype) == signed_integer(e.expr->Binary_2.ctype),
        expr_spec(s, e).1 is Ok,
        expr_spec(s, e).0.ops.len() <= usize::MAX,
        holds_integer(m, operands(s, e).0, operands(s, e).1),
        holds_integer(m, operands(s, e).0, operands(s, e).2),
    ensures
        ({
            let (computed, left, right) = operands(s, e);
            let (after, result) = expr_spec(s, e);
            let end = run(m, after.ops, computed.ops.len(), after.ops.len());
            &&& same_but_values(m, end, computed.ops.len())
            &&& end.values[result->Ok_0] == if compares(
                token,
                number_of(m, computed, left, e.expr->Binary_1.ctype),
                number_of(m, computed, right, e.expr->Binary_2.ctype),
            ) {
                1nat
            } else {
                0nat
            }
        }),
{
    let left_type = e.expr->Binary_1.ctype;
    let right_type = e.expr->Binary_2.ctype;
    let (s2, left, right) = operands(s, e);
    assert(expr_spec(s, e) == binary_spec(s, e));
    assert(expr_spec(s, e) == operated(
        s2,
        e,
        e.expr->Binary_0,
        left_type,
        right_type,
        left,
        right,
    ));
    let (after, result) = expr_spec(s, e);
    if left_type.kind is Pointer && right_type.kind is Pointer {
        let condition = int_condition(token, false);
        let at = s2.ops.len();
        assert(after.ops[left as int] == s2.ops[left as int]);
        comparison_runs(after.ops, at, condition, left, right, m);
    } else {
        let left_ty = type_of_value(s2, left);
        let right_ty = type_of_value(s2, right);
        let ty = if left_ty.width() >= right_ty.width() {
            left_ty
        } else {
            right_ty
        };
        integers_are_compared(s2, left, right, left_type, right_type, token, ty, m);
    }
}

} // verus!
