//! What declarations of locals do when their steps run.

use crate::bundle::encode::le_bytes;
use crate::error::{ErrorView, Location};
use crate::hir::{Declaration, Expr, Field, Initializer, StorageClass, Type, TypeKind};
use crate::ir::{BinaryInst, IrType, Op};
use crate::lower::copy_laws::same_but_memory;
use crate::lower::expr_laws::expression_is_lowered_soundly;
use crate::lower::expr_model::expr_spec;
use crate::lower::init_model::{
    aggregate_at_spec, bytes_stored_from, item_spec, local_spec, rounded_spec, scalar_at_spec,
    variable_local_spec, vla_spec, zeroed_from,
};
use crate::lower::laws::extends;
use crate::lower::machine::{bytes_of, executed, modulus, run, same_but_values, written, Machine};
use crate::lower::state::{coerced, did, emitted, type_of_value, Lowering};
use crate::lower::value_laws::{
    a_coercion_keeps_the_number, holds_integer, number_of, one_step_runs, runs_join,
};
use crate::types::ir_type_spec;
use vstd::arithmetic::div_mod::{lemma_mul_mod_noop, lemma_small_mod};
use vstd::prelude::*;

verus! {

/// A scalar element or member is written at its offset in the slot, at the
/// width of its type, and nothing else changes. `m` is the machine after the
/// steps of the initializing expression.
pub proof fn an_initialized_scalar_is_written(
    s: Lowering,
    slot: usize,
    ctype: Type,
    item: Initializer,
    expression: Expr,
    ty: IrType,
    offset: u64,
    location: Location,
    message: Seq<char>,
    m: Machine,
)
    requires
        ctype.scalar,
        item matches Initializer::Scalar(scalar) && scalar.expression == expression,
        ir_type_spec(ctype, location) == Ok::<IrType, ErrorView>(ty),
        !ty.floating(),
        item_spec(s, slot, ctype, item, offset, location, message).1 is Ok,
        item_spec(s, slot, ctype, item, offset, location, message).0.ops.len() <= usize::MAX,
        holds_integer(
            m,
            expr_spec(s, expression).0,
            expr_spec(s, expression).1->Ok_0,
        ),
    ensures
        ({
            let (computed, value) = expr_spec(s, expression);
            let after = item_spec(s, slot, ctype, item, offset, location, message).0;
            let end = run(m, after.ops, computed.ops.len(), after.ops.len());
            let number = number_of(m, computed, value->Ok_0, expression.ctype);
            &&& same_but_memory(m, end, computed.ops.len())
            &&& end.memory == written(
                m.memory,
                m.slots[slot] + offset,
                (number % modulus(ty) as int) as nat,
                bytes_of(ty),
            )
        }),
{
    let (computed, value) = expr_spec(s, expression);
    let after = item_spec(s, slot, ctype, item, offset, location, message).0;
    assert(item_spec(s, slot, ctype, item, offset, location, message) == scalar_at_spec(
        s,
        slot,
        ctype,
        item,
        offset,
        location,
    ));
    let (s1, kept) = coerced(computed, value->Ok_0, ty, expression.ctype);
    assert(after.ops == s1.ops.push(
        Op::StackStore { value: kept, slot, offset: offset as i32 },
    ));
    a_coercion_keeps_the_number(computed, value->Ok_0, ty, expression.ctype, after.ops, m);
    let at = s1.ops.len();
    assert(after.ops[kept as int] == s1.ops[kept as int]);
    runs_join(m, after.ops, computed.ops.len(), at, at + 1);
    one_step_runs(run(m, after.ops, computed.ops.len(), at), after.ops, at);
}

/// Braces around the initializer of a scalar change nothing, a list for an
/// object goes to the object at its offset, and a gap adds no step.
pub proof fn an_item_goes_to_its_offset(
    s: Lowering,
    slot: usize,
    ctype: Type,
    items: Vec<Initializer>,
    offset: u64,
    location: Location,
    message: Seq<char>,
)
    ensures
        item_spec(s, slot, ctype, Initializer::Zero, offset, location, message) == (
            s,
            Ok::<(), ErrorView>(()),
        ),
        !ctype.scalar ==> item_spec(
            s,
            slot,
            ctype,
            Initializer::InitializerList(items),
            offset,
            location,
            message,
        ) == aggregate_at_spec(
            s,
            slot,
            ctype,
            None,
            Initializer::InitializerList(items),
            offset,
            location,
        ),
        ctype.scalar && items@.len() == 1 && (items@[0] is Scalar || items@[0] is InitializerList)
            ==> item_spec(
            s,
            slot,
            ctype,
            Initializer::InitializerList(items),
            offset,
            location,
            message,
        ) == item_spec(s, slot, ctype, items@[0], offset, location, message),
{
    reveal_with_fuel(scalar_at_spec, 2);
}

/// The initializer of a union initializes its first member, at its start.
pub proof fn a_union_initializes_its_first_member(
    s: Lowering,
    slot: usize,
    ctype: Type,
    fields: Vec<Field>,
    items: Vec<Initializer>,
    base: u64,
    location: Location,
)
    requires
        ctype.kind == TypeKind::Union(fields),
        fields@.len() > 0,
        items@.len() == 1,
    ensures
        aggregate_at_spec(
            s,
            slot,
            ctype,
            None,
            Initializer::InitializerList(items),
            base,
            location,
        ) == item_spec(
            s,
            slot,
            fields@[0].ctype,
            items@[0],
            base,
            location,
            "unsupported union initializer element"@,
        ),
{
}

/// Whether memory differs only in that `bytes` stand at `at`.
pub open spec fn is_filled(
    before: spec_fn(int) -> u8,
    after: spec_fn(int) -> u8,
    at: int,
    bytes: Seq<u8>,
) -> bool {
    forall|a: int|
        #[trigger] after(a) == if at <= a < at + bytes.len() {
            bytes[a - at]
        } else {
            before(a)
        }
}

proof fn one_byte_is_written(byte: u8)
    ensures
        le_bytes(byte as nat, 1) == seq![byte],
{
    reveal_with_fuel(le_bytes, 2);
    assert(le_bytes(byte as nat, 1) =~= seq![byte]);
}

/// Setting a slot to zero sets each of its bytes from `offset` on to zero.
pub proof fn zeros_are_written(
    s: Lowering,
    slot: usize,
    zero: usize,
    offset: u32,
    size: u32,
    location: Location,
    ops: Seq<Op>,
    m: Machine,
)
    requires
        zeroed_from(s, slot, zero, offset, size, location).1 is Ok,
        extends(zeroed_from(s, slot, zero, offset, size, location).0.ops, ops),
        ops.len() <= usize::MAX,
        offset <= size,
        zero < s.ops.len(),
        s.ops[zero as int] == (Op::Iconst { ty: IrType::I8, value: 0 }),
        m.values[zero] == 0,
    ensures
        ({
            let after = zeroed_from(s, slot, zero, offset, size, location).0;
            let end = run(m, ops, s.ops.len(), after.ops.len());
            &&& extends(s.ops, after.ops)
            &&& same_but_memory(m, end, s.ops.len())
            &&& is_filled(
                m.memory,
                end.memory,
                m.slots[slot] + offset,
                Seq::new((size - offset) as nat, |i: int| 0u8),
            )
        }),
    decreases size - offset,
{
    if offset < size {
        let at = s.ops.len();
        let s1 = did(s, Op::StackStore { value: zero, slot, offset: offset as i32 });
        let after = zeroed_from(s, slot, zero, offset, size, location).0;
        zeroing_only_adds(s1, slot, zero, (offset + 1) as u32, size, location);
        assert(ops[at as int] == after.ops[at as int]);
        assert(after.ops[at as int] == s1.ops[at as int]);
        assert(ops[zero as int] == after.ops[zero as int]);
        assert(after.ops[zero as int] == s1.ops[zero as int]);
        let m1 = executed(m, ops, at);
        one_byte_is_written(0);
        assert(m1.memory == written(m.memory, m.slots[slot] + offset, 0, 1));
        zeros_are_written(s1, slot, zero, (offset + 1) as u32, size, location, ops, m1);
        one_step_runs(m, ops, at);
        runs_join(m, ops, at, at + 1, after.ops.len());
        let end = run(m, ops, at, after.ops.len());
        let bytes = Seq::new((size - offset) as nat, |i: int| 0u8);
        let start = m.slots[slot] + offset;
        assert forall|a: int| #[trigger] (end.memory)(a) == (if start <= a < start + bytes.len() {
            bytes[a - start]
        } else {
            (m.memory)(a)
        }) by {
            assert((m1.memory)(a) == if a == start {
                0u8
            } else {
                (m.memory)(a)
            });
        }
    }
}

proof fn zeroing_only_adds(
    s: Lowering,
    slot: usize,
    zero: usize,
    offset: u32,
    size: u32,
    location: Location,
)
    ensures
        extends(s.ops, zeroed_from(s, slot, zero, offset, size, location).0.ops),
    decreases size - offset,
{
    if offset < size && offset <= i32::MAX {
        let s1 = did(s, Op::StackStore { value: zero, slot, offset: offset as i32 });
        zeroing_only_adds(s1, slot, zero, (offset + 1) as u32, size, location);
    }
}

proof fn storing_only_adds(
    s: Lowering,
    slot: usize,
    bytes: Seq<u8>,
    index: nat,
    location: Location,
)
    ensures
        extends(s.ops, bytes_stored_from(s, slot, bytes, index, location).0.ops),
    decreases bytes.len() - index,
{
    if index < bytes.len() && index <= i32::MAX {
        let (s1, value) = emitted(
            s,
            Op::Iconst { ty: IrType::I8, value: bytes[index as int] as i64 },
        );
        let s2 = did(s1, Op::StackStore { value, slot, offset: index as i32 });
        storing_only_adds(s2, slot, bytes, index + 1, location);
    }
}

/// A string that initializes an array of characters stands at the start of the
/// array, byte for byte.
pub proof fn a_string_is_written(
    s: Lowering,
    slot: usize,
    bytes: Seq<u8>,
    index: nat,
    location: Location,
    ops: Seq<Op>,
    m: Machine,
)
    requires
        index <= bytes.len(),
        bytes_stored_from(s, slot, bytes, index, location).1 is Ok,
        extends(bytes_stored_from(s, slot, bytes, index, location).0.ops, ops),
        ops.len() <= usize::MAX,
    ensures
        ({
            let after = bytes_stored_from(s, slot, bytes, index, location).0;
            let end = run(m, ops, s.ops.len(), after.ops.len());
            &&& same_but_memory(m, end, s.ops.len())
            &&& is_filled(
                m.memory,
                end.memory,
                m.slots[slot] + index as int,
                bytes.skip(index as int),
            )
        }),
    decreases bytes.len() - index,
{
    if index < bytes.len() {
        let at = s.ops.len();
        let byte = bytes[index as int];
        let (s1, value) = emitted(s, Op::Iconst { ty: IrType::I8, value: byte as i64 });
        let s2 = did(s1, Op::StackStore { value, slot, offset: index as i32 });
        let after = bytes_stored_from(s, slot, bytes, index, location).0;
        storing_only_adds(s2, slot, bytes, index + 1, location);
        assert(ops[at as int] == after.ops[at as int]);
        assert(after.ops[at as int] == s2.ops[at as int]);
        assert(ops[at as int + 1] == after.ops[at as int + 1]);
        assert(after.ops[at as int + 1] == s2.ops[at as int + 1]);
        let m1 = executed(m, ops, at);
        let m2 = executed(m1, ops, at + 1);
        lemma_small_mod(byte as nat, 0x100);
        assert(m1.values[at as usize] == byte as nat);
        one_byte_is_written(byte);
        assert(m2.memory == written(m.memory, m.slots[slot] + index as int, byte as nat, 1));
        a_string_is_written(s2, slot, bytes, index + 1, location, ops, m2);
        reveal_with_fuel(run, 3);
        assert(run(m, ops, at, at + 2) == m2);
        runs_join(m, ops, at, at + 2, after.ops.len());
        let end = run(m, ops, at, after.ops.len());
        let start = m.slots[slot] + index as int;
        let rest = bytes.skip(index as int);
        let later = bytes.skip(index as int + 1);
        assert forall|a: int| #[trigger] (end.memory)(a) == (if start <= a < start + rest.len() {
            rest[a - start]
        } else {
            (m.memory)(a)
        }) by {
            assert((m2.memory)(a) == if a == start {
                byte
            } else {
                (m.memory)(a)
            });
            if start < a < start + rest.len() {
                assert(rest[a - start] == later[a - (start + 1)]);
            }
        }
    }
}

/// A scalar local that is declared with an expression holds its number, modulo
/// what its type can hold. `m` is the machine after the steps of the
/// expression.
pub proof fn a_declared_scalar_holds_its_number(
    s: Lowering,
    key: u32,
    ctype: Type,
    initializer: Initializer,
    expression: Expr,
    ty: IrType,
    location: Location,
    m: Machine,
)
    requires
        initializer matches Initializer::Scalar(scalar) && scalar.expression == expression,
        ir_type_spec(ctype, location) == Ok::<IrType, ErrorView>(ty),
        !ty.floating(),
        variable_local_spec(s, key, ctype, Some(initializer), location).1 is Ok,
        variable_local_spec(s, key, ctype, Some(initializer), location).0.ops.len() <= usize::MAX,
        ({
            let (computed, value) = expr_spec(variable_opened(s, key, ty), expression);
            holds_integer(m, computed, value->Ok_0)
        }),
    ensures
        ({
            let (computed, value) = expr_spec(variable_opened(s, key, ty), expression);
            let after = variable_local_spec(s, key, ctype, Some(initializer), location).0;
            let end = run(m, after.ops, computed.ops.len(), after.ops.len());
            let number = number_of(m, computed, value->Ok_0, expression.ctype);
            let variable = s.ops.len() as usize;
            &&& after.variables.contains_key(key)
            &&& after.variables[key] == variable
            &&& end.memory == m.memory
            &&& end.variables == m.variables.insert(
                variable,
                (number % modulus(ty) as int) as nat,
            )
        }),
{
    let opened = variable_opened(s, key, ty);
    let (computed, value) = expr_spec(opened, expression);
    let after = variable_local_spec(s, key, ctype, Some(initializer), location).0;
    expression_is_lowered_soundly(opened, expression);
    let (s1, kept) = coerced(computed, value->Ok_0, ty, expression.ctype);
    let variable = s.ops.len() as usize;
    assert(after.ops == s1.ops.push(Op::DefVar { variable, value: kept }));
    a_coercion_keeps_the_number(computed, value->Ok_0, ty, expression.ctype, after.ops, m);
    let at = s1.ops.len();
    runs_join(m, after.ops, computed.ops.len(), at, at + 1);
    one_step_runs(run(m, after.ops, computed.ops.len(), at), after.ops, at);
}

/// The state in which the expression that initializes a scalar local is
/// lowered: a variable was made for it.
pub open spec fn variable_opened(s: Lowering, key: u32, ty: IrType) -> Lowering {
    let (s, variable) = emitted(s, Op::DeclareVar { ty });
    Lowering {
        variables: s.variables.insert(key, variable),
        variable_types: s.variable_types.insert(key, ty),
        ..s
    }
}

/// Types and objects with static storage take no steps where they are
/// declared.
pub proof fn some_declarations_take_no_steps(s: Lowering, declaration: Declaration)
    requires
        declaration.symbol.storage_class == StorageClass::Typedef || (
        declaration.symbol.storage_class == StorageClass::Static && !(
        declaration.symbol.ctype.kind is Function)),
    ensures
        local_spec(s, declaration) == (s, Ok::<(), ErrorView>(())),
{
}

/// Whether a number is the first multiple of `step` from `least` on.
pub open spec fn rounds_up(number: int, least: int, step: int) -> bool {
    number % step == 0 && least <= number < least + step
}

proof fn masks_round_up(bytes: u64, alignment: u32)
    requires
        alignment == 2 || alignment == 4 || alignment == 8,
        bytes + alignment <= 0x1_0000_0000,
    ensures
        ({
            let up = (bytes + alignment - 1) as u64;
            let clear = (!((alignment - 1) as u32) as i64) as int % 0x1_0000_0000;
            rounds_up((up & clear as u64) as int, bytes as int, alignment as int)
        }),
{
    let up = (bytes + alignment - 1) as u64;
    if alignment == 2 {
        assert(!1u32 == 0xffff_fffeu32) by (bit_vector);
        assert(up < 0x1_0000_0000u64 ==> up & 0xffff_fffeu64 == up - up % 2) by (bit_vector);
    } else if alignment == 4 {
        assert(!3u32 == 0xffff_fffcu32) by (bit_vector);
        assert(up < 0x1_0000_0000u64 ==> up & 0xffff_fffcu64 == up - up % 4) by (bit_vector);
    } else {
        assert(!7u32 == 0xffff_fff8u32) by (bit_vector);
        assert(up < 0x1_0000_0000u64 ==> up & 0xffff_fff8u64 == up - up % 8) by (bit_vector);
    }
}

proof fn sizes_are_rounded(
    s: Lowering,
    bytes: usize,
    alignment: u32,
    ops: Seq<Op>,
    m: Machine,
)
    requires
        alignment == 1 || alignment == 2 || alignment == 4 || alignment == 8,
        bytes < s.ops.len(),
        type_of_value(s, bytes) == IrType::I32,
        m.values[bytes] + alignment <= 0x1_0000_0000,
        extends(rounded_spec(s, bytes, alignment).0.ops, ops),
        ops.len() <= usize::MAX,
    ensures
        ({
            let (after, rounded) = rounded_spec(s, bytes, alignment);
            let end = run(m, ops, s.ops.len(), after.ops.len());
            &&& extends(s.ops, after.ops)
            &&& same_but_values(m, end, s.ops.len())
            &&& rounds_up(
                end.values[rounded] as int,
                m.values[bytes] as int,
                alignment as int,
            )
        }),
{
    let (after, rounded) = rounded_spec(s, bytes, alignment);
    let at = s.ops.len();
    reveal_with_fuel(run, 5);
    if alignment > 1 {
        assert(ops[at as int] == after.ops[at as int]);
        assert(ops[at as int + 1] == after.ops[at as int + 1]);
        assert(ops[at as int + 2] == after.ops[at as int + 2]);
        assert(ops[at as int + 3] == after.ops[at as int + 3]);
        let m1 = executed(m, ops, at);
        let m2 = executed(m1, ops, at + 1);
        let m3 = executed(m2, ops, at + 2);
        let m4 = executed(m3, ops, at + 3);
        masks_round_up(m.values[bytes] as u64, alignment);
        lemma_small_mod((alignment - 1) as nat, 0x1_0000_0000);
        lemma_small_mod((m.values[bytes] + alignment - 1) as nat, 0x1_0000_0000);
        assert(m1.values[at as usize] == alignment - 1);
        assert(m2.values[(at + 1) as usize] == m.values[bytes] + alignment - 1);
        assert(run(m, ops, at, at + 4) == m4);
    }
}

/// An array of variable length takes as many bytes of stack as its bound says,
/// rounded up to the alignment of its elements, and its name stands for them.
/// `m` is the machine after the steps of the bound.
pub proof fn a_variable_array_takes_its_bytes(
    s: Lowering,
    key: u32,
    element: Type,
    bound: Expr,
    size: u64,
    alignment: u64,
    location: Location,
    m: Machine,
)
    requires
        element.size == Ok::<u64, String>(size),
        element.align == Ok::<u64, String>(alignment),
        size <= i64::MAX,
        alignment == 1 || alignment == 2 || alignment == 4 || alignment == 8,
        vla_spec(s, key, element, bound, false, location).1 is Ok,
        vla_spec(s, key, element, bound, false, location).0.ops.len() <= usize::MAX,
        ({
            let (computed, count) = expr_spec(s, bound);
            &&& holds_integer(m, computed, count->Ok_0)
            &&& m.values[count->Ok_0] * size + alignment <= 0x1_0000_0000
        }),
    ensures
        ({
            let (computed, count) = expr_spec(s, bound);
            let after = vla_spec(s, key, element, bound, false, location).0;
            let at = (after.ops.len() - 3) as nat;
            let end = run(m, after.ops, computed.ops.len(), at);
            let variable = after.vla_bases[key];
            &&& after.ops[at as int] matches Op::StackAllocDynamic { bytes } && rounds_up(
                end.values[bytes] as int,
                (m.values[count->Ok_0] * size) as int,
                alignment as int,
            )
            &&& after.vla_bases.contains_key(key)
            &&& after.ops[variable as int] == (Op::DeclareVar { ty: IrType::I32 })
            &&& after.ops.last() == (Op::DefVar { variable, value: at as usize })
        }),
{
    let (computed, count) = expr_spec(s, bound);
    let after = vla_spec(s, key, element, bound, false, location).0;
    let from = type_of_value(computed, count->Ok_0);
    let start = computed.ops.len();
    let (s1, wide) = if from == IrType::I32 {
        (computed, count->Ok_0)
    } else {
        emitted(
            computed,
            Op::Unary {
                inst: crate::ir::UnaryInst::Uextend,
                ty: IrType::I32,
                value: count->Ok_0,
            },
        )
    };
    let (s2, scale) = emitted(s1, Op::Iconst { ty: IrType::I32, value: size as i64 });
    let (s3, bytes) = emitted(
        s2,
        Op::Binary { inst: BinaryInst::Imul, ty: IrType::I32, left: wide, right: scale },
    );
    assert(s2.ops[wide as int].result_type() == IrType::I32);
    let (s4, rounded) = rounded_spec(s3, bytes, alignment as u32);
    assert(extends(s3.ops, s4.ops));
    assert(extends(s4.ops, after.ops));
    assert(extends(s3.ops, after.ops)) by {
        assert forall|i: int| 0 <= i < s3.ops.len() implies #[trigger] after.ops[i]
            == s3.ops[i] by {
            assert(s4.ops[i] == s3.ops[i]);
        }
    }
    assert(after.ops.len() == s4.ops.len() + 3);
    let middle = s3.ops.len();
    let m3 = run(m, after.ops, start, middle);
    reveal_with_fuel(run, 4);
    let k = m.values[count->Ok_0] as int;
    assert(m3.values[bytes] == k * size) by {
        lemma_mul_mod_noop(k, size as int, 0x1_0000_0000);
        assert(k * size >= 0) by (nonlinear_arith)
            requires
                k >= 0,
                size >= 0,
        ;
        lemma_small_mod((k * size) as nat, 0x1_0000_0000);
        lemma_small_mod(k as nat, 0x1_0000_0000);
        let n1 = s1.ops.len();
        let m1 = run(m, after.ops, start, n1);
        assert(m1.values[wide] == k);
        let m2 = executed(m1, after.ops, n1);
        assert(m2.values[scale] == size as int % 0x1_0000_0000);
        assert(m2.values[wide] == k);
        runs_join(m, after.ops, start, n1, middle);
    }
    sizes_are_rounded(s3, bytes, alignment as u32, after.ops, m3);
    runs_join(m, after.ops, start, middle, s4.ops.len());
}

} // verus!
