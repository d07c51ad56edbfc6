//! What reads, writes and addresses of objects do when their steps run.

use crate::error::{ErrorView, Location};
use crate::hir::{BinaryOp, Expr, ExprType, Type};
use crate::ir::{BinaryInst, IrType, Op};
use crate::lower::copy_laws::same_but_memory;
use crate::lower::expr_model::{
    access_offset, assign_spec, deref_spec, expr_spec, lvalue_spec, member_address_spec,
    member_spec, object_type, static_ref_spec,
};
use crate::lower::laws::extends;
use crate::lower::machine::{
    bytes_of, executed, modulus, object_at, run, same_but_values, written, Machine,
};
use crate::lower::state::{coerced, local_address_spec, type_of_value, variable_type, Lowering};
use crate::lower::unary_laws::type_of;
use crate::lower::value_laws::{
    a_coercion_keeps_the_number, holds_integer, number_of, one_step_runs, runs_join,
};
use crate::types::{address_valued, floating, ir_type_spec, stored_as_object, stripped};
use vstd::arithmetic::div_mod::{lemma_add_mod_noop_right, lemma_small_mod};
use vstd::prelude::*;

verus! {

/// Whether a name stands for an object with static storage.
pub open spec fn names_global(s: Lowering, key: u32) -> bool {
    &&& !s.variables.contains_key(key)
    &&& !s.stack_locals.contains_key(key)
    &&& !s.vla_bases.contains_key(key)
    &&& !s.tables.functions.contains_key(key)
    &&& s.tables.globals.contains_key(key)
}

/// The address of an object with static storage.
pub open spec fn global_address(m: Machine, s: Lowering, key: u32) -> nat {
    m.symbols[(1, s.tables.globals[key])]
}

/// Reading a name gives what its object holds: what its variable holds, what
/// the start of its slot holds, or what stands at the address of its symbol.
pub proof fn a_name_reads_its_object(s: Lowering, e: Expr, pointer: Expr, key: u32, m: Machine)
    requires
        e.expr matches ExprType::Deref(of) && *of == pointer,
        pointer.expr matches ExprType::Id(symbol) && symbol.key == key,
        !address_valued(e.ctype),
        expr_spec(s, e).1 is Ok,
        expr_spec(s, e).0.ops.len() <= usize::MAX,
    ensures
        ({
            let (after, result) = expr_spec(s, e);
            let end = run(m, after.ops, s.ops.len(), after.ops.len());
            &&& same_but_values(m, end, s.ops.len())
            &&& s.stack_locals.contains_key(key) && s.variable_types.contains_key(key)
                ==> end.values[result->Ok_0] == object_at(
                m.memory,
                m.slots[s.stack_locals[key]] as int,
                bytes_of(s.variable_types[key]),
            )
            &&& !s.stack_locals.contains_key(key) && s.variables.contains_key(key)
                ==> end.values[result->Ok_0] == m.variables[s.variables[key]]
            &&& names_global(s, key) && global_address(m, s, key) < modulus(IrType::I32)
                ==> end.values[result->Ok_0] == object_at(
                m.memory,
                global_address(m, s, key) as int,
                bytes_of(type_of(e)),
            )
        }),
{
    assert(expr_spec(s, e) == deref_spec(s, e, pointer, type_of(e)));
    reveal_with_fuel(run, 3);
    if names_global(s, key) && global_address(m, s, key) < modulus(IrType::I32) {
        lemma_small_mod(global_address(m, s, key), modulus(IrType::I32));
    }
}

/// Reading what a pointer points at gives what stands at its address. `m` is
/// the machine after the steps of the pointer.
pub proof fn a_dereference_reads_the_object(s: Lowering, e: Expr, pointer: Expr, m: Machine)
    requires
        e.expr matches ExprType::Deref(of) && *of == pointer,
        !(pointer.expr is Id),
        !(pointer.expr is Member),
        !(pointer.expr is Noop),
        !(pointer.expr is Cast),
        !address_valued(e.ctype),
        expr_spec(s, e).1 is Ok,
        expr_spec(s, e).0.ops.len() <= usize::MAX,
    ensures
        ({
            let (computed, address) = expr_spec(s, pointer);
            let (after, result) = expr_spec(s, e);
            let end = run(m, after.ops, computed.ops.len(), after.ops.len());
            &&& same_but_values(m, end, computed.ops.len())
            &&& end.values[result->Ok_0] == object_at(
                m.memory,
                m.values[address->Ok_0] as int,
                bytes_of(type_of(e)),
            )
        }),
{
    assert(expr_spec(s, e) == deref_spec(s, e, pointer, type_of(e)));
    reveal_with_fuel(run, 2);
}

/// Reading through a wrapped lvalue or a member gives what stands at its
/// address. `m` is the machine after the steps of the address.
pub proof fn a_wrapped_dereference_reads_the_object(
    s: Lowering,
    e: Expr,
    pointer: Expr,
    m: Machine,
)
    requires
        e.expr matches ExprType::Deref(of) && *of == pointer,
        pointer.expr is Member || pointer.expr is Noop || pointer.expr is Cast,
        !address_valued(e.ctype),
        expr_spec(s, e).1 is Ok,
        expr_spec(s, e).0.ops.len() <= usize::MAX,
    ensures
        ({
            let (computed, address) = lvalue_spec(s, pointer);
            let (after, result) = expr_spec(s, e);
            let end = run(m, after.ops, computed.ops.len(), after.ops.len());
            &&& same_but_values(m, end, computed.ops.len())
            &&& end.values[result->Ok_0] == object_at(
                m.memory,
                m.values[address->Ok_0] as int,
                bytes_of(type_of(e)),
            )
        }),
{
    assert(expr_spec(s, e) == deref_spec(s, e, pointer, type_of(e)));
    reveal_with_fuel(run, 2);
}

/// An object that is read through a pointer is its own address.
pub proof fn a_dereferenced_object_is_its_address(s: Lowering, e: Expr, pointer: Expr)
    requires
        e.expr matches ExprType::Deref(of) && *of == pointer,
        address_valued(e.ctype),
    ensures
        expr_spec(s, e) == expr_spec(s, pointer),
{
    assert(expr_spec(s, e) == deref_spec(s, e, pointer, type_of(e)));
}

/// The steps after the address of an object that add the offset of a member.
proof fn an_offset_is_added(
    s: Lowering,
    address: usize,
    offset: u64,
    after: Lowering,
    result: usize,
    ops: Seq<Op>,
    m: Machine,
)
    requires
        address < s.ops.len(),
        type_of_value(s, address) == IrType::I32,
        m.values[address] < modulus(IrType::I32),
        offset <= i64::MAX,
        extends(after.ops, ops),
        ops.len() <= usize::MAX,
        offset == 0 ==> after.ops == s.ops && result == address,
        offset != 0 ==> {
            &&& after.ops == s.ops.push(
                Op::Iconst { ty: IrType::I32, value: offset as i64 },
            ).push(
                Op::Binary {
                    inst: BinaryInst::Iadd,
                    ty: IrType::I32,
                    left: address,
                    right: s.ops.len() as usize,
                },
            )
            &&& result == s.ops.len() + 1
        },
    ensures
        ({
            let end = run(m, ops, s.ops.len(), after.ops.len());
            &&& same_but_values(m, end, s.ops.len())
            &&& end.values[result] == (m.values[address] + offset) % 0x1_0000_0000
            &&& result < after.ops.len()
        }),
{
    let at = s.ops.len();
    reveal_with_fuel(run, 3);
    lemma_small_mod(m.values[address], 0x1_0000_0000);
    if offset != 0 {
        assert(ops[at as int] == after.ops[at as int]);
        assert(ops[at as int + 1] == after.ops[at as int + 1]);
        lemma_add_mod_noop_right(m.values[address] as int, offset as int, 0x1_0000_0000);
        let m1 = executed(m, ops, at);
        assert(m1.values[at as usize] == offset as int % 0x1_0000_0000);
    }
}

/// A member of what a pointer points at lies at the pointer's address plus the
/// member's offset. `m` is the machine after the steps of the pointer.
pub proof fn a_pointed_member_has_its_address(
    s: Lowering,
    base: Expr,
    pointer: Expr,
    member: u32,
    offset: u64,
    location: Location,
    ops: Seq<Op>,
    m: Machine,
)
    requires
        stripped(base).expr matches ExprType::Deref(of) && *of == pointer,
        access_offset(base.ctype, member, location) == Ok::<u64, ErrorView>(offset),
        offset <= i64::MAX,
        member_address_spec(s, base, member, location).1 is Ok,
        extends(member_address_spec(s, base, member, location).0.ops, ops),
        ops.len() <= usize::MAX,
        ({
            let (computed, address) = expr_spec(s, pointer);
            &&& address->Ok_0 < computed.ops.len()
            &&& type_of_value(computed, address->Ok_0) == IrType::I32
            &&& m.values[address->Ok_0] < modulus(IrType::I32)
        }),
    ensures
        ({
            let (computed, address) = expr_spec(s, pointer);
            let (after, result) = member_address_spec(s, base, member, location);
            let end = run(m, ops, computed.ops.len(), after.ops.len());
            &&& same_but_values(m, end, computed.ops.len())
            &&& end.values[result->Ok_0] == (m.values[address->Ok_0] + offset) % 0x1_0000_0000
            &&& result->Ok_0 < after.ops.len()
        }),
{
    let (computed, address) = expr_spec(s, pointer);
    let (after, result) = member_address_spec(s, base, member, location);
    an_offset_is_added(computed, address->Ok_0, offset, after, result->Ok_0, ops, m);
}

/// A member of a member lies at the address of the outer member plus the inner
/// one's offset. `m` is the machine after the steps of the outer member.
pub proof fn a_nested_member_has_its_address(
    s: Lowering,
    base: Expr,
    parent: Expr,
    outer: u32,
    member: u32,
    offset: u64,
    location: Location,
    ops: Seq<Op>,
    m: Machine,
)
    requires
        stripped(base).expr matches ExprType::Member(of, name) && *of == parent && name == outer,
        access_offset(base.ctype, member, location) == Ok::<u64, ErrorView>(offset),
        offset <= i64::MAX,
        member_address_spec(s, base, member, location).1 is Ok,
        extends(member_address_spec(s, base, member, location).0.ops, ops),
        ops.len() <= usize::MAX,
        ({
            let (computed, address) = member_address_spec(s, parent, outer, location);
            &&& address->Ok_0 < computed.ops.len()
            &&& type_of_value(computed, address->Ok_0) == IrType::I32
            &&& m.values[address->Ok_0] < modulus(IrType::I32)
        }),
    ensures
        ({
            let (computed, address) = member_address_spec(s, parent, outer, location);
            let (after, result) = member_address_spec(s, base, member, location);
            let end = run(m, ops, computed.ops.len(), after.ops.len());
            &&& same_but_values(m, end, computed.ops.len())
            &&& end.values[result->Ok_0] == (m.values[address->Ok_0] + offset) % 0x1_0000_0000
            &&& result->Ok_0 < after.ops.len()
        }),
{
    let (computed, address) = member_address_spec(s, parent, outer, location);
    let (after, result) = member_address_spec(s, base, member, location);
    an_offset_is_added(computed, address->Ok_0, offset, after, result->Ok_0, ops, m);
}

/// The address of a named object as a machine has it.
pub open spec fn object_address(m: Machine, s: Lowering, key: u32) -> nat {
    if s.stack_locals.contains_key(key) {
        m.slots[s.stack_locals[key]]
    } else {
        global_address(m, s, key)
    }
}

/// A member of a named object, on the stack or with static storage, lies at
/// the address of the object plus the member's offset.
pub proof fn a_named_member_has_its_address(
    s: Lowering,
    base: Expr,
    key: u32,
    member: u32,
    offset: u64,
    location: Location,
    ops: Seq<Op>,
    m: Machine,
)
    requires
        stripped(base).expr matches ExprType::Id(symbol) && symbol.key == key,
        s.stack_locals.contains_key(key) || names_global(s, key),
        object_address(m, s, key) < modulus(IrType::I32),
        access_offset(base.ctype, member, location) == Ok::<u64, ErrorView>(offset),
        offset <= i64::MAX,
        member_address_spec(s, base, member, location).1 is Ok,
        extends(member_address_spec(s, base, member, location).0.ops, ops),
        ops.len() <= usize::MAX,
    ensures
        ({
            let (after, result) = member_address_spec(s, base, member, location);
            let end = run(m, ops, s.ops.len(), after.ops.len());
            &&& same_but_values(m, end, s.ops.len())
            &&& end.values[result->Ok_0] == (object_address(m, s, key) + offset) % 0x1_0000_0000
            &&& result->Ok_0 < after.ops.len()
        }),
{
    let at = s.ops.len();
    let op = if s.stack_locals.contains_key(key) {
        Op::StackAddr { slot: s.stack_locals[key] }
    } else {
        Op::SymbolValue { namespace: 1, index: s.tables.globals[key], addend: 0 }
    };
    let computed = Lowering { ops: s.ops.push(op), ..s };
    let address = at as usize;
    let (after, result) = member_address_spec(s, base, member, location);
    assert(after.ops[at as int] == op);
    assert(ops[at as int] == after.ops[at as int]);
    let m1 = executed(m, ops, at);
    lemma_small_mod(object_address(m, s, key), 0x1_0000_0000);
    assert(m1.values[address] == object_address(m, s, key));
    an_offset_is_added(computed, address, offset, after, result->Ok_0, ops, m1);
    one_step_runs(m, ops, at);
    runs_join(m, ops, at, at + 1, after.ops.len());
}

/// A member that is no object is read at its address, and one that is an
/// object is its address. `m` is the machine after the steps of the address.
pub proof fn a_member_is_read_at_its_address(
    s: Lowering,
    e: Expr,
    base: Expr,
    member: u32,
    m: Machine,
)
    requires
        e.expr matches ExprType::Member(of, name) && *of == base && name == member,
        expr_spec(s, e).1 is Ok,
        expr_spec(s, e).0.ops.len() <= usize::MAX,
    ensures
        ({
            let (computed, address) = member_address_spec(s, base, member, e.location);
            let (after, result) = expr_spec(s, e);
            let end = run(m, after.ops, computed.ops.len(), after.ops.len());
            &&& same_but_values(m, end, computed.ops.len())
            &&& address_valued(e.ctype) ==> result == address
            &&& !address_valued(e.ctype) ==> end.values[result->Ok_0] == object_at(
                m.memory,
                m.values[address->Ok_0] as int,
                bytes_of(type_of(e)),
            )
        }),
{
    assert(expr_spec(s, e) == member_spec(s, e, base, member, type_of(e)));
    reveal_with_fuel(run, 2);
}

/// The address of a named object is where it lies: its slot, or its symbol.
pub proof fn a_name_has_its_address(s: Lowering, lvalue: Expr, key: u32, m: Machine)
    requires
        lvalue.expr matches ExprType::Id(symbol) && symbol.key == key,
        s.stack_locals.contains_key(key) || names_global(s, key),
        object_address(m, s, key) < modulus(IrType::I32),
        lvalue_spec(s, lvalue).1 is Ok,
        lvalue_spec(s, lvalue).0.ops.len() <= usize::MAX,
    ensures
        ({
            let (after, result) = lvalue_spec(s, lvalue);
            let end = run(m, after.ops, s.ops.len(), after.ops.len());
            &&& same_but_values(m, end, s.ops.len())
            &&& end.values[result->Ok_0] == object_address(m, s, key)
        }),
{
    reveal_with_fuel(run, 2);
    lemma_small_mod(object_address(m, s, key), 0x1_0000_0000);
}

/// Taking the address of a local that lives in a variable moves it to a slot:
/// the slot holds what the variable held, its address is the result, and the
/// local lives there from then on.
pub proof fn an_addressed_local_moves_to_a_slot(s: Lowering, lvalue: Expr, key: u32, m: Machine)
    requires
        lvalue.expr matches ExprType::Id(symbol) && symbol.key == key,
        s.variables.contains_key(key),
        !s.stack_locals.contains_key(key),
        !s.vla_bases.contains_key(key),
        lvalue_spec(s, lvalue).0.ops.len() <= usize::MAX,
    ensures
        ({
            let (after, result) = lvalue_spec(s, lvalue);
            let end = run(m, after.ops, s.ops.len(), after.ops.len());
            let variable = s.variables[key];
            let size = bytes_of(variable_type(s, variable));
            let slot = after.stack_locals[key];
            &&& result is Ok
            &&& after.stack_locals.contains_key(key)
            &&& s.ops.len() <= slot < after.ops.len()
            &&& after.ops[slot as int] matches Op::CreateStackSlot { size: of, align_shift } && of
                == size
            &&& end.values[result->Ok_0] == m.slots[slot]
            &&& same_but_memory(m, end, s.ops.len())
            &&& end.memory == written(
                m.memory,
                m.slots[slot] as int,
                m.variables[variable],
                size,
            )
        }),
{
    let (after, result) = lvalue_spec(s, lvalue);
    let at = s.ops.len();
    assert(lvalue_spec(s, lvalue) == local_address_spec(s, key, lvalue.location));
    assert(after.ops.len() == at + 4);
    reveal_with_fuel(run, 5);
    let m1 = executed(m, after.ops, at);
    let m2 = executed(m1, after.ops, at + 1);
    let m3 = executed(m2, after.ops, at + 2);
    let m4 = executed(m3, after.ops, at + 3);
    assert(run(m, after.ops, at, at + 4) == m4);
}

/// The address of an lvalue is what `&` gives of it.
pub proof fn an_address_taken_is_the_address(s: Lowering, e: Expr, value: Expr)
    requires
        e.expr matches ExprType::StaticRef(of) && *of == value,
        !(stripped(value).expr is Deref),
        expr_spec(s, e).1 is Ok,
    ensures
        expr_spec(s, e) == lvalue_spec(s, stripped(value)),
{
    assert(expr_spec(s, e) == static_ref_spec(s, value));
}

/// The object that a pointer points at lies where the pointer says, and
/// conversions around an lvalue do not move it.
pub proof fn a_pointed_object_has_its_address(s: Lowering, lvalue: Expr, inner: Expr)
    ensures
        lvalue.expr matches ExprType::Deref(of) && *of == inner ==> lvalue_spec(s, lvalue)
            == expr_spec(s, inner),
        lvalue.expr matches ExprType::Noop(of) && *of == inner ==> lvalue_spec(s, lvalue)
            == lvalue_spec(s, inner),
        lvalue.expr matches ExprType::Cast(of) && *of == inner ==> lvalue_spec(s, lvalue)
            == lvalue_spec(s, inner),
        lvalue.expr matches ExprType::Binary(BinaryOp::Add, _, _) ==> lvalue_spec(s, lvalue)
            == expr_spec(s, lvalue),
{
}

/// Assigning to a local in a variable leaves in it the number on the right,
/// modulo what its type can hold, and gives that value. `m` is the machine
/// after the steps of the right operand.
pub proof fn an_assignment_defines_the_variable(s: Lowering, e: Expr, key: u32, m: Machine)
    requires
        e.expr is Binary,
        e.expr->Binary_0 == BinaryOp::Assign,
        stripped(*e.expr->Binary_1).expr matches ExprType::Id(symbol) && symbol.key == key,
        !stored_as_object(object_type(*e.expr->Binary_1)),
        expr_spec(s, e).1 is Ok,
        expr_spec(s, e).0.ops.len() <= usize::MAX,
        ({
            let (computed, value) = expr_spec(s, *e.expr->Binary_2);
            &&& holds_integer(m, computed, value->Ok_0)
            &&& computed.variables.contains_key(key)
            &&& computed.variable_types.contains_key(key)
            &&& !computed.variable_types[key].floating()
            &&& !computed.stack_locals.contains_key(key)
        }),
    ensures
        ({
            let (computed, value) = expr_spec(s, *e.expr->Binary_2);
            let (after, result) = expr_spec(s, e);
            let end = run(m, after.ops, computed.ops.len(), after.ops.len());
            let number = number_of(m, computed, value->Ok_0, e.expr->Binary_2.ctype);
            let kept = (number % modulus(computed.variable_types[key]) as int) as nat;
            &&& end.values[result->Ok_0] == kept
            &&& end.variables == m.variables.insert(computed.variables[key], kept)
            &&& end.memory == m.memory
        }),
{
    let right = *e.expr->Binary_2;
    let (computed, value) = expr_spec(s, right);
    let (after, result) = expr_spec(s, e);
    assert(expr_spec(s, e) == assign_spec(s, e));
    let ty = computed.variable_types[key];
    let (s1, kept) = coerced(computed, value->Ok_0, ty, right.ctype);
    assert(after.ops == s1.ops.push(
        Op::DefVar { variable: computed.variables[key], value: kept },
    ));
    a_coercion_keeps_the_number(computed, value->Ok_0, ty, right.ctype, after.ops, m);
    let at = s1.ops.len();
    runs_join(m, after.ops, computed.ops.len(), at, at + 1);
    one_step_runs(run(m, after.ops, computed.ops.len(), at), after.ops, at);
}

/// Assigning to a local in a slot writes the number on the right to the slot,
/// at the width of the local, and gives that value. `m` is the machine after
/// the steps of the right operand.
pub proof fn an_assignment_writes_the_slot(s: Lowering, e: Expr, key: u32, m: Machine)
    requires
        e.expr is Binary,
        e.expr->Binary_0 == BinaryOp::Assign,
        stripped(*e.expr->Binary_1).expr matches ExprType::Id(symbol) && symbol.key == key,
        !stored_as_object(object_type(*e.expr->Binary_1)),
        expr_spec(s, e).1 is Ok,
        expr_spec(s, e).0.ops.len() <= usize::MAX,
        ({
            let (computed, value) = expr_spec(s, *e.expr->Binary_2);
            &&& holds_integer(m, computed, value->Ok_0)
            &&& computed.variable_types.contains_key(key)
            &&& !computed.variable_types[key].floating()
            &&& computed.stack_locals.contains_key(key)
        }),
    ensures
        ({
            let (computed, value) = expr_spec(s, *e.expr->Binary_2);
            let (after, result) = expr_spec(s, e);
            let end = run(m, after.ops, computed.ops.len(), after.ops.len());
            let number = number_of(m, computed, value->Ok_0, e.expr->Binary_2.ctype);
            let ty = computed.variable_types[key];
            let kept = (number % modulus(ty) as int) as nat;
            &&& end.values[result->Ok_0] == kept
            &&& same_but_memory(m, end, computed.ops.len())
            &&& end.memory == written(
                m.memory,
                m.slots[computed.stack_locals[key]] as int,
                kept,
                bytes_of(ty),
            )
        }),
{
    let right = *e.expr->Binary_2;
    let (computed, value) = expr_spec(s, right);
    let (after, result) = expr_spec(s, e);
    assert(expr_spec(s, e) == assign_spec(s, e));
    let ty = computed.variable_types[key];
    let (s1, kept) = coerced(computed, value->Ok_0, ty, right.ctype);
    assert(after.ops == s1.ops.push(
        Op::StackStore { value: kept, slot: computed.stack_locals[key], offset: 0 },
    ));
    a_coercion_keeps_the_number(computed, value->Ok_0, ty, right.ctype, after.ops, m);
    let at = s1.ops.len();
    assert(after.ops[kept as int] == s1.ops[kept as int]);
    runs_join(m, after.ops, computed.ops.len(), at, at + 1);
    one_step_runs(run(m, after.ops, computed.ops.len(), at), after.ops, at);
}

/// A number written to an address.
proof fn a_store_writes(
    s: Lowering,
    value: usize,
    address: usize,
    ty: IrType,
    source: Type,
    ops: Seq<Op>,
    m: Machine,
)
    requires
        holds_integer(m, s, value),
        address < s.ops.len(),
        !ty.floating(),
        ({
            let (s1, kept) = coerced(s, value, ty, source);
            ops == s1.ops.push(Op::Store { value: kept, address, offset: 0 })
        }),
        ops.len() <= usize::MAX,
    ensures
        ({
            let (s1, kept) = coerced(s, value, ty, source);
            let end = run(m, ops, s.ops.len(), ops.len());
            let stored = (number_of(m, s, value, source) % modulus(ty) as int) as nat;
            &&& end.values[kept] == stored
            &&& same_but_memory(m, end, s.ops.len())
            &&& end.memory == written(
                m.memory,
                m.values[address] as int,
                stored,
                bytes_of(ty),
            )
        }),
{
    let (s1, kept) = coerced(s, value, ty, source);
    a_coercion_keeps_the_number(s, value, ty, source, ops, m);
    let at = s1.ops.len();
    assert(ops[kept as int] == s1.ops[kept as int]);
    runs_join(m, ops, s.ops.len(), at, at + 1);
    one_step_runs(run(m, ops, s.ops.len(), at), ops, at);
}

/// Assigning through an address writes the number on the right to the object
/// there, at the width of its type, changes no other byte, and gives that
/// value. `m` is the machine after the steps of the right operand and of the
/// address.
pub proof fn an_assignment_writes_the_object(s: Lowering, e: Expr, ty: IrType, m: Machine)
    requires
        e.expr is Binary,
        e.expr->Binary_0 == BinaryOp::Assign,
        !(stripped(*e.expr->Binary_1).expr is Id),
        !stored_as_object(object_type(*e.expr->Binary_1)),
        ir_type_spec(
            object_type(*e.expr->Binary_1),
            e.expr->Binary_1.location,
        ) == Ok::<IrType, ErrorView>(ty),
        !ty.floating(),
        expr_spec(s, e).1 is Ok,
        expr_spec(s, e).0.ops.len() <= usize::MAX,
        ({
            let (computed, value) = expr_spec(s, *e.expr->Binary_2);
            let (placed, address) = lvalue_spec(computed, stripped(*e.expr->Binary_1));
            &&& holds_integer(m, placed, value->Ok_0)
            &&& address->Ok_0 < placed.ops.len()
        }),
    ensures
        ({
            let (computed, value) = expr_spec(s, *e.expr->Binary_2);
            let (placed, address) = lvalue_spec(computed, stripped(*e.expr->Binary_1));
            let (after, result) = expr_spec(s, e);
            let end = run(m, after.ops, placed.ops.len(), after.ops.len());
            let number = number_of(m, placed, value->Ok_0, e.expr->Binary_2.ctype);
            let stored = (number % modulus(ty) as int) as nat;
            &&& end.values[result->Ok_0] == stored
            &&& same_but_memory(m, end, placed.ops.len())
            &&& end.memory == written(
                m.memory,
                m.values[address->Ok_0] as int,
                stored,
                bytes_of(ty),
            )
        }),
{
    let right = *e.expr->Binary_2;
    let (computed, value) = expr_spec(s, right);
    let (placed, address) = lvalue_spec(computed, stripped(*e.expr->Binary_1));
    let (after, result) = expr_spec(s, e);
    assert(expr_spec(s, e) == assign_spec(s, e));
    a_store_writes(
        placed,
        value->Ok_0,
        address->Ok_0,
        ty,
        right.ctype,
        after.ops,
        m,
    );
}

/// Assigning to an object with static storage writes the number on the right
/// to it. `m` is the machine after the steps of the right operand.
pub proof fn an_assignment_writes_the_global(
    s: Lowering,
    e: Expr,
    key: u32,
    ty: IrType,
    m: Machine,
)
    requires
        e.expr is Binary,
        e.expr->Binary_0 == BinaryOp::Assign,
        stripped(*e.expr->Binary_1).expr matches ExprType::Id(symbol) && symbol.key == key
            && ir_type_spec(*symbol.ctype, e.expr->Binary_1.location) == Ok::<
            IrType,
            ErrorView,
        >(ty),
        !stored_as_object(object_type(*e.expr->Binary_1)),
        !ty.floating(),
        expr_spec(s, e).1 is Ok,
        expr_spec(s, e).0.ops.len() <= usize::MAX,
        ({
            let (computed, value) = expr_spec(s, *e.expr->Binary_2);
            &&& holds_integer(m, computed, value->Ok_0)
            &&& names_global(computed, key)
            &&& global_address(m, computed, key) < modulus(IrType::I32)
        }),
    ensures
        ({
            let (computed, value) = expr_spec(s, *e.expr->Binary_2);
            let (after, result) = expr_spec(s, e);
            let end = run(m, after.ops, computed.ops.len(), after.ops.len());
            let number = number_of(m, computed, value->Ok_0, e.expr->Binary_2.ctype);
            let stored = (number % modulus(ty) as int) as nat;
            &&& end.values[result->Ok_0] == stored
            &&& same_but_memory(m, end, computed.ops.len())
            &&& end.memory == written(
                m.memory,
                global_address(m, computed, key) as int,
                stored,
                bytes_of(ty),
            )
        }),
{
    let right = *e.expr->Binary_2;
    let (computed, value) = expr_spec(s, right);
    let (after, result) = expr_spec(s, e);
    assert(expr_spec(s, e) == assign_spec(s, e));
    let at = computed.ops.len();
    let op = Op::SymbolValue { namespace: 1, index: computed.tables.globals[key], addend: 0 };
    let placed = Lowering { ops: computed.ops.push(op), ..computed };
    let (s1, kept) = coerced(placed, value->Ok_0, ty, right.ctype);
    assert(after.ops == s1.ops.push(Op::Store { value: kept, address: at as usize, offset: 0 }));
    assert(extends(placed.ops, s1.ops));
    assert(after.ops[at as int] == op);
    let m1 = executed(m, after.ops, at);
    lemma_small_mod(global_address(m, computed, key), 0x1_0000_0000);
    assert(m1.values[at as usize] == global_address(m, computed, key));
    assert(placed.ops[value->Ok_0 as int] == computed.ops[value->Ok_0 as int]);
    a_store_writes(placed, value->Ok_0, at as usize, ty, right.ctype, after.ops, m1);
    one_step_runs(m, after.ops, at);
    runs_join(m, after.ops, at, at + 1, after.ops.len());
}

} // verus!
