//! What copies of whole objects do when their steps run.

use crate::bundle::decode::le_value;
use crate::bundle::encode::le_bytes;
use crate::error::Location;
use crate::hir::{BinaryOp, Declaration, Expr, Initializer, StorageClass, Symbol, Type};
use crate::ir::{IrType, Op};
use crate::lower::expr_laws::{copy_is_sound, expression_is_lowered_soundly};
use crate::lower::expr_model::{assign_spec, expr_spec, lvalue_spec, object_type, passed_spec};
use crate::lower::function::bound_spec;
use crate::lower::function_laws::{a_copy_is_byte_for_byte, copies_byte};
use crate::lower::init_model::{local_spec, stack_local_spec};
use crate::lower::laws::extends;
use crate::lower::machine::{executed, object_at, run, written, Machine};
use crate::lower::state::{
    aggregate_slot_spec, align_shift_of, copied, copied_from, did, emitted, Lowering,
};
use crate::lower::stmt_model::return_spec;
use crate::lower::value_laws::{one_step_runs, runs_join};
use crate::types::{by_value_aggregate, size_spec, stored_as_object, stripped};
use vstd::prelude::*;

verus! {

/// Whether two ranges of memory are the same or have no byte in common.
pub open spec fn apart(left: int, right: int, size: int) -> bool {
    left + size <= right || right + size <= left || left == right
}

/// Memory in which `size` bytes from `to` on are what those from `from` on
/// were, and every other byte is as it was.
pub open spec fn is_copy(
    before: spec_fn(int) -> u8,
    after: spec_fn(int) -> u8,
    to: int,
    from: int,
    size: int,
) -> bool {
    &&& forall|i: int| 0 <= i < size ==> #[trigger] after(to + i) == before(from + i)
    &&& forall|at: int| !(to <= at < to + size) ==> #[trigger] after(at) == before(at)
}

/// Whether a machine is what another was but for memory and for values that
/// steps from `at` on made.
pub open spec fn same_but_memory(before: Machine, after: Machine, at: nat) -> bool {
    &&& after.variables == before.variables
    &&& after.slots == before.slots
    &&& after.symbols == before.symbols
    &&& forall|value: usize| value < at ==> #[trigger] after.values[value] == before.values[value]
}

proof fn one_byte_is_its_value(memory: spec_fn(int) -> u8, at: int)
    ensures
        object_at(memory, at, 1) == memory(at) as nat,
        le_bytes(memory(at) as nat, 1).len() == 1,
        le_bytes(memory(at) as nat, 1)[0] == memory(at),
{
    reveal_with_fuel(le_value, 2);
    reveal_with_fuel(le_bytes, 2);
    let bytes = Seq::new(1, |i: int| memory(at + i));
    assert(bytes[0] == memory(at));
    assert(bytes.drop_first() =~= Seq::<u8>::empty());
}

proof fn bytes_are_copied(
    ops: Seq<Op>,
    at: nat,
    destination: usize,
    source: usize,
    from: int,
    size: int,
    m: Machine,
)
    requires
        0 <= from <= size,
        size <= i32::MAX,
        at + 2 * (size - from) <= ops.len() <= usize::MAX,
        destination < at,
        source < at,
        forall|i: int|
            from <= i < size ==> copies_byte(
                ops,
                #[trigger] (at + 2 * (i - from)),
                destination,
                source,
                i,
            ),
        apart(m.values[destination] as int, m.values[source] as int, size),
    ensures
        ({
            let end = run(m, ops, at, (at + 2 * (size - from)) as nat);
            let to = m.values[destination] as int;
            let origin = m.values[source] as int;
            &&& same_but_memory(m, end, at)
            &&& forall|a: int|
                #[trigger] (end.memory)(a) == if to + from <= a < to + size {
                    (m.memory)(origin + (a - to))
                } else {
                    (m.memory)(a)
                }
        }),
    decreases size - from,
{
    if from < size {
        let to = m.values[destination] as int;
        let origin = m.values[source] as int;
        assert(copies_byte(ops, at + 2 * (from - from), destination, source, from));
        let m1 = executed(m, ops, at);
        let m2 = executed(m1, ops, at + 1);
        let byte = (m.memory)(origin + from);
        one_byte_is_its_value(m.memory, origin + from);
        assert(m1.values[at as usize] == byte as nat);
        assert((m1.values)[destination] == to);
        assert(m2.memory == written(m.memory, to + from, byte as nat, 1));
        assert forall|i: int| from + 1 <= i < size implies copies_byte(
            ops,
            #[trigger] (at + 2 + 2 * (i - (from + 1))),
            destination,
            source,
            i,
        ) by {
            assert(at + 2 * (i - from) == at + 2 + 2 * (i - (from + 1)));
        }
        bytes_are_copied(ops, at + 2, destination, source, from + 1, size, m2);
        reveal_with_fuel(run, 3);
        runs_join(m, ops, at, at + 2, (at + 2 * (size - from)) as nat);
        assert(run(m, ops, at, at + 2) == m2);
        let end = run(m, ops, at, (at + 2 * (size - from)) as nat);
        assert forall|a: int| #[trigger] (end.memory)(a) == (if to + from <= a < to + size {
            (m.memory)(origin + (a - to))
        } else {
            (m.memory)(a)
        }) by {
            if to + from + 1 <= a < to + size {
                let b = origin + (a - to);
                assert((end.memory)(a) == (m2.memory)(b));
                assert((m2.memory)(b) == if b == to + from {
                    byte
                } else {
                    (m.memory)(b)
                });
            } else {
                assert((end.memory)(a) == (m2.memory)(a));
            }
        }
    }
}

/// A copy leaves the bytes of the source in the destination, and changes no
/// other byte.
pub proof fn a_copy_copies(
    s: Lowering,
    destination: usize,
    source: usize,
    ctype: Type,
    location: Location,
    ops: Seq<Op>,
    m: Machine,
)
    requires
        copied(s, destination, source, ctype, location).1 is Ok,
        extends(copied(s, destination, source, ctype, location).0.ops, ops),
        ops.len() <= usize::MAX,
        destination < s.ops.len(),
        source < s.ops.len(),
        apart(
            m.values[destination] as int,
            m.values[source] as int,
            ctype.size->Ok_0 as int,
        ),
    ensures
        ({
            let after = copied(s, destination, source, ctype, location).0;
            let end = run(m, ops, s.ops.len(), after.ops.len());
            &&& ctype.size is Ok
            &&& extends(s.ops, after.ops)
            &&& same_but_memory(m, end, s.ops.len())
            &&& is_copy(
                m.memory,
                end.memory,
                m.values[destination] as int,
                m.values[source] as int,
                ctype.size->Ok_0 as int,
            )
        }),
{
    let size = ctype.size->Ok_0 as i32;
    let after = copied(s, destination, source, ctype, location).0;
    a_copy_is_byte_for_byte(s, destination, source, 0, size);
    let at = s.ops.len();
    assert forall|i: int| 0 <= i < size implies copies_byte(
        ops,
        #[trigger] (at + 2 * (i - 0)),
        destination,
        source,
        i,
    ) by {
        let k = at + 2 * i;
        assert(copies_byte(after.ops, s.ops.len() + 2 * i, destination, source, 0 + i));
        assert(after.ops[k] == ops[k]);
        assert(after.ops[k + 1] == ops[k + 1]);
    }
    bytes_are_copied(ops, at, destination, source, 0, size as int, m);
    let end = run(m, ops, at, after.ops.len());
    let to = m.values[destination] as int;
    let from = m.values[source] as int;
    assert forall|i: int| 0 <= i < size implies #[trigger] (end.memory)(to + i) == (m.memory)(
        from + i,
    ) by {}
}

/// The state in which the expression that initializes a struct or union is
/// lowered: a slot was made for the object, and its address taken.
pub open spec fn object_opened(s: Lowering, key: u32, size: u64, align: u64) -> Lowering {
    let (s, slot) = emitted(
        s,
        Op::CreateStackSlot { size: size as u32, align_shift: align_shift_of(align) },
    );
    let s = Lowering { stack_locals: s.stack_locals.insert(key, slot), ..s };
    did(s, Op::StackAddr { slot })
}

/// A struct or union that is declared with an expression of its type holds
/// what the object that the expression stands for holds: a slot is made for
/// it, every byte of the slot becomes the byte at the same place of that
/// object, and no other byte changes.
///
/// `m` is the machine after the steps of the expression, in which the step
/// that took the address of the slot has run.
pub proof fn a_declared_object_is_a_copy(
    s: Lowering,
    declaration: Declaration,
    expression: Expr,
    m: Machine,
)
    requires
        declaration.symbol.storage_class == StorageClass::Auto,
        by_value_aggregate(*declaration.symbol.ctype),
        declaration.init matches Some(Initializer::Scalar(scalar)) && scalar.expression
            == expression,
        local_spec(s, declaration).1 is Ok,
        local_spec(s, declaration).0.ops.len() <= usize::MAX,
        ({
            let ctype = *declaration.symbol.ctype;
            let opened = object_opened(
                s,
                declaration.symbol.key,
                ctype.size->Ok_0,
                ctype.align->Ok_0,
            );
            let (computed, source) = expr_spec(opened, expression);
            let slot = s.ops.len() as usize;
            &&& source->Ok_0 < computed.ops.len()
            &&& m.values[(s.ops.len() + 1) as usize] == m.slots[slot]
            &&& apart(
                m.slots[slot] as int,
                m.values[source->Ok_0] as int,
                ctype.size->Ok_0 as int,
            )
        }),
    ensures
        ({
            let ctype = *declaration.symbol.ctype;
            let key = declaration.symbol.key;
            let opened = object_opened(s, key, ctype.size->Ok_0, ctype.align->Ok_0);
            let (computed, source) = expr_spec(opened, expression);
            let after = local_spec(s, declaration).0;
            let slot = s.ops.len() as usize;
            let end = run(m, after.ops, computed.ops.len(), after.ops.len());
            &&& after.stack_locals.contains_key(key)
            &&& after.stack_locals[key] == slot
            &&& after.ops[slot as int] matches Op::CreateStackSlot { size, align_shift } && size
                == ctype.size->Ok_0
            &&& after.ops[slot + 1] == (Op::StackAddr { slot })
            &&& same_but_memory(m, end, computed.ops.len())
            &&& is_copy(
                m.memory,
                end.memory,
                m.slots[slot] as int,
                m.values[source->Ok_0] as int,
                ctype.size->Ok_0 as int,
            )
        }),
{
    let ctype = *declaration.symbol.ctype;
    let key = declaration.symbol.key;
    let location = declaration.location;
    let opened = object_opened(s, key, ctype.size->Ok_0, ctype.align->Ok_0);
    let (computed, source) = expr_spec(opened, expression);
    let after = local_spec(s, declaration).0;
    let slot = s.ops.len() as usize;
    let destination = (s.ops.len() + 1) as usize;
    assert(local_spec(s, declaration) == stack_local_spec(
        s,
        key,
        ctype,
        declaration.init,
        location,
    ));
    expression_is_lowered_soundly(opened, expression);
    assert(local_spec(s, declaration) == copied(
        computed,
        destination,
        source->Ok_0,
        ctype,
        location,
    ));
    a_copy_copies(computed, destination, source->Ok_0, ctype, location, after.ops, m);
    assert(computed.ops[slot as int] == opened.ops[slot as int]);
    assert(computed.ops[slot + 1] == opened.ops[slot + 1]);
    copying_keeps_the_slots(computed, destination, source->Ok_0, ctype, location);
    assert(s.ops.len() + 1 < opened.ops.len());
    assert(opened.ops.len() <= computed.ops.len());
    assert(slot == s.ops.len());
    assert(after.ops[slot as int] == computed.ops[slot as int]);
    assert(after.ops[slot + 1] == computed.ops[slot + 1]);
    assert(opened.stack_locals.contains_key(key));
    assert(computed.stack_locals.contains_key(key));
    assert(after.stack_locals == computed.stack_locals);
}

proof fn copying_keeps_the_slots(
    s: Lowering,
    destination: usize,
    source: usize,
    ctype: Type,
    location: Location,
)
    ensures
        copied(s, destination, source, ctype, location).0.stack_locals == s.stack_locals,
{
    copy_is_sound(s, destination, source, ctype, location);
    if let Ok(size) = size_spec(ctype, location) {
        if size <= i32::MAX {
            bytes_keep_the_slots(s, destination, source, 0, size as i32);
        }
    }
}

proof fn bytes_keep_the_slots(
    s: Lowering,
    destination: usize,
    source: usize,
    offset: i32,
    size: i32,
)
    ensures
        copied_from(s, destination, source, offset, size).stack_locals == s.stack_locals,
    decreases size - offset,
{
    if 0 <= offset < size {
        let (s1, value) = emitted(s, Op::Load { ty: IrType::I8, address: source, offset });
        let s2 = did(s1, Op::Store { value, address: destination, offset });
        bytes_keep_the_slots(s2, destination, source, (offset + 1) as i32, size);
    }
}

/// An assignment of an object copies the object on the right over the one on
/// the left, byte for byte. `m` is the machine after the steps of both.
pub proof fn an_object_assignment_copies(s: Lowering, e: Expr, m: Machine)
    requires
        e.expr is Binary,
        e.expr->Binary_0 == BinaryOp::Assign,
        stored_as_object(object_type(*e.expr->Binary_1)),
        expr_spec(s, e).1 is Ok,
        expr_spec(s, e).0.ops.len() <= usize::MAX,
        ({
            let target = stripped(*e.expr->Binary_1);
            let (placed, destination) = lvalue_spec(s, target);
            let (computed, source) = expr_spec(placed, *e.expr->Binary_2);
            &&& destination->Ok_0 < computed.ops.len()
            &&& source->Ok_0 < computed.ops.len()
            &&& apart(
                m.values[destination->Ok_0] as int,
                m.values[source->Ok_0] as int,
                target.ctype.size->Ok_0 as int,
            )
        }),
    ensures
        ({
            let target = stripped(*e.expr->Binary_1);
            let (placed, destination) = lvalue_spec(s, target);
            let (computed, source) = expr_spec(placed, *e.expr->Binary_2);
            let (after, result) = expr_spec(s, e);
            let end = run(m, after.ops, computed.ops.len(), after.ops.len());
            &&& result->Ok_0 == destination->Ok_0
            &&& same_but_memory(m, end, computed.ops.len())
            &&& is_copy(
                m.memory,
                end.memory,
                m.values[destination->Ok_0] as int,
                m.values[source->Ok_0] as int,
                target.ctype.size->Ok_0 as int,
            )
        }),
{
    let target = stripped(*e.expr->Binary_1);
    let (placed, destination) = lvalue_spec(s, target);
    let (computed, source) = expr_spec(placed, *e.expr->Binary_2);
    assert(expr_spec(s, e) == assign_spec(s, e));
    let (after, result) = expr_spec(s, e);
    a_copy_copies(
        computed,
        destination->Ok_0,
        source->Ok_0,
        target.ctype,
        e.location,
        after.ops,
        m,
    );
}

/// A function that returns an object leaves it where the caller said. `m` is
/// the machine after the steps of the returned expression.
pub proof fn a_returned_object_is_copied(
    s: Lowering,
    expression: Expr,
    destination: usize,
    location: Location,
    m: Machine,
)
    requires
        s.aggregate_return_address == Some(destination),
        return_spec(s, Some(expression), location).1 is Ok,
        return_spec(s, Some(expression), location).0.ops.len() <= usize::MAX,
        ({
            let (computed, source) = expr_spec(s, expression);
            &&& destination < computed.ops.len()
            &&& source->Ok_0 < computed.ops.len()
            &&& apart(
                m.values[destination] as int,
                m.values[source->Ok_0] as int,
                expression.ctype.size->Ok_0 as int,
            )
        }),
    ensures
        ({
            let (computed, source) = expr_spec(s, expression);
            let after = return_spec(s, Some(expression), location).0;
            let end = run(m, after.ops, computed.ops.len(), after.ops.len());
            &&& same_but_memory(m, end, computed.ops.len())
            &&& after.ops.last() == Op::Return
            &&& after.terminated
            &&& is_copy(
                m.memory,
                end.memory,
                m.values[destination] as int,
                m.values[source->Ok_0] as int,
                expression.ctype.size->Ok_0 as int,
            )
        }),
{
    let (computed, source) = expr_spec(s, expression);
    let after = return_spec(s, Some(expression), location).0;
    let filled = copied(computed, destination, source->Ok_0, expression.ctype, location).0;
    assert(after.ops == filled.ops.push(Op::Return));
    a_copy_copies(
        computed,
        destination,
        source->Ok_0,
        expression.ctype,
        location,
        after.ops,
        m,
    );
    let at = filled.ops.len();
    runs_join(m, after.ops, computed.ops.len(), at, at + 1);
    one_step_runs(run(m, after.ops, computed.ops.len(), at), after.ops, at);
}

/// An object that is passed by value is copied to a slot of its own, whose
/// address is passed. `m` is the machine after the steps of the argument.
pub proof fn a_passed_object_is_copied(
    s: Lowering,
    value: usize,
    ctype: Type,
    parameter: Type,
    location: Location,
    m: Machine,
)
    requires
        by_value_aggregate(parameter),
        passed_spec(s, value, ctype, Some(parameter), location).1 is Ok,
        passed_spec(s, value, ctype, Some(parameter), location).0.ops.len() <= usize::MAX,
        value < s.ops.len(),
        apart(
            m.slots[s.ops.len() as usize] as int,
            m.values[value] as int,
            parameter.size->Ok_0 as int,
        ),
    ensures
        ({
            let (after, passed) = passed_spec(s, value, ctype, Some(parameter), location);
            let end = run(m, after.ops, s.ops.len(), after.ops.len());
            let slot = s.ops.len() as usize;
            &&& after.ops[slot as int] matches Op::CreateStackSlot { size, align_shift } && size
                == parameter.size->Ok_0
            &&& end.values[passed->Ok_0] == m.slots[slot]
            &&& same_but_memory(m, end, s.ops.len())
            &&& is_copy(
                m.memory,
                end.memory,
                m.slots[slot] as int,
                m.values[value] as int,
                parameter.size->Ok_0 as int,
            )
        }),
{
    let (after, passed) = passed_spec(s, value, ctype, Some(parameter), location);
    let (opened, result) = aggregate_slot_spec(s, parameter, location);
    let (slot, address) = result->Ok_0;
    assert(after == copied(opened, address, value, parameter, location).0);
    let at = s.ops.len();
    let m1 = executed(m, after.ops, at);
    let m2 = executed(m1, after.ops, at + 1);
    a_copy_is_byte_for_byte(opened, address, value, 0, parameter.size->Ok_0 as i32);
    assert(after.ops[at as int] == opened.ops[at as int]);
    assert(after.ops[at as int + 1] == opened.ops[at as int + 1]);
    assert(m2.values[address] == m.slots[slot]);
    a_copy_copies(opened, address, value, parameter, location, after.ops, m2);
    reveal_with_fuel(run, 3);
    assert(run(m, after.ops, at, at + 2) == m2);
    runs_join(m, after.ops, at, at + 2, after.ops.len());
}

/// A parameter that is an object is copied to a slot of its own when the
/// function starts.
pub proof fn an_object_parameter_is_a_copy(
    s: Lowering,
    parameter: Symbol,
    value: usize,
    location: Location,
    m: Machine,
)
    requires
        by_value_aggregate(*parameter.ctype),
        bound_spec(s, parameter, value, location).1 is Ok,
        bound_spec(s, parameter, value, location).0.ops.len() <= usize::MAX,
        value < s.ops.len(),
        apart(
            m.slots[s.ops.len() as usize] as int,
            m.values[value] as int,
            parameter.ctype.size->Ok_0 as int,
        ),
    ensures
        ({
            let after = bound_spec(s, parameter, value, location).0;
            let end = run(m, after.ops, s.ops.len(), after.ops.len());
            let slot = s.ops.len() as usize;
            &&& after.stack_locals.contains_key(parameter.key)
            &&& after.stack_locals[parameter.key] == slot
            &&& same_but_memory(m, end, s.ops.len())
            &&& is_copy(
                m.memory,
                end.memory,
                m.slots[slot] as int,
                m.values[value] as int,
                parameter.ctype.size->Ok_0 as int,
            )
        }),
{
    let ctype = *parameter.ctype;
    let after = bound_spec(s, parameter, value, location).0;
    let (opened, result) = aggregate_slot_spec(s, ctype, location);
    let (slot, address) = result->Ok_0;
    let filled = copied(opened, address, value, ctype, location).0;
    assert(after.ops == filled.ops);
    let at = s.ops.len();
    let m1 = executed(m, after.ops, at);
    let m2 = executed(m1, after.ops, at + 1);
    a_copy_is_byte_for_byte(opened, address, value, 0, ctype.size->Ok_0 as i32);
    assert(after.ops[at as int] == opened.ops[at as int]);
    assert(after.ops[at as int + 1] == opened.ops[at as int + 1]);
    assert(m2.values[address] == m.slots[slot]);
    a_copy_copies(opened, address, value, ctype, location, after.ops, m2);
    reveal_with_fuel(run, 3);
    assert(run(m, after.ops, at, at + 2) == m2);
    runs_join(m, after.ops, at, at + 2, after.ops.len());
}

} // verus!
