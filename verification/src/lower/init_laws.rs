//! What lowering a local declaration keeps.

use crate::error::{unsupported, Location};
use crate::hir::{ArrayType, Declaration, Expr, Field, Initializer, Type, TypeKind};
use crate::ir::{BinaryInst, IrType, Op, UnaryInst};
use crate::lower::expr_laws::{
    coercion_is_sound, copy_is_sound, expression_is_lowered_soundly, instruction_is_sound,
    kept_is_transitive,
};
use crate::lower::expr_model::{binary_op, expr_spec};
use crate::lower::init_model::{
    aggregate_at_spec, aggregate_spec, bytes_stored_from, elements_spec, item_spec, local_spec,
    members_spec, rounded_spec, scalar_at_spec, stack_local_spec, string_for_array,
    variable_local_spec, vla_spec, zero_filled_spec, zeroed_from, Done,
};
use crate::lower::laws::{
    base_is_recorded, done_soundly, enters_from, entry_is_sound, kept, made_soundly, slot_before,
    slot_is_recorded, stands_from, state_sound, step_is_sound, value_made, variable_is_recorded,
};
use crate::lower::state::{
    align_shift, align_shift_of, coerced, copied, did, emitted, type_of_value, Lowering,
};
use crate::types::{
    align_or_spec, aligned, array_length, completed_spec, ir_type_spec, object_align, object_size,
    size_or_spec,
};
use vstd::prelude::*;

verus! {

broadcast use {step_is_sound, entry_is_sound};

/// What initializing a local keeps: everything that lowering an expression
/// keeps.
pub open spec fn initialized_soundly(s: Lowering, given: bool, done: Done) -> bool {
    &&& kept(s, done.0)
    &&& state_sound(s) && given && done.0.ops.len() <= usize::MAX ==> state_sound(done.0)
}

/// Whether a declaration goes on only in blocks that it made itself, and leaves
/// the labels and the open switches.
pub open spec fn stays_in_place(before: Lowering, after: Lowering) -> bool {
    &&& enters_from(before.ops.len(), before.ops, after.ops)
    &&& stands_from(before.ops.len(), before, after)
    &&& after.labels == before.labels
    &&& after.switch_cases == before.switch_cases
}

/// Whether the slot was made.
pub open spec fn slot_made(s: Lowering, slot: usize) -> bool {
    slot_before(s.ops, s.ops.len() as int, slot)
}

proof fn scalar_is_sound(
    s: Lowering,
    slot: usize,
    ctype: Type,
    initializer: Initializer,
    offset: u64,
    location: Location,
)
    ensures
        initialized_soundly(
            s,
            slot_made(s, slot),
            scalar_at_spec(s, slot, ctype, initializer, offset, location),
        ),
    decreases initializer,
{
    match initializer {
        Initializer::Scalar(scalar) => {
            expression_is_lowered_soundly(s, scalar.expression);
            if let (s1, Ok(value)) = expr_spec(s, scalar.expression) {
                if let Ok(ty) = ir_type_spec(ctype, location) {
                    coercion_is_sound(s1, value, ty, scalar.expression.ctype);
                    let (s2, _) = coerced(s1, value, ty, scalar.expression.ctype);
                    kept_is_transitive(s, s1, s2);
                }
            }
        },
        Initializer::InitializerList(items) => {
            if items@.len() == 1 {
                scalar_is_sound(s, slot, ctype, items@[0], offset, location);
            }
        },
        _ => {},
    }
}

proof fn item_is_sound(
    s: Lowering,
    slot: usize,
    ctype: Type,
    item: Initializer,
    offset: u64,
    location: Location,
    message: Seq<char>,
)
    ensures
        initialized_soundly(
            s,
            slot_made(s, slot),
            item_spec(s, slot, ctype, item, offset, location, message),
        ),
    decreases item, 1nat,
{
    scalar_is_sound(s, slot, ctype, item, offset, location);
    if item is InitializerList && !ctype.scalar {
        object_is_initialized_soundly(s, slot, ctype, None, item, offset, location);
    }
}

proof fn elements_are_sound(
    s: Lowering,
    slot: usize,
    element: Type,
    element_size: u64,
    items: Seq<Initializer>,
    index: nat,
    base_offset: u64,
    location: Location,
)
    ensures
        initialized_soundly(
            s,
            slot_made(s, slot),
            elements_spec(
                s,
                slot,
                element,
                element_size,
                items,
                index,
                base_offset,
                location,
            ),
        ),
    decreases items, items.len() - index,
{
    if index < items.len() {
        let offset = base_offset.wrapping_add((index as u64).wrapping_mul(element_size));
        let message = "unsupported array initializer element"@;
        item_is_sound(s, slot, element, items[index as int], offset, location, message);
        if let (s1, Ok(_)) = item_spec(
            s,
            slot,
            element,
            items[index as int],
            offset,
            location,
            message,
        ) {
            elements_are_sound(
                s1,
                slot,
                element,
                element_size,
                items,
                index + 1,
                base_offset,
                location,
            );
        }
    }
}

proof fn members_are_sound(
    s: Lowering,
    slot: usize,
    fields: Seq<Field>,
    items: Seq<Initializer>,
    index: nat,
    offset: u64,
    base_offset: u64,
    location: Location,
)
    ensures
        initialized_soundly(
            s,
            slot_made(s, slot),
            members_spec(s, slot, fields, items, index, offset, base_offset, location),
        ),
    decreases items, items.len() - index,
{
    if index < items.len() && index < fields.len() {
        let ctype = fields[index as int].ctype;
        if let Ok(align) = align_or_spec(
            ctype,
            location,
            "struct field has unsupported alignment"@,
        ) {
            let start = aligned(offset, align);
            let message = "unsupported struct initializer element"@;
            let at = base_offset.wrapping_add(start);
            item_is_sound(s, slot, ctype, items[index as int], at, location, message);
            if let (s1, Ok(_)) = item_spec(
                s,
                slot,
                ctype,
                items[index as int],
                at,
                location,
                message,
            ) {
                if let Ok(size) = size_or_spec(
                    ctype,
                    location,
                    "struct field has incomplete type"@,
                ) {
                    members_are_sound(
                        s1,
                        slot,
                        fields,
                        items,
                        index + 1,
                        start.wrapping_add(size),
                        base_offset,
                        location,
                    );
                }
            }
        }
    }
}

proof fn object_is_initialized_soundly(
    s: Lowering,
    slot: usize,
    ctype: Type,
    length: Option<u64>,
    initializer: Initializer,
    base_offset: u64,
    location: Location,
)
    ensures
        initialized_soundly(
            s,
            slot_made(s, slot),
            aggregate_at_spec(s, slot, ctype, length, initializer, base_offset, location),
        ),
    decreases initializer, 0nat,
{
    if let Initializer::InitializerList(items) = initializer {
        match (ctype.kind, array_length(ctype, length)) {
            (TypeKind::Array(element, _), Some(count)) => {
                if let Ok(size) = size_or_spec(
                    *element,
                    location,
                    "array element has incomplete type"@,
                ) {
                    elements_are_sound(
                        s,
                        slot,
                        *element,
                        size,
                        items@,
                        0,
                        base_offset,
                        location,
                    );
                }
            },
            (TypeKind::Union(fields), _) => {
                if items@.len() == 1 && fields@.len() > 0 {
                    item_is_sound(
                        s,
                        slot,
                        fields@[0].ctype,
                        items@[0],
                        base_offset,
                        location,
                        "unsupported union initializer element"@,
                    );
                }
            },
            (TypeKind::Struct(fields), _) => {
                members_are_sound(s, slot, fields@, items@, 0, 0, base_offset, location);
            },
            _ => {},
        }
    }
}

proof fn string_is_stored_soundly(
    s: Lowering,
    slot: usize,
    bytes: Seq<u8>,
    index: nat,
    location: Location,
)
    ensures
        initialized_soundly(
            s,
            slot_made(s, slot),
            bytes_stored_from(s, slot, bytes, index, location),
        ),
    decreases bytes.len() - index,
{
    if index < bytes.len() {
        let (s1, value) = emitted(
            s,
            Op::Iconst { ty: IrType::I8, value: bytes[index as int] as i64 },
        );
        if index <= i32::MAX {
            let s2 = did(s1, Op::StackStore { value, slot, offset: index as i32 });
            assert(kept(s, s2));
            string_is_stored_soundly(s2, slot, bytes, index + 1, location);
        }
    }
}

proof fn zeros_are_sound(
    s: Lowering,
    slot: usize,
    zero: usize,
    offset: u32,
    size: u32,
    location: Location,
)
    ensures
        initialized_soundly(
            s,
            slot_made(s, slot) && value_made(s, zero),
            zeroed_from(s, slot, zero, offset, size, location),
        ),
    decreases size - offset,
{
    if offset < size && offset <= i32::MAX {
        let s1 = did(s, Op::StackStore { value: zero, slot, offset: offset as i32 });
        assert(kept(s, s1));
        zeros_are_sound(s1, slot, zero, (offset + 1) as u32, size, location);
    }
}

proof fn zero_fill_is_sound(
    s: Lowering,
    slot: usize,
    size: u32,
    ctype: Type,
    initializer: Initializer,
    location: Location,
)
    ensures
        initialized_soundly(
            s,
            slot_made(s, slot),
            zero_filled_spec(s, slot, size, ctype, initializer, location),
        ),
{
    let (s1, zero) = emitted(s, Op::Iconst { ty: IrType::I8, value: 0 });
    zeros_are_sound(s1, slot, zero, 0, size, location);
}

proof fn whole_object_is_sound(
    s: Lowering,
    slot: usize,
    ctype: Type,
    length: Option<u64>,
    initializer: Initializer,
    location: Location,
)
    ensures
        initialized_soundly(
            s,
            slot_made(s, slot),
            aggregate_spec(s, slot, ctype, length, initializer, location),
        ),
{
    object_is_initialized_soundly(s, slot, ctype, length, initializer, 0, location);
    if let Initializer::Scalar(scalar) = initializer {
        match string_for_array(ctype, scalar.expression) {
            Some(bytes) => {
                string_is_stored_soundly(s, slot, bytes, 0, location);
            },
            None => {
                let (s1, destination) = emitted(s, Op::StackAddr { slot });
                assert(kept(s, s1));
                expression_is_lowered_soundly(s1, scalar.expression);
                let (s2, source) = expr_spec(s1, scalar.expression);
                kept_is_transitive(s, s1, s2);
                if let Ok(source) = source {
                    copy_is_sound(s2, destination, source, ctype, location);
                    let s3 = copied(s2, destination, source, ctype, location).0;
                    kept_is_transitive(s, s2, s3);
                }
            },
        }
    }
}

proof fn rounding_is_sound(s: Lowering, bytes: usize, alignment: u32)
    ensures
        made_soundly(s, value_made(s, bytes), rounded_spec(s, bytes, alignment)),
{
    if alignment > 1 {
        let (s1, mask) = emitted(
            s,
            Op::Iconst { ty: IrType::I32, value: (alignment - 1) as i64 },
        );
        instruction_is_sound(s1, BinaryInst::Iadd, bytes, mask);
        let (s2, rounded) = binary_op(s1, BinaryInst::Iadd, bytes, mask);
        let (s3, clear_mask) = emitted(
            s2,
            Op::Iconst { ty: IrType::I32, value: !((alignment - 1) as u32) as i64 },
        );
        instruction_is_sound(s3, BinaryInst::Band, rounded, clear_mask);
    }
}

proof fn array_bound_is_sound(s: Lowering, bound: usize, size: u64)
    ensures
        ({
            let (s1, value) = if type_of_value(s, bound) == IrType::I32 {
                (s, bound)
            } else {
                emitted(
                    s,
                    Op::Unary { inst: UnaryInst::Uextend, ty: IrType::I32, value: bound },
                )
            };
            let (s2, scale) = emitted(s1, Op::Iconst { ty: IrType::I32, value: size as i64 });
            made_soundly(
                s,
                value_made(s, bound),
                binary_op(s2, BinaryInst::Imul, value, scale),
            )
        }),
{
}

proof fn variable_array_is_sound(
    s: Lowering,
    key: u32,
    element: Type,
    bound: Expr,
    initialized: bool,
    location: Location,
)
    ensures
        done_soundly(s, true, vla_spec(s, key, element, bound, initialized, location)),
        stays_in_place(s, vla_spec(s, key, element, bound, initialized, location).0),
{
    if let Ok(size) = size_or_spec(element, location, "VLA element type must be complete"@) {
        expression_is_lowered_soundly(s, bound);
        if let (s1, Ok(bound)) = expr_spec(s, bound) {
            array_bound_is_sound(s1, bound, size);
            let (s2, value) = if type_of_value(s1, bound) == IrType::I32 {
                (s1, bound)
            } else {
                emitted(
                    s1,
                    Op::Unary { inst: UnaryInst::Uextend, ty: IrType::I32, value: bound },
                )
            };
            let (s3, scale) = emitted(s2, Op::Iconst { ty: IrType::I32, value: size as i64 });
            let (s4, bytes) = binary_op(s3, BinaryInst::Imul, value, scale);
            kept_is_transitive(s, s1, s4);
            if let Ok(alignment) = align_or_spec(
                element,
                location,
                "VLA element type has unsupported alignment"@,
            ) {
                if alignment <= u32::MAX {
                    rounding_is_sound(s4, bytes, alignment as u32);
                    let (s5, bytes) = rounded_spec(s4, bytes, alignment as u32);
                    kept_is_transitive(s, s4, s5);
                    let (s6, base) = emitted(s5, Op::StackAllocDynamic { bytes });
                    let (s7, variable) = emitted(s6, Op::DeclareVar { ty: IrType::I32 });
                    let s8 = did(s7, Op::DefVar { variable, value: base });
                    assert(kept(s5, s8));
                    kept_is_transitive(s, s5, s8);
                    base_is_recorded(s8, key, variable);
                }
            }
        }
    }
}

proof fn stack_local_is_sound(
    s: Lowering,
    key: u32,
    ctype: Type,
    initializer: Option<Initializer>,
    location: Location,
)
    ensures
        done_soundly(s, true, stack_local_spec(s, key, ctype, initializer, location)),
        stays_in_place(s, stack_local_spec(s, key, ctype, initializer, location).0),
{
    if let Ok(length) = completed_spec(ctype, initializer, location) {
        if let (Ok(size), Ok(align)) = (object_size(ctype, length), object_align(ctype, length)) {
            let (s1, slot) = emitted(
                s,
                Op::CreateStackSlot { size: size as u32, align_shift: align_shift_of(align) },
            );
            slot_is_recorded(s1, key, slot);
            let s2 = Lowering { stack_locals: s1.stack_locals.insert(key, slot), ..s1 };
            if let Some(initializer) = initializer {
                zero_fill_is_sound(s2, slot, size as u32, ctype, initializer, location);
                if let (s3, Ok(_)) = zero_filled_spec(
                    s2,
                    slot,
                    size as u32,
                    ctype,
                    initializer,
                    location,
                ) {
                    whole_object_is_sound(s3, slot, ctype, length, initializer, location);
                }
            }
        }
    }
}

proof fn variable_local_is_sound(
    s: Lowering,
    key: u32,
    ctype: Type,
    initializer: Option<Initializer>,
    location: Location,
)
    ensures
        done_soundly(s, true, variable_local_spec(s, key, ctype, initializer, location)),
        stays_in_place(s, variable_local_spec(s, key, ctype, initializer, location).0),
{
    if let Ok(ty) = ir_type_spec(ctype, location) {
        let (s1, variable) = emitted(s, Op::DeclareVar { ty });
        variable_is_recorded(s1, key, variable, ty);
        let s2 = Lowering {
            variables: s1.variables.insert(key, variable),
            variable_types: s1.variable_types.insert(key, ty),
            ..s1
        };
        if let Some(Initializer::Scalar(scalar)) = initializer {
            expression_is_lowered_soundly(s2, scalar.expression);
            if let (s3, Ok(value)) = expr_spec(s2, scalar.expression) {
                coercion_is_sound(s3, value, ty, scalar.expression.ctype);
                let (s4, _) = coerced(s3, value, ty, scalar.expression.ctype);
                kept_is_transitive(s2, s3, s4);
            }
        }
    }
}

/// Lowering a local declaration keeps the steps so far, the labels, and the
/// open loops and switches, and every step that it adds names only earlier
/// steps of the right kind.
pub proof fn local_is_lowered_soundly(s: Lowering, declaration: Declaration)
    ensures
        done_soundly(s, true, local_spec(s, declaration)),
        stays_in_place(s, local_spec(s, declaration).0),
{
    let symbol = declaration.symbol;
    let ctype = *symbol.ctype;
    match ctype.kind {
        TypeKind::Array(element, ArrayType::Variable(bound)) => {
            variable_array_is_sound(
                s,
                symbol.key,
                *element,
                *bound,
                declaration.init is Some,
                declaration.location,
            );
        },
        _ => {
            stack_local_is_sound(s, symbol.key, ctype, declaration.init, declaration.location);
            variable_local_is_sound(s, symbol.key, ctype, declaration.init, declaration.location);
        },
    }
}

} // verus!
