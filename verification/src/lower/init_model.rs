//! The steps that initialize locals.

use crate::error::{unsupported_view, ErrorView, Location};
use crate::hir::{
    ArrayType, Declaration, Expr, ExprType, Field, Initializer, LiteralValue, StorageClass, Type,
    TypeKind,
};
use crate::ir::{BinaryInst, IrType, Op, UnaryInst};
use crate::lower::expr_model::{binary_op, expr_spec};
use crate::lower::state::{align_shift_of, coerced, copied, did, emitted, type_of_value, Lowering};
use crate::types::{
    align_or_spec, aligned, array_length, by_value_aggregate, completed_spec, ir_type_spec,
    object_align, object_size, size_or_spec, stored_as_object,
};
use vstd::prelude::*;

verus! {

/// What lowering a construct without a value leads to: the state, and whether
/// it failed.
pub type Done = (Lowering, Result<(), ErrorView>);

/// A scalar at `offset` in the slot. A gap leaves the slot as it is.
pub open spec fn scalar_at_spec(
    s: Lowering,
    slot: usize,
    ctype: Type,
    initializer: Initializer,
    offset: u64,
    location: Location,
) -> Done
    decreases initializer,
{
    match initializer {
        Initializer::Scalar(scalar) => match expr_spec(s, scalar.expression) {
            (s, Err(error)) => (s, Err(error)),
            (s, Ok(value)) => match ir_type_spec(ctype, location) {
                Err(error) => (s, Err(error)),
                Ok(ty) => {
                    let (s, value) = coerced(s, value, ty, scalar.expression.ctype);
                    if offset > i32::MAX {
                        (
                            s,
                            Err(
                                unsupported_view(
                                    location,
                                    "aggregate initializer offset is too large"@,
                                ),
                            ),
                        )
                    } else {
                        (did(s, Op::StackStore { value, slot, offset: offset as i32 }), Ok(()))
                    }
                },
            },
        },
        Initializer::InitializerList(items) => if items@.len() == 1 {
            scalar_at_spec(s, slot, ctype, items@[0], offset, location)
        } else {
            (
                s,
                Err(
                    unsupported_view(
                        location,
                        "scalar aggregate initializer must contain exactly one element"@,
                    ),
                ),
            )
        },
        Initializer::Zero => (s, Ok(())),
        Initializer::FunctionBody(_) => (
            s,
            Err(
                unsupported_view(
                    location,
                    "function body cannot initialize an aggregate scalar element"@,
                ),
            ),
        ),
    }
}

/// One element or member at `offset` in the slot; `message` says that its
/// initializer has no supported form.
pub open spec fn item_spec(
    s: Lowering,
    slot: usize,
    ctype: Type,
    item: Initializer,
    offset: u64,
    location: Location,
    message: Seq<char>,
) -> Done
    decreases item, 1nat,
{
    match item {
        Initializer::Scalar(_) => if ctype.scalar {
            scalar_at_spec(s, slot, ctype, item, offset, location)
        } else {
            (s, Err(unsupported_view(location, message)))
        },
        Initializer::InitializerList(_) => if ctype.scalar {
            scalar_at_spec(s, slot, ctype, item, offset, location)
        } else {
            aggregate_at_spec(s, slot, ctype, None, item, offset, location)
        },
        Initializer::Zero => (s, Ok(())),
        Initializer::FunctionBody(_) => (s, Err(unsupported_view(location, message))),
    }
}

/// The elements of an array from `index` on.
pub open spec fn elements_spec(
    s: Lowering,
    slot: usize,
    element: Type,
    element_size: u64,
    items: Seq<Initializer>,
    index: nat,
    base_offset: u64,
    location: Location,
) -> Done
    decreases items, items.len() - index,
{
    if index >= items.len() {
        (s, Ok(()))
    } else {
        let offset = base_offset.wrapping_add((index as u64).wrapping_mul(element_size));
        match item_spec(
            s,
            slot,
            element,
            items[index as int],
            offset,
            location,
            "unsupported array initializer element"@,
        ) {
            (s, Err(error)) => (s, Err(error)),
            (s, Ok(_)) => elements_spec(
                s,
                slot,
                element,
                element_size,
                items,
                index + 1,
                base_offset,
                location,
            ),
        }
    }
}

/// The members of a struct from `index` on, the next free byte being at
/// `offset` in the struct.
pub open spec fn members_spec(
    s: Lowering,
    slot: usize,
    fields: Seq<Field>,
    items: Seq<Initializer>,
    index: nat,
    offset: u64,
    base_offset: u64,
    location: Location,
) -> Done
    decreases items, items.len() - index,
{
    if index >= items.len() || index >= fields.len() {
        (s, Ok(()))
    } else {
        let ctype = fields[index as int].ctype;
        match align_or_spec(ctype, location, "struct field has unsupported alignment"@) {
            Err(error) => (s, Err(error)),
            Ok(align) => {
                let start = aligned(offset, align);
                match item_spec(
                    s,
                    slot,
                    ctype,
                    items[index as int],
                    base_offset.wrapping_add(start),
                    location,
                    "unsupported struct initializer element"@,
                ) {
                    (s, Err(error)) => (s, Err(error)),
                    (s, Ok(_)) => match size_or_spec(
                        ctype,
                        location,
                        "struct field has incomplete type"@,
                    ) {
                        Err(error) => (s, Err(error)),
                        Ok(size) => members_spec(
                            s,
                            slot,
                            fields,
                            items,
                            index + 1,
                            start.wrapping_add(size),
                            base_offset,
                            location,
                        ),
                    },
                }
            },
        }
    }
}

/// An object at `base_offset` in the slot. An array's missing bound is
/// `length`.
pub open spec fn aggregate_at_spec(
    s: Lowering,
    slot: usize,
    ctype: Type,
    length: Option<u64>,
    initializer: Initializer,
    base_offset: u64,
    location: Location,
) -> Done
    decreases initializer, 0nat,
{
    match initializer {
        Initializer::InitializerList(items) => match (ctype.kind, array_length(ctype, length)) {
            (TypeKind::Array(element, _), Some(count)) => if items@.len() > count {
                (
                    s,
                    Err(
                        unsupported_view(location, "too many elements in local array initializer"@),
                    ),
                )
            } else {
                match size_or_spec(*element, location, "array element has incomplete type"@) {
                    Err(error) => (s, Err(error)),
                    Ok(size) => elements_spec(
                        s,
                        slot,
                        *element,
                        size,
                        items@,
                        0,
                        base_offset,
                        location,
                    ),
                }
            },
            (TypeKind::Union(fields), _) => if items@.len() > 1 {
                (
                    s,
                    Err(
                        unsupported_view(location, "too many elements in local union initializer"@),
                    ),
                )
            } else if items@.len() == 0 {
                (s, Ok(()))
            } else if fields@.len() == 0 {
                (s, Err(unsupported_view(location, "union has no initializable member"@)))
            } else {
                item_spec(
                    s,
                    slot,
                    fields@[0].ctype,
                    items@[0],
                    base_offset,
                    location,
                    "unsupported union initializer element"@,
                )
            },
            (TypeKind::Struct(fields), _) => if items@.len() > fields@.len() {
                (
                    s,
                    Err(
                        unsupported_view(
                            location,
                            "too many elements in local struct initializer"@,
                        ),
                    ),
                )
            } else {
                members_spec(s, slot, fields@, items@, 0, 0, base_offset, location)
            },
            _ => (
                s,
                Err(
                    unsupported_view(
                        location,
                        "this aggregate initializer shape is not supported for SIA32 yet"@,
                    ),
                ),
            ),
        },
        _ => (
            s,
            Err(
                unsupported_view(
                    location,
                    "aggregate local initialization requires an initializer list"@,
                ),
            ),
        ),
    }
}

/// The bytes of a string literal from `index` on, stored one by one.
pub open spec fn bytes_stored_from(
    s: Lowering,
    slot: usize,
    bytes: Seq<u8>,
    index: nat,
    location: Location,
) -> Done
    decreases bytes.len() - index,
{
    if index >= bytes.len() {
        (s, Ok(()))
    } else {
        let (s, value) = emitted(
            s,
            Op::Iconst { ty: IrType::I8, value: bytes[index as int] as i64 },
        );
        if index > i32::MAX {
            (s, Err(unsupported_view(location, "string initializer is too large"@)))
        } else {
            bytes_stored_from(
                did(s, Op::StackStore { value, slot, offset: index as i32 }),
                slot,
                bytes,
                index + 1,
                location,
            )
        }
    }
}

/// The bytes of a string literal that initializes an array of characters.
pub open spec fn string_for_array(ctype: Type, expression: Expr) -> Option<Seq<u8>> {
    match (ctype.kind, expression.expr) {
        (TypeKind::Array(element, _), ExprType::Literal(LiteralValue::Str(bytes))) =>
            if element.kind is Char {
                Some(bytes@)
            } else {
                None
            },
        _ => None,
    }
}

/// An object that fills the slot.
pub open spec fn aggregate_spec(
    s: Lowering,
    slot: usize,
    ctype: Type,
    length: Option<u64>,
    initializer: Initializer,
    location: Location,
) -> Done {
    match initializer {
        Initializer::Scalar(scalar) => match string_for_array(ctype, scalar.expression) {
            Some(bytes) => if object_size(ctype, length) matches Ok(size) && bytes.len() > size {
                (s, Err(unsupported_view(location, "string initializer exceeds array"@)))
            } else {
                bytes_stored_from(s, slot, bytes, 0, location)
            },
            None => if by_value_aggregate(ctype) {
                let (s, destination) = emitted(s, Op::StackAddr { slot });
                match expr_spec(s, scalar.expression) {
                    (s, Err(error)) => (s, Err(error)),
                    (s, Ok(source)) => copied(s, destination, source, ctype, location),
                }
            } else {
                aggregate_at_spec(s, slot, ctype, length, initializer, 0, location)
            },
        },
        _ => aggregate_at_spec(s, slot, ctype, length, initializer, 0, location),
    }
}

/// The bytes of the slot from `offset` on set to `zero`.
pub open spec fn zeroed_from(
    s: Lowering,
    slot: usize,
    zero: usize,
    offset: u32,
    size: u32,
    location: Location,
) -> Done
    decreases size - offset,
{
    if offset >= size {
        (s, Ok(()))
    } else if offset > i32::MAX {
        (s, Err(unsupported_view(location, "aggregate initializer offset is too large"@)))
    } else {
        zeroed_from(
            did(s, Op::StackStore { value: zero, slot, offset: offset as i32 }),
            slot,
            zero,
            (offset + 1) as u32,
            size,
            location,
        )
    }
}

/// A slot of `size` bytes set to zero, so that what an initializer leaves out
/// is zero. An object that is copied whole leaves nothing out.
pub open spec fn zero_filled_spec(
    s: Lowering,
    slot: usize,
    size: u32,
    ctype: Type,
    initializer: Initializer,
    location: Location,
) -> Done {
    if initializer is Scalar && by_value_aggregate(ctype) {
        (s, Ok(()))
    } else {
        let (s, zero) = emitted(s, Op::Iconst { ty: IrType::I8, value: 0 });
        zeroed_from(s, slot, zero, 0, size, location)
    }
}

/// The bytes of an array of variable length, rounded up to its alignment.
pub open spec fn rounded_spec(s: Lowering, bytes: usize, alignment: u32) -> (Lowering, usize) {
    if alignment > 1 {
        let (s, mask) = emitted(
            s,
            Op::Iconst { ty: IrType::I32, value: (alignment - 1) as i64 },
        );
        let (s, rounded) = binary_op(s, BinaryInst::Iadd, bytes, mask);
        let (s, clear_mask) = emitted(
            s,
            Op::Iconst { ty: IrType::I32, value: !((alignment - 1) as u32) as i64 },
        );
        binary_op(s, BinaryInst::Band, rounded, clear_mask)
    } else {
        (s, bytes)
    }
}

/// A local array of variable length: its bytes are taken from the stack when
/// it is declared.
pub open spec fn vla_spec(
    s: Lowering,
    key: u32,
    element: Type,
    bound: Expr,
    initialized: bool,
    location: Location,
) -> Done {
    match size_or_spec(element, location, "VLA element type must be complete"@) {
        Err(error) => (s, Err(error)),
        Ok(size) => match expr_spec(s, bound) {
            (s, Err(error)) => (s, Err(error)),
            (s, Ok(bound)) => {
                let (s, bound) = if type_of_value(s, bound) == IrType::I32 {
                    (s, bound)
                } else {
                    emitted(
                        s,
                        Op::Unary { inst: UnaryInst::Uextend, ty: IrType::I32, value: bound },
                    )
                };
                let (s, scale) = emitted(s, Op::Iconst { ty: IrType::I32, value: size as i64 });
                let (s, bytes) = binary_op(s, BinaryInst::Imul, bound, scale);
                match align_or_spec(
                    element,
                    location,
                    "VLA element type has unsupported alignment"@,
                ) {
                    Err(error) => (s, Err(error)),
                    Ok(alignment) => if alignment > u32::MAX {
                        (
                            s,
                            Err(
                                unsupported_view(
                                    location,
                                    "VLA alignment is too large for SIA32"@,
                                ),
                            ),
                        )
                    } else {
                        let (s, bytes) = rounded_spec(s, bytes, alignment as u32);
                        let (s, base) = emitted(s, Op::StackAllocDynamic { bytes });
                        let (s, variable) = emitted(s, Op::DeclareVar { ty: IrType::I32 });
                        let s = did(s, Op::DefVar { variable, value: base });
                        let s = Lowering { vla_bases: s.vla_bases.insert(key, variable), ..s };
                        if initialized {
                            (
                                s,
                                Err(
                                    unsupported_view(
                                        location,
                                        "VLA initialization is not supported"@,
                                    ),
                                ),
                            )
                        } else {
                            (s, Ok(()))
                        }
                    },
                }
            },
        },
    }
}

/// A local object with a stack slot of its own.
pub open spec fn stack_local_spec(
    s: Lowering,
    key: u32,
    ctype: Type,
    initializer: Option<Initializer>,
    location: Location,
) -> Done {
    match completed_spec(ctype, initializer, location) {
        Err(error) => (s, Err(error)),
        Ok(length) => match object_size(ctype, length) {
            Err(_) => (s, Err(unsupported_view(location, "aggregate local has incomplete type"@))),
            Ok(size) => if size > u32::MAX {
                (s, Err(unsupported_view(location, "aggregate local is too large for SIA32"@)))
            } else {
                match object_align(ctype, length) {
                    Err(_) => (
                        s,
                        Err(
                            unsupported_view(
                                location,
                                "aggregate local has unsupported alignment"@,
                            ),
                        ),
                    ),
                    Ok(align) => {
                        let (s, slot) = emitted(
                            s,
                            Op::CreateStackSlot {
                                size: size as u32,
                                align_shift: align_shift_of(align),
                            },
                        );
                        let s = Lowering { stack_locals: s.stack_locals.insert(key, slot), ..s };
                        match initializer {
                            Some(initializer) => match zero_filled_spec(
                                s,
                                slot,
                                size as u32,
                                ctype,
                                initializer,
                                location,
                            ) {
                                (s, Err(error)) => (s, Err(error)),
                                (s, Ok(_)) => aggregate_spec(
                                    s,
                                    slot,
                                    ctype,
                                    length,
                                    initializer,
                                    location,
                                ),
                            },
                            None => (s, Ok(())),
                        }
                    },
                }
            },
        },
    }
}

/// A local that lives in a variable of its machine type.
pub open spec fn variable_local_spec(
    s: Lowering,
    key: u32,
    ctype: Type,
    initializer: Option<Initializer>,
    location: Location,
) -> Done {
    match ir_type_spec(ctype, location) {
        Err(error) => (s, Err(error)),
        Ok(ty) => {
            let (s, variable) = emitted(s, Op::DeclareVar { ty });
            let s = Lowering {
                variables: s.variables.insert(key, variable),
                variable_types: s.variable_types.insert(key, ty),
                ..s
            };
            match initializer {
                Some(Initializer::Scalar(scalar)) => match expr_spec(s, scalar.expression) {
                    (s, Err(error)) => (s, Err(error)),
                    (s, Ok(value)) => {
                        let (s, value) = coerced(s, value, ty, scalar.expression.ctype);
                        (did(s, Op::DefVar { variable, value }), Ok(()))
                    },
                },
                Some(_) => (
                    s,
                    Err(
                        unsupported_view(
                            location,
                            "aggregate local initialization is not supported for SIA32 yet"@,
                        ),
                    ),
                ),
                None => (s, Ok(())),
            }
        },
    }
}

/// A declaration inside a function. Types and static objects take no steps
/// here.
pub open spec fn local_spec(s: Lowering, declaration: Declaration) -> Done {
    let symbol = declaration.symbol;
    let ctype = *symbol.ctype;
    if symbol.storage_class == StorageClass::Typedef || (symbol.storage_class
        == StorageClass::Static && !(ctype.kind is Function)) {
        (s, Ok(()))
    } else {
        match ctype.kind {
            TypeKind::Array(element, ArrayType::Variable(bound)) => vla_spec(
                s,
                symbol.key,
                *element,
                *bound,
                declaration.init is Some,
                declaration.location,
            ),
            _ => if stored_as_object(ctype) {
                stack_local_spec(s, symbol.key, ctype, declaration.init, declaration.location)
            } else {
                variable_local_spec(s, symbol.key, ctype, declaration.init, declaration.location)
            },
        }
    }
}

} // verus!
