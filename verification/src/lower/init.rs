//! Lowering of local declarations and their initializers.

use crate::error::{outcome, unsupported, Error, Location};
use crate::hir::{
    ArrayType, Declaration, Expr, ExprType, Field, Initializer, LiteralValue, StorageClass, Type,
    TypeKind,
};
use crate::ir::{BinaryInst, IrType, Op, UnaryInst};
use crate::lower::init_model::{
    aggregate_at_spec, aggregate_spec, bytes_stored_from, elements_spec, item_spec, local_spec,
    members_spec, rounded_spec, scalar_at_spec, stack_local_spec, string_for_array,
    variable_local_spec, vla_spec, zero_filled_spec, zeroed_from,
};
use crate::lower::state::{align_shift, FunctionLowerer};
use crate::types::{
    align_of_object, align_or, align_up, array_length, completed_object_type, ir_type,
    is_by_value_aggregate, is_stored_as_object, size_of_object, size_or,
};
use vstd::prelude::*;

verus! {

broadcast use vstd::std_specs::hash::group_hash_axioms;

/// The length of an array whose missing bound is `length`.
pub fn length_of_array(ctype: &Type, length: Option<u64>) -> (result: Option<u64>)
    ensures
        result == array_length(*ctype, length),
{
    match &ctype.kind {
        TypeKind::Array(_, ArrayType::Fixed(count)) => Some(*count),
        TypeKind::Array(_, ArrayType::Unbounded) => length,
        _ => None,
    }
}

/// The bytes of a string literal that initializes an array of characters.
pub fn character_array_string<'a>(ctype: &Type, expression: &'a Expr) -> (result: Option<
    &'a Vec<u8>,
>)
    ensures
        (match result {
            Some(bytes) => string_for_array(*ctype, *expression) == Some(bytes@),
            None => string_for_array(*ctype, *expression) is None,
        }),
{
    if let TypeKind::Array(element, _) = &ctype.kind {
        if matches!(element.kind, TypeKind::Char(_)) {
            if let ExprType::Literal(LiteralValue::Str(bytes)) = &expression.expr {
                return Some(bytes);
            }
        }
    }
    None
}

impl<'c> FunctionLowerer<'c> {
    /// Initializes a scalar at `offset` in the slot.
    pub fn initialize_stack_scalar_at(
        &mut self,
        slot: usize,
        ctype: &Type,
        initializer: &Initializer,
        offset: u64,
        location: Location,
    ) -> (result: Result<(), Error>)
        ensures
            (final(self)@, outcome(result)) == scalar_at_spec(
                old(self)@,
                slot,
                *ctype,
                *initializer,
                offset,
                location,
            ),
        decreases initializer,
    {
        match initializer {
            Initializer::Scalar(scalar) => {
                let value: usize = self.compile_expr(&scalar.expression)?;
                let value_ty = ir_type(ctype, location)?;
                let value: usize = self.coerce_integer_value(
                    value,
                    value_ty,
                    &scalar.expression.ctype,
                );
                if offset > 0x7fff_ffff {
                    return Err(
                        unsupported(location, "aggregate initializer offset is too large"),
                    );
                }
                self.emit(Op::StackStore { value, slot, offset: offset as i32 });
                Ok(())
            },
            Initializer::InitializerList(items) => {
                if items.len() == 1 {
                    self.initialize_stack_scalar_at(slot, ctype, &items[0], offset, location)
                } else {
                    Err(
                        unsupported(
                            location,
                            "scalar aggregate initializer must contain exactly one element",
                        ),
                    )
                }
            },
            Initializer::Zero => Ok(()),
            Initializer::FunctionBody(_) => Err(
                unsupported(
                    location,
                    "function body cannot initialize an aggregate scalar element",
                ),
            ),
        }
    }

    /// Initializes one element or member at `offset` in the slot.
    fn initialize_stack_item_at(
        &mut self,
        slot: usize,
        ctype: &Type,
        item: &Initializer,
        offset: u64,
        location: Location,
        message: &str,
    ) -> (result: Result<(), Error>)
        ensures
            (final(self)@, outcome(result)) == item_spec(
                old(self)@,
                slot,
                *ctype,
                *item,
                offset,
                location,
                message@,
            ),
        decreases item, 1nat,
    {
        match item {
            Initializer::Scalar(_) => {
                if ctype.scalar {
                    self.initialize_stack_scalar_at(slot, ctype, item, offset, location)
                } else {
                    Err(unsupported(location, message))
                }
            },
            Initializer::InitializerList(_) => {
                if ctype.scalar {
                    self.initialize_stack_scalar_at(slot, ctype, item, offset, location)
                } else {
                    self.initialize_stack_aggregate_at(slot, ctype, None, item, offset, location)
                }
            },
            Initializer::Zero => Ok(()),
            Initializer::FunctionBody(_) => Err(unsupported(location, message)),
        }
    }

    /// Initializes the elements of an array.
    fn initialize_stack_elements(
        &mut self,
        slot: usize,
        element: &Type,
        element_size: u64,
        items: &Vec<Initializer>,
        base_offset: u64,
        location: Location,
    ) -> (result: Result<(), Error>)
        ensures
            (final(self)@, outcome(result)) == elements_spec(
                old(self)@,
                slot,
                *element,
                element_size,
                items@,
                0,
                base_offset,
                location,
            ),
        decreases items@, items@.len() + 1,
    {
        let ghost start = self@;
        let mut index: usize = 0;
        while index < items.len()
            invariant
                index <= items@.len(),
                start == old(self)@,
                elements_spec(
                    self@,
                    slot,
                    *element,
                    element_size,
                    items@,
                    index as nat,
                    base_offset,
                    location,
                ) == elements_spec(
                    start,
                    slot,
                    *element,
                    element_size,
                    items@,
                    0,
                    base_offset,
                    location,
                ),
            decreases items@.len() - index,
        {
            let offset: u64 = base_offset.wrapping_add((index as u64).wrapping_mul(element_size));
            self.initialize_stack_item_at(
                slot,
                element,
                &items[index],
                offset,
                location,
                "unsupported array initializer element",
            )?;
            index += 1;
        }
        Ok(())
    }

    /// Initializes the members of a struct.
    fn initialize_stack_members(
        &mut self,
        slot: usize,
        fields: &Vec<Field>,
        items: &Vec<Initializer>,
        base_offset: u64,
        location: Location,
    ) -> (result: Result<(), Error>)
        ensures
            (final(self)@, outcome(result)) == members_spec(
                old(self)@,
                slot,
                fields@,
                items@,
                0,
                0,
                base_offset,
                location,
            ),
        decreases items@, items@.len() + 1,
    {
        let ghost start = self@;
        let mut offset: u64 = 0;
        let mut index: usize = 0;
        while index < items.len() && index < fields.len()
            invariant
                index <= items@.len(),
                start == old(self)@,
                members_spec(
                    self@,
                    slot,
                    fields@,
                    items@,
                    index as nat,
                    offset,
                    base_offset,
                    location,
                ) == members_spec(start, slot, fields@, items@, 0, 0, base_offset, location),
            decreases items@.len() - index,
        {
            let ctype = &fields[index].ctype;
            let align: u64 = align_or(ctype, location, "struct field has unsupported alignment")?;
            offset = align_up(offset, align);
            self.initialize_stack_item_at(
                slot,
                ctype,
                &items[index],
                base_offset.wrapping_add(offset),
                location,
                "unsupported struct initializer element",
            )?;
            let size: u64 = size_or(ctype, location, "struct field has incomplete type")?;
            offset = offset.wrapping_add(size);
            index += 1;
        }
        Ok(())
    }

    /// Initializes an object at `base_offset` in the slot.
    pub fn initialize_stack_aggregate_at(
        &mut self,
        slot: usize,
        ctype: &Type,
        length: Option<u64>,
        initializer: &Initializer,
        base_offset: u64,
        location: Location,
    ) -> (result: Result<(), Error>)
        ensures
            (final(self)@, outcome(result)) == aggregate_at_spec(
                old(self)@,
                slot,
                *ctype,
                length,
                *initializer,
                base_offset,
                location,
            ),
        decreases initializer, 0nat,
    {
        let items = match initializer {
            Initializer::InitializerList(items) => items,
            _ => {
                return Err(
                    unsupported(
                        location,
                        "aggregate local initialization requires an initializer list",
                    ),
                );
            },
        };
        match (&ctype.kind, length_of_array(ctype, length)) {
            (TypeKind::Array(element, _), Some(count)) => {
                if items.len() as u64 > count {
                    return Err(
                        unsupported(location, "too many elements in local array initializer"),
                    );
                }
                let size: u64 = size_or(element, location, "array element has incomplete type")?;
                self.initialize_stack_elements(slot, element, size, items, base_offset, location)
            },
            (TypeKind::Union(fields), _) => {
                if items.len() > 1 {
                    return Err(
                        unsupported(location, "too many elements in local union initializer"),
                    );
                }
                if items.len() == 0 {
                    return Ok(());
                }
                if fields.len() == 0 {
                    return Err(unsupported(location, "union has no initializable member"));
                }
                self.initialize_stack_item_at(
                    slot,
                    &fields[0].ctype,
                    &items[0],
                    base_offset,
                    location,
                    "unsupported union initializer element",
                )
            },
            (TypeKind::Struct(fields), _) => {
                if items.len() > fields.len() {
                    return Err(
                        unsupported(location, "too many elements in local struct initializer"),
                    );
                }
                self.initialize_stack_members(slot, fields, items, base_offset, location)
            },
            _ => Err(
                unsupported(
                    location,
                    "this aggregate initializer shape is not supported for SIA32 yet",
                ),
            ),
        }
    }

    /// Stores the bytes of a string literal.
    fn store_string(&mut self, slot: usize, bytes: &Vec<u8>, location: Location) -> (result: Result<
        (),
        Error,
    >)
        ensures
            (final(self)@, outcome(result)) == bytes_stored_from(
                old(self)@,
                slot,
                bytes@,
                0,
                location,
            ),
    {
        let mut index: usize = 0;
        while index < bytes.len()
            invariant
                index <= bytes@.len(),
                bytes_stored_from(self@, slot, bytes@, index as nat, location)
                    == bytes_stored_from(old(self)@, slot, bytes@, 0, location),
            decreases bytes@.len() - index,
        {
            let value: usize = self.emit(
                Op::Iconst { ty: IrType::I8, value: bytes[index] as i64 },
            );
            if index > 0x7fff_ffff {
                return Err(unsupported(location, "string initializer is too large"));
            }
            self.emit(Op::StackStore { value, slot, offset: index as i32 });
            index += 1;
        }
        Ok(())
    }

    /// Initializes an object that fills the slot.
    pub fn initialize_stack_aggregate(
        &mut self,
        slot: usize,
        ctype: &Type,
        length: Option<u64>,
        initializer: &Initializer,
        location: Location,
    ) -> (result: Result<(), Error>)
        ensures
            (final(self)@, outcome(result)) == aggregate_spec(
                old(self)@,
                slot,
                *ctype,
                length,
                *initializer,
                location,
            ),
    {
        if let Initializer::Scalar(scalar) = initializer {
            if let Some(bytes) = character_array_string(ctype, &scalar.expression) {
                if let Ok(size) = size_of_object(ctype, length) {
                    if bytes.len() as u64 > size {
                        return Err(unsupported(location, "string initializer exceeds array"));
                    }
                }
                return self.store_string(slot, bytes, location);
            }
            if is_by_value_aggregate(ctype) {
                let destination: usize = self.emit(Op::StackAddr { slot });
                let source: usize = self.compile_expr(&scalar.expression)?;
                return self.copy_aggregate_value(destination, source, ctype, location);
            }
        }
        self.initialize_stack_aggregate_at(slot, ctype, length, initializer, 0, location)
    }

    /// Sets a slot to zero before an initializer that may leave parts out.
    fn zero_fill(
        &mut self,
        slot: usize,
        size: u32,
        ctype: &Type,
        initializer: &Initializer,
        location: Location,
    ) -> (result: Result<(), Error>)
        ensures
            (final(self)@, outcome(result)) == zero_filled_spec(
                old(self)@,
                slot,
                size,
                *ctype,
                *initializer,
                location,
            ),
    {
        if matches!(initializer, Initializer::Scalar(_)) && is_by_value_aggregate(ctype) {
            return Ok(());
        }
        let zero: usize = self.emit(Op::Iconst { ty: IrType::I8, value: 0 });
        let ghost start = self@;
        let mut offset: u32 = 0;
        while offset < size
            invariant
                offset <= size,
                zero_filled_spec(old(self)@, slot, size, *ctype, *initializer, location)
                    == zeroed_from(start, slot, zero, 0, size, location),
                zeroed_from(self@, slot, zero, offset, size, location) == zeroed_from(
                    start,
                    slot,
                    zero,
                    0,
                    size,
                    location,
                ),
            decreases size - offset,
        {
            if offset > 0x7fff_ffff {
                return Err(unsupported(location, "aggregate initializer offset is too large"));
            }
            self.emit(Op::StackStore { value: zero, slot, offset: offset as i32 });
            offset += 1;
        }
        Ok(())
    }

    /// Rounds the bytes of an array of variable length up to its alignment.
    fn round_up(&mut self, bytes: usize, alignment: u32) -> (result: usize)
        ensures
            (final(self)@, result) == rounded_spec(old(self)@, bytes, alignment),
    {
        if alignment > 1 {
            let mask: usize = self.emit(
                Op::Iconst { ty: IrType::I32, value: (alignment - 1) as i64 },
            );
            let rounded: usize = self.binary(BinaryInst::Iadd, bytes, mask);
            let clear_mask: usize = self.emit(
                Op::Iconst { ty: IrType::I32, value: !(alignment - 1) as i64 },
            );
            self.binary(BinaryInst::Band, rounded, clear_mask)
        } else {
            bytes
        }
    }

    /// Declares a local array of variable length.
    fn compile_vla(
        &mut self,
        key: u32,
        element: &Type,
        bound: &Expr,
        initialized: bool,
        location: Location,
    ) -> (result: Result<(), Error>)
        ensures
            (final(self)@, outcome(result)) == vla_spec(
                old(self)@,
                key,
                *element,
                *bound,
                initialized,
                location,
            ),
    {
        let element_size: u64 = size_or(element, location, "VLA element type must be complete")?;
        let bound: usize = self.compile_expr(bound)?;
        let bound: usize = if self.value_type(bound) == IrType::I32 {
            bound
        } else {
            self.emit(Op::Unary { inst: UnaryInst::Uextend, ty: IrType::I32, value: bound })
        };
        let scale: usize = self.emit(
            Op::Iconst { ty: IrType::I32, value: #[verifier::truncate] (element_size as i64) },
        );
        let bytes: usize = self.binary(BinaryInst::Imul, bound, scale);
        let alignment: u64 = align_or(
            element,
            location,
            "VLA element type has unsupported alignment",
        )?;
        if alignment > 0xffff_ffff {
            return Err(unsupported(location, "VLA alignment is too large for SIA32"));
        }
        let bytes: usize = self.round_up(bytes, alignment as u32);
        let base: usize = self.emit(Op::StackAllocDynamic { bytes });
        let variable: usize = self.emit(Op::DeclareVar { ty: IrType::I32 });
        self.emit(Op::DefVar { variable, value: base });
        self.vla_bases.insert(key, variable);
        if initialized {
            return Err(unsupported(location, "VLA initialization is not supported"));
        }
        Ok(())
    }

    /// Declares a local object with a stack slot of its own.
    fn compile_stack_local(
        &mut self,
        key: u32,
        ctype: &Type,
        initializer: &Option<Initializer>,
        location: Location,
    ) -> (result: Result<(), Error>)
        ensures
            (final(self)@, outcome(result)) == stack_local_spec(
                old(self)@,
                key,
                *ctype,
                *initializer,
                location,
            ),
    {
        let length = completed_object_type(ctype, initializer, location)?;
        let size: u64 = match size_of_object(ctype, length) {
            Ok(size) => size,
            Err(_) => {
                return Err(unsupported(location, "aggregate local has incomplete type"));
            },
        };
        if size > 0xffff_ffff {
            return Err(unsupported(location, "aggregate local is too large for SIA32"));
        }
        let align: u64 = match align_of_object(ctype, length) {
            Ok(align) => align,
            Err(_) => {
                return Err(unsupported(location, "aggregate local has unsupported alignment"));
            },
        };
        let slot: usize = self.emit(
            Op::CreateStackSlot { size: size as u32, align_shift: align_shift(align) },
        );
        self.stack_locals.insert(key, slot);
        match initializer {
            Some(initializer) => {
                self.zero_fill(slot, size as u32, ctype, initializer, location)?;
                self.initialize_stack_aggregate(slot, ctype, length, initializer, location)
            },
            None => Ok(()),
        }
    }

    /// Declares a local that lives in a variable.
    fn compile_variable_local(
        &mut self,
        key: u32,
        ctype: &Type,
        initializer: &Option<Initializer>,
        location: Location,
    ) -> (result: Result<(), Error>)
        ensures
            (final(self)@, outcome(result)) == variable_local_spec(
                old(self)@,
                key,
                *ctype,
                *initializer,
                location,
            ),
    {
        let ty = ir_type(ctype, location)?;
        let variable: usize = self.emit(Op::DeclareVar { ty });
        self.variables.insert(key, variable);
        self.variable_types.insert(key, ty);
        match initializer {
            Some(Initializer::Scalar(scalar)) => {
                let value: usize = self.compile_expr(&scalar.expression)?;
                let value: usize = self.coerce_integer_value(value, ty, &scalar.expression.ctype);
                self.emit(Op::DefVar { variable, value });
                Ok(())
            },
            Some(_) => Err(
                unsupported(
                    location,
                    "aggregate local initialization is not supported for SIA32 yet",
                ),
            ),
            None => Ok(()),
        }
    }

    /// Lowers a declaration inside a function.
    pub fn compile_local(&mut self, declaration: &Declaration) -> (result: Result<(), Error>)
        ensures
            (final(self)@, outcome(result)) == local_spec(old(self)@, *declaration),
    {
        let symbol = &declaration.symbol;
        let location = declaration.location;
        if symbol.storage_class == StorageClass::Typedef {
            return Ok(());
        }
        if symbol.storage_class == StorageClass::Static && !matches!(
            symbol.ctype.kind,
            TypeKind::Function(_)
        ) {
            return Ok(());
        }
        if let TypeKind::Array(element, ArrayType::Variable(bound)) = &symbol.ctype.kind {
            return self.compile_vla(
                symbol.key,
                element,
                bound,
                declaration.init.is_some(),
                location,
            );
        }
        if is_stored_as_object(&symbol.ctype) {
            self.compile_stack_local(symbol.key, &symbol.ctype, &declaration.init, location)
        } else {
            self.compile_variable_local(symbol.key, &symbol.ctype, &declaration.init, location)
        }
    }
}

} // verus!
