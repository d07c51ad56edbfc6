//! How C types are represented on SIA32.

use crate::error::{codegen, outcome, unsupported, unsupported_view, Error, ErrorView, Location};
use crate::hir::{
    ArrayType, Expr, ExprType, Field, FunctionType, Initializer, LiteralValue, Symbol, Type,
    TypeKind,
};
use crate::ir::IrType;
use vstd::prelude::*;

verus! {

/// Whether values of the type are passed and returned as whole objects.
pub open spec fn by_value_aggregate(ctype: Type) -> bool {
    ctype.kind is Struct || ctype.kind is Union
}

/// Whether values of the type are passed and returned as whole objects.
pub fn is_by_value_aggregate(ctype: &Type) -> (result: bool)
    ensures
        result == by_value_aggregate(*ctype),
{
    matches!(ctype.kind, TypeKind::Struct(_) | TypeKind::Union(_))
}

/// Whether an expression of the type stands for an address.
pub open spec fn address_valued(ctype: Type) -> bool {
    ctype.kind is Function || ctype.kind is Struct || ctype.kind is Union || ctype.kind is Array
}

/// Whether an expression of the type stands for an address.
pub fn is_address_valued_type(ctype: &Type) -> (result: bool)
    ensures
        result == address_valued(*ctype),
{
    matches!(
        ctype.kind,
        TypeKind::Function(_) | TypeKind::Struct(_) | TypeKind::Union(_) | TypeKind::Array(_, _)
    )
}

/// Whether the type is a struct, a union or an array.
pub open spec fn stored_as_object(ctype: Type) -> bool {
    ctype.kind is Struct || ctype.kind is Union || ctype.kind is Array
}

/// Whether the type is a struct, a union or an array.
pub fn is_stored_as_object(ctype: &Type) -> (result: bool)
    ensures
        result == stored_as_object(*ctype),
{
    matches!(ctype.kind, TypeKind::Struct(_) | TypeKind::Union(_) | TypeKind::Array(_, _))
}

/// Whether values of the type are widened with their sign.
pub open spec fn signed_integer(ctype: Type) -> bool {
    match ctype.kind {
        TypeKind::Char(signed) => signed,
        TypeKind::Short(signed) => signed,
        TypeKind::Int(signed) => signed,
        TypeKind::Long(signed) => signed,
        TypeKind::Enum => true,
        _ => false,
    }
}

/// Whether values of the type are widened with their sign.
pub fn is_signed_integer_type(ctype: &Type) -> (result: bool)
    ensures
        result == signed_integer(*ctype),
{
    match ctype.kind {
        TypeKind::Char(signed) => signed,
        TypeKind::Short(signed) => signed,
        TypeKind::Int(signed) => signed,
        TypeKind::Long(signed) => signed,
        TypeKind::Enum => true,
        _ => false,
    }
}

/// Whether the type is a floating-point type.
pub open spec fn floating(ctype: Type) -> bool {
    ctype.kind is Float || ctype.kind is Double
}

/// Whether the type is a floating-point type.
pub fn is_floating(ctype: &Type) -> (result: bool)
    ensures
        result == floating(*ctype),
{
    matches!(ctype.kind, TypeKind::Float | TypeKind::Double)
}

/// Why a type without a machine representation has none.
pub open spec fn no_ir_type(ctype: Type) -> Option<Seq<char>> {
    match ctype.kind {
        TypeKind::Void => Some("void has no SIA32 SSA value representation"@),
        TypeKind::Array(_, _) => Some(
            "array values are address-only on SIA32 and must decay or use aggregate storage"@,
        ),
        TypeKind::Struct(_) => Some(
            "struct/union values are address-only on SIA32 and use aggregate ABI/storage lowering"@,
        ),
        TypeKind::Union(_) => Some(
            "struct/union values are address-only on SIA32 and use aggregate ABI/storage lowering"@,
        ),
        TypeKind::VaList => Some("va_list has no standalone SIA32 scalar representation"@),
        TypeKind::Error => Some("frontend error type cannot reach SIA32 type lowering"@),
        _ => None,
    }
}

/// The machine type of a value of the C type, or why it has none.
pub open spec fn ir_type_spec(ctype: Type, location: Location) -> Result<IrType, ErrorView> {
    match no_ir_type(ctype) {
        Some(reason) => Err(unsupported_view(location, reason)),
        None => Ok(
            match ctype.kind {
                TypeKind::Bool => IrType::I8,
                TypeKind::Char(_) => IrType::I8,
                TypeKind::Short(_) => IrType::I16,
                TypeKind::Float => IrType::F32,
                TypeKind::Double => IrType::F64,
                _ => IrType::I32,
            },
        ),
    }
}

/// The machine type of a value of the C type, or why it has none.
pub fn ir_type(ctype: &Type, location: Location) -> (result: Result<IrType, Error>)
    ensures
        outcome(result) == ir_type_spec(*ctype, location),
{
    match ctype.kind {
        TypeKind::Bool | TypeKind::Char(_) => Ok(IrType::I8),
        TypeKind::Short(_) => Ok(IrType::I16),
        TypeKind::Int(_) | TypeKind::Long(_) | TypeKind::Enum | TypeKind::Pointer(_)
        | TypeKind::Function(_) => Ok(IrType::I32),
        TypeKind::Float => Ok(IrType::F32),
        TypeKind::Double => Ok(IrType::F64),
        TypeKind::Void => Err(unsupported(location, "void has no SIA32 SSA value representation")),
        TypeKind::Array(_, _) => Err(
            unsupported(
                location,
                "array values are address-only on SIA32 and must decay or use aggregate storage",
            ),
        ),
        TypeKind::Struct(_) | TypeKind::Union(_) => Err(
            unsupported(
                location,
                "struct/union values are address-only on SIA32 and use aggregate ABI/storage lowering",
            ),
        ),
        TypeKind::VaList => Err(
            unsupported(location, "va_list has no standalone SIA32 scalar representation"),
        ),
        TypeKind::Error => Err(
            unsupported(location, "frontend error type cannot reach SIA32 type lowering"),
        ),
    }
}

/// The machine type in which a scalar is returned.
///
/// Floating-point values travel in their own types, as every other scalar
/// does, so this is the machine type of the value.
pub fn abi_scalar_type(ctype: &Type, location: Location) -> (result: Result<IrType, Error>)
    ensures
        outcome(result) == ir_type_spec(*ctype, location),
{
    match ctype.kind {
        TypeKind::Float => Ok(IrType::F32),
        TypeKind::Double => Ok(IrType::F64),
        _ => ir_type(ctype, location),
    }
}

/// The machine type in which an argument is passed: an address for an object
/// or a function, the machine type of the value for a scalar.
pub open spec fn abi_parameter_spec(ctype: Type, location: Location) -> Result<IrType, ErrorView> {
    if address_valued(ctype) {
        Ok(IrType::I32)
    } else {
        ir_type_spec(ctype, location)
    }
}

/// The machine type in which an argument is passed.
pub fn abi_parameter_type(ctype: &Type, location: Location) -> (result: Result<IrType, Error>)
    ensures
        outcome(result) == abi_parameter_spec(*ctype, location),
{
    match ctype.kind {
        TypeKind::Function(_) | TypeKind::Array(_, _) | TypeKind::Struct(_) | TypeKind::Union(_) => {
            Ok(IrType::I32)
        },
        _ => abi_scalar_type(ctype, location),
    }
}

/// The machine type of an unnamed argument after C's default promotions.
pub open spec fn promoted_spec(ctype: Type, location: Location) -> Result<IrType, ErrorView> {
    match ctype.kind {
        TypeKind::Bool => Ok(IrType::I32),
        TypeKind::Char(_) => Ok(IrType::I32),
        TypeKind::Short(_) => Ok(IrType::I32),
        TypeKind::Enum => Ok(IrType::I32),
        _ => ir_type_spec(ctype, location),
    }
}

/// The machine type of an unnamed argument after C's default promotions.
pub fn promoted_type(ctype: &Type, location: Location) -> (result: Result<IrType, Error>)
    ensures
        outcome(result) == promoted_spec(*ctype, location),
{
    match ctype.kind {
        TypeKind::Bool | TypeKind::Char(_) | TypeKind::Short(_) | TypeKind::Enum => Ok(IrType::I32),
        _ => ir_type(ctype, location),
    }
}

/// The named parameters of a function: none for a lone `void`.
pub open spec fn parameters(function: FunctionType) -> Seq<Symbol> {
    if function.params@.len() == 1 && function.params@[0].ctype.kind is Void {
        Seq::empty()
    } else {
        function.params@
    }
}

/// The named parameters of a function: none for a lone `void`.
pub fn function_parameters(function: &FunctionType) -> (result: &[Symbol])
    ensures
        result@ == parameters(*function),
{
    if function.params.len() == 1 && matches!(function.params[0].ctype.kind, TypeKind::Void) {
        let none = vstd::slice::slice_subrange(function.params.as_slice(), 0, 0);
        assert(none@ =~= Seq::<Symbol>::empty());
        none
    } else {
        function.params.as_slice()
    }
}

/// The size that the front end gives, or its reason at `location`.
pub open spec fn size_spec(ctype: Type, location: Location) -> Result<u64, ErrorView> {
    match ctype.size {
        Ok(size) => Ok(size),
        Err(reason) => Err(unsupported_view(location, reason@)),
    }
}

/// The size that the front end gives, or its reason at `location`.
pub fn size_of_type(ctype: &Type, location: Location) -> (result: Result<u64, Error>)
    ensures
        outcome(result) == size_spec(*ctype, location),
{
    match &ctype.size {
        Ok(size) => Ok(*size),
        Err(reason) => Err(unsupported(location, reason.as_str())),
    }
}

/// The size that the front end gives, or `message` at `location`.
pub open spec fn size_or_spec(ctype: Type, location: Location, message: Seq<char>) -> Result<
    u64,
    ErrorView,
> {
    match ctype.size {
        Ok(size) => Ok(size),
        Err(_) => Err(unsupported_view(location, message)),
    }
}

/// The size that the front end gives, or `message` at `location`.
pub fn size_or(ctype: &Type, location: Location, message: &str) -> (result: Result<u64, Error>)
    ensures
        outcome(result) == size_or_spec(*ctype, location, message@),
{
    match &ctype.size {
        Ok(size) => Ok(*size),
        Err(_) => Err(unsupported(location, message)),
    }
}

/// The alignment that the front end gives, or its reason at `location`.
pub open spec fn align_spec(ctype: Type, location: Location) -> Result<u64, ErrorView> {
    match ctype.align {
        Ok(align) => Ok(align),
        Err(reason) => Err(unsupported_view(location, reason@)),
    }
}

/// The alignment that the front end gives, or its reason at `location`.
pub fn align_of_type(ctype: &Type, location: Location) -> (result: Result<u64, Error>)
    ensures
        outcome(result) == align_spec(*ctype, location),
{
    match &ctype.align {
        Ok(align) => Ok(*align),
        Err(reason) => Err(unsupported(location, reason.as_str())),
    }
}

/// The alignment that the front end gives, or `message` at `location`.
pub open spec fn align_or_spec(ctype: Type, location: Location, message: Seq<char>) -> Result<
    u64,
    ErrorView,
> {
    match ctype.align {
        Ok(align) => Ok(align),
        Err(_) => Err(unsupported_view(location, message)),
    }
}

/// The alignment that the front end gives, or `message` at `location`.
pub fn align_or(ctype: &Type, location: Location, message: &str) -> (result: Result<u64, Error>)
    ensures
        outcome(result) == align_or_spec(*ctype, location, message@),
{
    match &ctype.align {
        Ok(align) => Ok(*align),
        Err(_) => Err(unsupported(location, message)),
    }
}

/// The first multiple of `align` from `offset` on, modulo 2 to the 64; an
/// alignment of nought asks for nothing.
pub open spec fn aligned(offset: u64, align: u64) -> u64 {
    if align == 0 || offset % align == 0 {
        offset
    } else {
        offset.wrapping_add((align - offset % align) as u64)
    }
}

/// The first multiple of `align` from `offset` on, modulo 2 to the 64.
pub fn align_up(offset: u64, align: u64) -> (result: u64)
    ensures
        result == aligned(offset, align),
{
    if align == 0 {
        return offset;
    }
    let rem: u64 = offset % align;
    if rem == 0 {
        offset
    } else {
        offset.wrapping_add(align - rem)
    }
}

/// The length that the initializer gives to an array without a bound; `None`
/// for any other type.
pub open spec fn completed_spec(
    ctype: Type,
    initializer: Option<Initializer>,
    location: Location,
) -> Result<Option<u64>, ErrorView> {
    match ctype.kind {
        TypeKind::Array(_, ArrayType::Unbounded) => match initializer {
            Some(Initializer::InitializerList(items)) => Ok(Some(items@.len() as u64)),
            Some(Initializer::Scalar(scalar)) => match scalar.expression.expr {
                ExprType::Literal(LiteralValue::Str(bytes)) => Ok(Some(bytes@.len() as u64)),
                _ => Err(
                    unsupported_view(
                        location,
                        "unbounded array requires an initializer that determines its size"@,
                    ),
                ),
            },
            _ => Err(
                unsupported_view(
                    location,
                    "unbounded array requires an initializer that determines its size"@,
                ),
            ),
        },
        _ => Ok(None),
    }
}

/// Completes the type of an object from its initializer: the length of an
/// array that was declared without a bound, `None` for any other type.
pub fn completed_object_type(
    ctype: &Type,
    initializer: &Option<Initializer>,
    location: Location,
) -> (result: Result<Option<u64>, Error>)
    ensures
        outcome(result) == completed_spec(*ctype, *initializer, location),
{
    match &ctype.kind {
        TypeKind::Array(_, ArrayType::Unbounded) => match initializer {
            Some(Initializer::InitializerList(items)) => Ok(Some(items.len() as u64)),
            Some(Initializer::Scalar(scalar)) => match &scalar.expression.expr {
                ExprType::Literal(LiteralValue::Str(bytes)) => Ok(Some(bytes.len() as u64)),
                _ => Err(
                    unsupported(
                        location,
                        "unbounded array requires an initializer that determines its size",
                    ),
                ),
            },
            _ => Err(
                unsupported(
                    location,
                    "unbounded array requires an initializer that determines its size",
                ),
            ),
        },
        _ => Ok(None),
    }
}

/// The length of an array whose missing bound is `length`.
pub open spec fn array_length(ctype: Type, length: Option<u64>) -> Option<u64> {
    match ctype.kind {
        TypeKind::Array(_, ArrayType::Fixed(count)) => Some(count),
        TypeKind::Array(_, ArrayType::Unbounded) => length,
        _ => None,
    }
}

/// The size of an object of the type, an array's missing bound being `length`.
pub open spec fn object_size(ctype: Type, length: Option<u64>) -> Result<u64, Seq<char>> {
    match (ctype.kind, length) {
        (TypeKind::Array(element, ArrayType::Unbounded), Some(count)) => match element.size {
            Ok(size) => Ok(size.wrapping_mul(count)),
            Err(reason) => Err(reason@),
        },
        _ => match ctype.size {
            Ok(size) => Ok(size),
            Err(reason) => Err(reason@),
        },
    }
}

/// The alignment of an object of the type, an array's missing bound being
/// `length`.
pub open spec fn object_align(ctype: Type, length: Option<u64>) -> Result<u64, Seq<char>> {
    match (ctype.kind, length) {
        (TypeKind::Array(element, ArrayType::Unbounded), Some(count)) => match element.align {
            Ok(align) => Ok(align),
            Err(reason) => Err(reason@),
        },
        _ => match ctype.align {
            Ok(align) => Ok(align),
            Err(reason) => Err(reason@),
        },
    }
}

/// A result with its reason taken by its view.
pub open spec fn reason_view(result: Result<u64, String>) -> Result<u64, Seq<char>> {
    match result {
        Ok(value) => Ok(value),
        Err(reason) => Err(reason@),
    }
}

/// The size of an object of the type, an array's missing bound being `length`.
pub fn size_of_object(ctype: &Type, length: Option<u64>) -> (result: Result<u64, String>)
    ensures
        reason_view(result) == object_size(*ctype, length),
{
    match (&ctype.kind, length) {
        (TypeKind::Array(element, ArrayType::Unbounded), Some(count)) => match &element.size {
            Ok(size) => Ok((*size).wrapping_mul(count)),
            Err(reason) => Err(reason.clone()),
        },
        _ => match &ctype.size {
            Ok(size) => Ok(*size),
            Err(reason) => Err(reason.clone()),
        },
    }
}

/// The alignment of an object of the type, an array's missing bound being
/// `length`.
pub fn align_of_object(ctype: &Type, length: Option<u64>) -> (result: Result<u64, String>)
    ensures
        reason_view(result) == object_align(*ctype, length),
{
    match (&ctype.kind, length) {
        (TypeKind::Array(element, ArrayType::Unbounded), Some(_)) => match &element.align {
            Ok(align) => Ok(*align),
            Err(reason) => Err(reason.clone()),
        },
        _ => match &ctype.align {
            Ok(align) => Ok(*align),
            Err(reason) => Err(reason.clone()),
        },
    }
}

/// The offset of `member` among the fields from `index` on, the next free
/// byte being at `offset`.
pub open spec fn member_offset_from(
    fields: Seq<Field>,
    index: nat,
    offset: u64,
    member: u32,
    location: Location,
) -> Result<u64, ErrorView>
    decreases fields.len() - index,
{
    if index >= fields.len() {
        Err(unsupported_view(location, "unknown aggregate member"@))
    } else {
        let field = fields[index as int];
        match align_spec(field.ctype, location) {
            Err(error) => Err(error),
            Ok(align) => {
                let start = aligned(offset, align);
                if field.id == member {
                    Ok(start)
                } else {
                    match size_spec(field.ctype, location) {
                        Err(error) => Err(error),
                        Ok(size) => if start + size > u64::MAX {
                            Err(ErrorView::Codegen("member offset overflows"@))
                        } else {
                            member_offset_from(
                                fields,
                                index + 1,
                                (start + size) as u64,
                                member,
                                location,
                            )
                        },
                    }
                }
            },
        }
    }
}

/// Where a member lies in an object of the type.
pub open spec fn member_offset_spec(ctype: Type, member: u32, location: Location) -> Result<
    u64,
    ErrorView,
> {
    match ctype.kind {
        TypeKind::Union(_) => Ok(0),
        TypeKind::Struct(fields) => member_offset_from(fields@, 0, 0, member, location),
        _ => Err(unsupported_view(location, "member offset requested for non-aggregate type"@)),
    }
}

/// Where a member lies in an object of the type.
pub fn aggregate_member_offset(ctype: &Type, member: u32, location: Location) -> (result: Result<
    u64,
    Error,
>)
    ensures
        outcome(result) == member_offset_spec(*ctype, member, location),
{
    match &ctype.kind {
        TypeKind::Union(_) => Ok(0),
        TypeKind::Struct(fields) => {
            let mut offset: u64 = 0;
            let mut index: usize = 0;
            while index < fields.len()
                invariant
                    index <= fields@.len(),
                    member_offset_from(fields@, index as nat, offset, member, location)
                        == member_offset_from(fields@, 0, 0, member, location),
                    ctype.kind == TypeKind::Struct(*fields),
                decreases fields@.len() - index,
            {
                let field = &fields[index];
                let align: u64 = align_of_type(&field.ctype, location)?;
                offset = align_up(offset, align);
                if field.id == member {
                    return Ok(offset);
                }
                let size: u64 = size_of_type(&field.ctype, location)?;
                match offset.checked_add(size) {
                    Some(end) => {
                        offset = end;
                    },
                    None => {
                        return Err(codegen("member offset overflows"));
                    },
                }
                index += 1;
            }
            Err(unsupported(location, "unknown aggregate member"))
        },
        _ => Err(unsupported(location, "member offset requested for non-aggregate type")),
    }
}

/// The expression under any conversions that wrap it.
pub open spec fn stripped(expression: Expr) -> Expr
    decreases expression,
{
    match expression.expr {
        ExprType::Noop(inner) => stripped(*inner),
        ExprType::Cast(inner) => stripped(*inner),
        _ => expression,
    }
}

/// The expression under any conversions that wrap it.
pub fn strip_wrappers(expression: &Expr) -> (result: &Expr)
    ensures
        *result == stripped(*expression),
    decreases expression,
{
    match &expression.expr {
        ExprType::Noop(inner) => strip_wrappers(inner),
        ExprType::Cast(inner) => strip_wrappers(inner),
        _ => expression,
    }
}

/// What is under the conversions is the expression itself or a part of it.
pub proof fn stripped_is_part(expression: Expr)
    ensures
        stripped(expression) == expression || decreases_to!(expression => stripped(expression)),
        !(stripped(expression).expr is Noop),
        !(stripped(expression).expr is Cast),
    decreases expression,
{
    match expression.expr {
        ExprType::Noop(inner) => {
            stripped_is_part(*inner);
        },
        ExprType::Cast(inner) => {
            stripped_is_part(*inner);
        },
        _ => {},
    }
}

} // verus!
