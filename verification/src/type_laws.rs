//! What the representation of a C type keeps of it.

use crate::error::{ErrorView, Location};
use crate::hir::{ArrayType, ExprType, FunctionType, Initializer, LiteralValue, Type, TypeKind};
use crate::ir::IrType;
use crate::lower::machine::bytes_of;
use crate::types::{
    abi_parameter_spec, aligned, completed_spec, ir_type_spec, object_align, object_size,
    parameters, promoted_spec, signed_integer,
};
use vstd::arithmetic::div_mod::{lemma_fundamental_div_mod, lemma_mod_multiples_basic};
use vstd::prelude::*;

verus! {

/// How many bytes a scalar takes on SIA32.
pub open spec fn scalar_bytes(ctype: Type) -> Option<nat> {
    match ctype.kind {
        TypeKind::Bool => Some(1),
        TypeKind::Char(_) => Some(1),
        TypeKind::Short(_) => Some(2),
        TypeKind::Int(_) => Some(4),
        TypeKind::Long(_) => Some(4),
        TypeKind::Enum => Some(4),
        TypeKind::Pointer(_) => Some(4),
        TypeKind::Function(_) => Some(4),
        TypeKind::Float => Some(4),
        TypeKind::Double => Some(8),
        _ => None,
    }
}

/// A scalar has a machine type, as wide as the scalar and of its kind; nothing
/// else has one.
pub proof fn a_scalar_has_a_machine_type_of_its_width(ctype: Type, location: Location)
    ensures
        ir_type_spec(ctype, location) is Ok <==> scalar_bytes(ctype) is Some,
        ir_type_spec(ctype, location) matches Ok(ty) ==> {
            &&& scalar_bytes(ctype) == Some(bytes_of(ty))
            &&& (ty is F32 || ty is F64) <==> (ctype.kind is Float || ctype.kind is Double)
        },
{
}

/// An argument that no parameter names takes at least a word, and keeps its
/// width if it is wider.
pub proof fn an_unnamed_argument_takes_a_word(ctype: Type, location: Location)
    requires
        scalar_bytes(ctype) is Some,
    ensures
        ({
            let bytes = scalar_bytes(ctype)->0;
            &&& promoted_spec(ctype, location) matches Ok(ty) && bytes_of(ty) == if bytes < 4 {
                4
            } else {
                bytes
            }
        }),
{
}

/// An object is passed by its address, which takes a word; a scalar as itself.
pub proof fn an_object_is_passed_by_its_address(ctype: Type, location: Location)
    ensures
        (ctype.kind is Struct || ctype.kind is Union || ctype.kind is Array)
            ==> abi_parameter_spec(ctype, location) == Ok::<IrType, ErrorView>(IrType::I32),
        scalar_bytes(ctype) matches Some(bytes) ==> (abi_parameter_spec(ctype, location) matches Ok(
            ty,
        ) && bytes_of(ty) == bytes && ((ty is F32 || ty is F64) <==> (ctype.kind is Float
            || ctype.kind is Double))),
{
}

/// A type holds negative numbers if it was declared signed, or is an
/// enumeration.
pub proof fn a_signed_type_is_signed(ctype: Type, signed: bool)
    ensures
        ctype.kind == TypeKind::Char(signed) ==> signed_integer(ctype) == signed,
        ctype.kind == TypeKind::Short(signed) ==> signed_integer(ctype) == signed,
        ctype.kind == TypeKind::Int(signed) ==> signed_integer(ctype) == signed,
        ctype.kind == TypeKind::Long(signed) ==> signed_integer(ctype) == signed,
        ctype.kind is Enum ==> signed_integer(ctype),
        (ctype.kind is Bool || ctype.kind is Pointer) ==> !signed_integer(ctype),
{
}

/// An offset is rounded up to the next multiple of an alignment, and to no
/// later one.
pub proof fn an_offset_is_rounded_up(offset: u64, align: u64)
    requires
        align > 0,
        offset + align <= u64::MAX,
    ensures
        aligned(offset, align) % align == 0,
        offset <= aligned(offset, align) < offset + align,
{
    let o = offset as int;
    let a = align as int;
    lemma_fundamental_div_mod(o, a);
    if o % a != 0 {
        let q = o / a;
        assert(o + (a - o % a) == (q + 1) * a) by (nonlinear_arith)
            requires
                o == a * q + o % a,
        ;
        lemma_mod_multiples_basic(q + 1, a);
    }
}

/// An array without a bound is as long as its list of initializers, or as its
/// string with the terminating zero.
pub proof fn an_array_is_as_long_as_its_initializer(
    ctype: Type,
    initializer: Initializer,
    location: Location,
)
    requires
        ctype.kind matches TypeKind::Array(_, ArrayType::Unbounded),
    ensures
        initializer matches Initializer::InitializerList(items) ==> completed_spec(
            ctype,
            Some(initializer),
            location,
        ) == Ok::<Option<u64>, ErrorView>(Some(items@.len() as u64)),
        initializer matches Initializer::Scalar(scalar) ==> (
        scalar.expression.expr matches ExprType::Literal(LiteralValue::Str(bytes))
            ==> completed_spec(ctype, Some(initializer), location) == Ok::<Option<u64>, ErrorView>(
            Some(bytes@.len() as u64),
        )),
{
}

/// An array takes as many bytes as its elements, and is aligned as they are;
/// any other object takes what its type takes.
pub proof fn an_object_takes_the_bytes_of_its_parts(
    ctype: Type,
    element: Type,
    count: u64,
    size: u64,
    align: u64,
)
    ensures
        (ctype.kind == TypeKind::Array(Box::new(element), ArrayType::Unbounded) && element.size
            == Ok::<u64, String>(size) && count * size <= u64::MAX) ==> object_size(
            ctype,
            Some(count),
        ) == Ok::<u64, Seq<char>>((count * size) as u64),
        (ctype.kind == TypeKind::Array(Box::new(element), ArrayType::Unbounded) && element.align
            == Ok::<u64, String>(align)) ==> object_align(ctype, Some(count)) == Ok::<
            u64,
            Seq<char>,
        >(align),
        ctype.size == Ok::<u64, String>(size) ==> object_size(ctype, None) == Ok::<u64, Seq<char>>(
            size,
        ),
        ctype.align == Ok::<u64, String>(align) ==> object_align(ctype, None) == Ok::<
            u64,
            Seq<char>,
        >(align),
{
    assert(size * count == count * size) by (nonlinear_arith);
}

/// A lone `void` names no parameter; any other list names those in it.
pub proof fn a_lone_void_names_no_parameter(function: FunctionType)
    ensures
        (function.params@.len() == 1 && function.params@[0].ctype.kind is Void) ==> parameters(
            function,
        ).len() == 0,
        !(function.params@.len() == 1 && function.params@[0].ctype.kind is Void) ==> parameters(
            function,
        ) == function.params@,
{
}

} // verus!
