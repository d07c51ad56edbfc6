//! The initial contents of objects with static storage.

use crate::bundle::encode::{le_bytes, push_number};
use crate::bundle::{relocations_view, RelocationArtifact, RelocationView};
use crate::error::{
    codegen, outcome, outcome_view, source_error, source_error_view, unsupported, unsupported_view,
    Error, ErrorView, Location,
};
use crate::hir::{
    Expr, ExprType, Field, Initializer, LiteralValue, ScalarInitializer, Type, TypeKind,
};
use crate::lower::init::{character_array_string, length_of_array};
use crate::lower::init_model::string_for_array;
use crate::lower::state::{find_string, pool_position, pool_view};
use crate::types::{
    aggregate_member_offset, align_of_type, align_spec, array_length, member_offset_spec,
    size_of_type, size_spec, strip_wrappers, stripped,
};
use crate::unit::strings::{string_symbol, string_symbol_name};
use std::collections::HashMap;
use vstd::prelude::*;

verus! {

broadcast use vstd::std_specs::hash::group_hash_axioms;

/// The linkage names of symbols, by the key of their declaration.
pub open spec fn names_view(names: Map<u32, String>) -> Map<u32, Seq<char>> {
    names.map_values(|name: String| name@)
}

/// Whether an expression is an integer zero, perhaps converted.
pub open spec fn is_zero_literal(expression: Expr) -> bool
    decreases expression,
{
    match expression.expr {
        ExprType::Literal(LiteralValue::Int(value)) => value == 0,
        ExprType::Literal(LiteralValue::UnsignedInt(value)) => value == 0,
        ExprType::Literal(LiteralValue::Char(value)) => value == 0,
        ExprType::Cast(inner) => is_zero_literal(*inner),
        ExprType::Noop(inner) => is_zero_literal(*inner),
        ExprType::StaticRef(inner) => is_zero_literal(*inner),
        _ => false,
    }
}

/// Whether an expression is an integer zero, perhaps converted.
pub fn scalar_initializer_is_zero(expression: &Expr) -> (result: bool)
    ensures
        result == is_zero_literal(*expression),
    decreases expression,
{
    match &expression.expr {
        ExprType::Literal(LiteralValue::Int(value)) => *value == 0,
        ExprType::Literal(LiteralValue::UnsignedInt(value)) => *value == 0,
        ExprType::Literal(LiteralValue::Char(value)) => *value == 0,
        ExprType::Cast(inner) => scalar_initializer_is_zero(inner),
        ExprType::Noop(inner) => scalar_initializer_is_zero(inner),
        ExprType::StaticRef(inner) => scalar_initializer_is_zero(inner),
        _ => false,
    }
}

/// So many zero bytes.
pub open spec fn zeros(count: nat) -> Seq<u8> {
    Seq::new(count, |i: int| 0u8)
}

/// The value of a constant that fills a scalar of any width, or why there is
/// none.
pub open spec fn constant_value(folded: Expr, is_zero: bool) -> Result<nat, Seq<char>> {
    if is_zero_literal(folded) {
        Ok(0)
    } else {
        match folded.expr {
            ExprType::Literal(LiteralValue::Int(value)) => Ok(value as u64 as nat),
            ExprType::Literal(LiteralValue::UnsignedInt(value)) => Ok(value as nat),
            ExprType::Literal(LiteralValue::Char(value)) => Ok(value as nat),
            ExprType::Literal(LiteralValue::Float { double_bits, single_bits }) => Err(
                "floating-point global initialization requires SIA32 float lowering"@,
            ),
            ExprType::Literal(LiteralValue::Str(_)) => Err(
                "string scalar initialization requires SIA32 string-data lowering"@,
            ),
            _ => if is_zero {
                Ok(0)
            } else {
                Err("global scalar initializer is not a link-time constant"@)
            },
        }
    }
}

/// The bytes of a scalar of the type: the constant, the lowest byte first.
pub open spec fn scalar_bytes_spec(
    scalar: ScalarInitializer,
    target: Type,
    location: Location,
) -> Result<Seq<u8>, ErrorView> {
    match scalar.folded {
        Err(error) => Err(source_error_view(error@)),
        Ok(folded) => match size_spec(target, location) {
            Err(error) => Err(error),
            Ok(width) => if width > usize::MAX {
                Err(unsupported_view(location, "scalar initializer is too large"@))
            } else {
                match constant_value(folded, scalar.folded_is_zero) {
                    Err(message) => Err(unsupported_view(location, message)),
                    Ok(value) => Ok(le_bytes(value, width as nat)),
                }
            },
        },
    }
}

/// The low bytes of a number.
fn low_bytes(value: u64, width: usize) -> (result: Vec<u8>)
    ensures
        result@ == le_bytes(value as nat, width as nat),
{
    let mut bytes: Vec<u8> = Vec::new();
    push_number(&mut bytes, value, width);
    assert(bytes@ =~= le_bytes(value as nat, width as nat));
    bytes
}

/// The bytes of a scalar of the type.
pub fn scalar_initializer_bytes(
    scalar: &ScalarInitializer,
    target: &Type,
    location: Location,
) -> (result: Result<Vec<u8>, Error>)
    ensures
        outcome_view(result) == scalar_bytes_spec(*scalar, *target, location),
{
    let folded = match &scalar.folded {
        Ok(folded) => folded,
        Err(error) => {
            return Err(source_error(error.duplicate()));
        },
    };
    let width: u64 = size_of_type(target, location)?;
    if width > usize::MAX as u64 {
        return Err(unsupported(location, "scalar initializer is too large"));
    }
    let width: usize = width as usize;
    if scalar_initializer_is_zero(folded) {
        return Ok(low_bytes(0, width));
    }
    match &folded.expr {
        ExprType::Literal(LiteralValue::Int(value)) => {
            Ok(low_bytes(#[verifier::truncate] (*value as u64), width))
        },
        ExprType::Literal(LiteralValue::UnsignedInt(value)) => Ok(low_bytes(*value, width)),
        ExprType::Literal(LiteralValue::Char(value)) => Ok(low_bytes(*value as u64, width)),
        ExprType::Literal(LiteralValue::Float { double_bits: _, single_bits: _ }) => Err(
            unsupported(
                location,
                "floating-point global initialization requires SIA32 float lowering",
            ),
        ),
        ExprType::Literal(LiteralValue::Str(_)) => Err(
            unsupported(
                location,
                "string scalar initialization requires SIA32 string-data lowering",
            ),
        ),
        _ => {
            if scalar.folded_is_zero {
                Ok(low_bytes(0, width))
            } else {
                Err(unsupported(location, "global scalar initializer is not a link-time constant"))
            }
        },
    }
}

/// A symbol and an offset from it.
pub struct AddressTarget {
    pub name: String,
    pub addend: i64,
}

/// What an [`AddressTarget`] says.
pub struct AddressTargetView {
    pub name: Seq<char>,
    pub addend: i64,
}

impl View for AddressTarget {
    type V = AddressTargetView;

    open spec fn view(&self) -> AddressTargetView {
        AddressTargetView { name: self.name@, addend: self.addend }
    }
}

/// The symbol with the key, if it has a linkage name.
pub open spec fn named_symbol(names: Map<u32, Seq<char>>, key: u32) -> Option<AddressTargetView> {
    if names.contains_key(key) {
        Some(AddressTargetView { name: names[key], addend: 0 })
    } else {
        None
    }
}

/// The address that an expression is at link time: of a named object, of a
/// member of one, or of a function.
pub open spec fn address_target_spec(expression: Expr, names: Map<u32, Seq<char>>) -> Result<
    Option<AddressTargetView>,
    ErrorView,
>
    decreases expression,
{
    match expression.expr {
        ExprType::Noop(inner) => address_target_spec(*inner, names),
        ExprType::Cast(inner) => address_target_spec(*inner, names),
        ExprType::StaticRef(inner) => match inner.expr {
            ExprType::Id(symbol) => Ok(named_symbol(names, symbol.key)),
            ExprType::Member(base, member) => match base.expr {
                ExprType::Id(symbol) => member_target_spec(
                    named_symbol(names, symbol.key),
                    *base,
                    member,
                ),
                _ => Ok(None),
            },
            _ => Ok(None),
        },
        ExprType::Id(symbol) => if symbol.ctype.kind is Function {
            Ok(named_symbol(names, symbol.key))
        } else {
            Ok(None)
        },
        _ => Ok(None),
    }
}

/// The address of a member of a named object.
pub open spec fn member_target_spec(
    object: Option<AddressTargetView>,
    base: Expr,
    member: u32,
) -> Result<Option<AddressTargetView>, ErrorView> {
    match object {
        None => Ok(None),
        Some(object) => match member_offset_spec(base.ctype, member, base.location) {
            Err(error) => Err(error),
            Ok(offset) => if offset > i64::MAX {
                Err(ErrorView::Codegen("member relocation addend overflows"@))
            } else {
                Ok(Some(AddressTargetView { name: object.name, addend: offset as i64 }))
            },
        },
    }
}

/// An optional target, by its view.
pub open spec fn target_view(result: Result<Option<AddressTarget>, Error>) -> Result<
    Option<AddressTargetView>,
    ErrorView,
> {
    match result {
        Ok(Some(target)) => Ok(Some(target@)),
        Ok(None) => Ok(None),
        Err(error) => Err(error@),
    }
}

/// The linkage name of a symbol.
pub fn lookup_name(names: &HashMap<u32, String>, key: u32) -> (result: Option<String>)
    ensures
        (match result {
            Some(name) => names_view(names@).contains_key(key) && name@ == names_view(names@)[key],
            None => !names_view(names@).contains_key(key),
        }),
{
    match names.get(&key) {
        Some(name) => Some(name.clone()),
        None => None,
    }
}

/// The symbol with the key.
fn symbol_target(names: &HashMap<u32, String>, key: u32) -> (result: Option<AddressTarget>)
    ensures
        (match result {
            Some(target) => named_symbol(names_view(names@), key) == Some(target@),
            None => named_symbol(names_view(names@), key) is None,
        }),
{
    match lookup_name(names, key) {
        Some(name) => Some(AddressTarget { name, addend: 0 }),
        None => None,
    }
}

/// The address of a member of a named object.
fn member_target(names: &HashMap<u32, String>, key: u32, base: &Expr, member: u32) -> (result:
    Result<Option<AddressTarget>, Error>)
    ensures
        target_view(result) == member_target_spec(
            named_symbol(names_view(names@), key),
            *base,
            member,
        ),
{
    match lookup_name(names, key) {
        None => Ok(None),
        Some(name) => {
            let offset: u64 = aggregate_member_offset(&base.ctype, member, base.location)?;
            if offset > 0x7fff_ffff_ffff_ffff {
                return Err(codegen("member relocation addend overflows"));
            }
            Ok(Some(AddressTarget { name, addend: offset as i64 }))
        },
    }
}

/// The address that an expression is at link time.
pub fn static_address_target(expression: &Expr, names: &HashMap<u32, String>) -> (result: Result<
    Option<AddressTarget>,
    Error,
>)
    ensures
        target_view(result) == address_target_spec(*expression, names_view(names@)),
    decreases expression,
{
    match &expression.expr {
        ExprType::Noop(inner) => static_address_target(inner, names),
        ExprType::Cast(inner) => static_address_target(inner, names),
        ExprType::StaticRef(inner) => match &inner.expr {
            ExprType::Id(symbol) => Ok(symbol_target(names, symbol.key)),
            ExprType::Member(base, member) => match &base.expr {
                ExprType::Id(symbol) => member_target(names, symbol.key, base, *member),
                _ => Ok(None),
            },
            _ => Ok(None),
        },
        // Function designators can appear directly in pointer initializers.
        ExprType::Id(symbol) => {
            if matches!(symbol.ctype.kind, TypeKind::Function(_)) {
                Ok(symbol_target(names, symbol.key))
            } else {
                Ok(None)
            }
        },
        _ => Ok(None),
    }
}

/// An object under construction: its bytes and the relocations in them.
pub struct ObjectState {
    pub bytes: Seq<u8>,
    pub relocations: Seq<RelocationView>,
}

/// What initializers refer to: linkage names and string literals.
pub struct References {
    pub names: Map<u32, Seq<char>>,
    pub strings: Seq<Seq<u8>>,
}

/// What writing to an object leads to: the object, and whether it failed.
pub type Wrote = (ObjectState, Result<(), ErrorView>);

/// The bytes with `value` written at `offset`.
pub open spec fn overwritten(bytes: Seq<u8>, offset: int, value: Seq<u8>) -> Seq<u8> {
    Seq::new(
        bytes.len(),
        |i: int|
            if offset <= i < offset + value.len() {
                value[i - offset]
            } else {
                bytes[i]
            },
    )
}

/// The object with `value` at `offset`, if it fits.
pub open spec fn placed(
    object: ObjectState,
    offset: usize,
    value: Seq<u8>,
    overflow: Seq<char>,
    outside: Seq<char>,
) -> Wrote {
    if offset + value.len() > usize::MAX {
        (object, Err(ErrorView::Codegen(overflow)))
    } else if offset + value.len() > object.bytes.len() {
        (object, Err(ErrorView::Codegen(outside)))
    } else {
        (
            ObjectState { bytes: overwritten(object.bytes, offset as int, value), ..object },
            Ok(()),
        )
    }
}

/// The object with a relocation at `offset`.
pub open spec fn relocated(
    object: ObjectState,
    offset: usize,
    target: Seq<char>,
    addend: i64,
) -> Wrote {
    if offset > u32::MAX {
        (object, Err(ErrorView::Codegen("data relocation offset overflows"@)))
    } else {
        (
            ObjectState {
                relocations: object.relocations.push(
                    RelocationView { offset: offset as u32, target, addend },
                ),
                ..object
            },
            Ok(()),
        )
    }
}

/// The string literal whose address an expression is.
pub open spec fn string_address(expression: Expr) -> Option<Seq<u8>> {
    match stripped(expression).expr {
        ExprType::StaticRef(inner) => match inner.expr {
            ExprType::Literal(LiteralValue::Str(bytes)) => Some(bytes@),
            _ => None,
        },
        ExprType::Literal(LiteralValue::Str(bytes)) => Some(bytes@),
        _ => None,
    }
}

/// The string literal whose address an expression is.
fn string_address_literal(expression: &Expr) -> (result: Option<&Vec<u8>>)
    ensures
        (match result {
            Some(bytes) => string_address(*expression) == Some(bytes@),
            None => string_address(*expression) is None,
        }),
{
    match &strip_wrappers(expression).expr {
        ExprType::StaticRef(inner) => match &inner.expr {
            ExprType::Literal(LiteralValue::Str(bytes)) => Some(bytes),
            _ => None,
        },
        ExprType::Literal(LiteralValue::Str(bytes)) => Some(bytes),
        _ => None,
    }
}

/// A link-time address at `offset`.
pub open spec fn address_at(
    object: ObjectState,
    offset: usize,
    target: AddressTargetView,
) -> Wrote {
    if offset > u32::MAX || offset + 4 > usize::MAX {
        (object, Err(ErrorView::Codegen("data relocation offset overflows"@)))
    } else if offset + 4 > object.bytes.len() {
        (object, Err(ErrorView::Codegen("data relocation exceeds global object"@)))
    } else {
        relocated(object, offset, target.name, target.addend)
    }
}

/// A constant at `offset`.
pub open spec fn constant_at(
    object: ObjectState,
    offset: usize,
    ctype: Type,
    scalar: ScalarInitializer,
    location: Location,
) -> Wrote {
    match scalar_bytes_spec(scalar, ctype, location) {
        Err(error) => (object, Err(error)),
        Ok(value) => placed(
            object,
            offset,
            value,
            "global initializer offset overflows"@,
            "global initializer exceeds object size"@,
        ),
    }
}

/// A scalar at `offset`: a pointer may be the address of a string or of a
/// symbol, which the linker fills in; anything else is a constant.
pub open spec fn scalar_spec(
    object: ObjectState,
    references: References,
    offset: usize,
    ctype: Type,
    scalar: ScalarInitializer,
    location: Location,
) -> Wrote {
    if ctype.kind is Pointer || ctype.kind is Function {
        match string_address(scalar.expression) {
            Some(bytes) => match pool_position(references.strings, bytes, 0) {
                None => (
                    object,
                    Err(
                        ErrorView::Codegen(
                            "string literal missing from translation-unit pool"@,
                        ),
                    ),
                ),
                Some(index) => relocated(object, offset, string_symbol(index as nat), 0),
            },
            None => match address_target_spec(scalar.expression, references.names) {
                Err(error) => (object, Err(error)),
                Ok(Some(target)) => address_at(object, offset, target),
                Ok(None) => constant_at(object, offset, ctype, scalar, location),
            },
        }
    } else {
        constant_at(object, offset, ctype, scalar, location)
    }
}

/// The first multiple of `align` from `offset` on, modulo the size of the
/// host's addresses; an alignment of nought asks for nothing.
pub open spec fn padded(offset: usize, align: usize) -> usize {
    if align == 0 || offset % align == 0 {
        offset
    } else {
        offset.wrapping_add((align - offset % align) as usize)
    }
}

/// The first multiple of `align` from `offset` on.
fn pad(offset: usize, align: usize) -> (result: usize)
    ensures
        result == padded(offset, align),
{
    if align == 0 {
        return offset;
    }
    let rem: usize = offset % align;
    if rem == 0 {
        offset
    } else {
        offset.wrapping_add(align - rem)
    }
}

/// A size or alignment that the host can hold.
pub open spec fn host_size(
    size: Result<u64, ErrorView>,
    location: Location,
    message: Seq<char>,
) -> Result<usize, ErrorView> {
    match size {
        Err(error) => Err(error),
        Ok(size) => if size > usize::MAX {
            Err(unsupported_view(location, message))
        } else {
            Ok(size as usize)
        },
    }
}

/// A size or alignment that the host can hold.
pub fn to_host_size(size: Result<u64, Error>, location: Location, message: &str) -> (result: Result<
    usize,
    Error,
>)
    ensures
        outcome(result) == host_size(outcome(size), location, message@),
{
    let size: u64 = size?;
    if size > usize::MAX as u64 {
        return Err(unsupported(location, message));
    }
    Ok(size as usize)
}

/// An object or scalar of the type at `base`. An array's missing bound is
/// `length`. What the initializer leaves out stays as it is.
pub open spec fn global_spec(
    object: ObjectState,
    references: References,
    base: usize,
    ctype: Type,
    length: Option<u64>,
    initializer: Initializer,
    location: Location,
) -> Wrote
    decreases initializer, 0nat,
{
    match initializer {
        Initializer::Zero => (object, Ok(())),
        Initializer::Scalar(scalar) => if ctype.scalar {
            scalar_spec(object, references, base, ctype, *scalar, location)
        } else {
            match string_for_array(ctype, scalar.expression) {
                Some(string) => placed(
                    object,
                    base,
                    string,
                    "string initializer offset overflows"@,
                    "string initializer exceeds array"@,
                ),
                None => (
                    object,
                    Err(
                        unsupported_view(
                            location,
                            "aggregate global scalar initialization requires aggregate-copy lowering"@,
                        ),
                    ),
                ),
            }
        },
        Initializer::InitializerList(items) => if ctype.scalar {
            if items@.len() != 1 {
                (
                    object,
                    Err(
                        unsupported_view(
                            location,
                            "scalar global initializer list must contain exactly one element"@,
                        ),
                    ),
                )
            } else {
                global_spec(object, references, base, ctype, None, items@[0], location)
            }
        } else {
            match (ctype.kind, array_length(ctype, length)) {
                (TypeKind::Array(element, _), Some(count)) => if items@.len() > count {
                    (
                        object,
                        Err(
                            unsupported_view(
                                location,
                                "too many elements in global array initializer"@,
                            ),
                        ),
                    )
                } else {
                    match host_size(
                        size_spec(*element, location),
                        location,
                        "global array element is too large"@,
                    ) {
                        Err(error) => (object, Err(error)),
                        Ok(size) => global_elements_spec(
                            object,
                            references,
                            base,
                            *element,
                            size,
                            items@,
                            0,
                            location,
                        ),
                    }
                },
                (TypeKind::Struct(fields), _) => if items@.len() > fields@.len() {
                    (
                        object,
                        Err(
                            unsupported_view(
                                location,
                                "too many elements in global struct initializer"@,
                            ),
                        ),
                    )
                } else {
                    global_members_spec(
                        object,
                        references,
                        base,
                        fields@,
                        items@,
                        0,
                        0,
                        location,
                    )
                },
                (TypeKind::Union(fields), _) => if items@.len() > 1 {
                    (
                        object,
                        Err(
                            unsupported_view(
                                location,
                                "too many elements in local union initializer"@,
                            ),
                        ),
                    )
                } else if items@.len() == 0 {
                    (object, Ok(()))
                } else if fields@.len() == 0 {
                    (
                        object,
                        Err(unsupported_view(location, "union has no initializable member"@)),
                    )
                } else {
                    global_spec(
                        object,
                        references,
                        base,
                        fields@[0].ctype,
                        None,
                        items@[0],
                        location,
                    )
                },
                _ => (
                    object,
                    Err(
                        unsupported_view(
                            location,
                            "unsupported global aggregate initializer shape"@,
                        ),
                    ),
                ),
            }
        },
        Initializer::FunctionBody(_) => (
            object,
            Err(
                unsupported_view(location, "function body cannot initialize a global data object"@),
            ),
        ),
    }
}

/// The elements of an array from `index` on.
pub open spec fn global_elements_spec(
    object: ObjectState,
    references: References,
    base: usize,
    element: Type,
    element_size: usize,
    items: Seq<Initializer>,
    index: nat,
    location: Location,
) -> Wrote
    decreases items, items.len() - index,
{
    if index >= items.len() {
        (object, Ok(()))
    } else {
        let offset = base + index * element_size;
        if offset > usize::MAX {
            (object, Err(ErrorView::Codegen("global array initializer offset overflows"@)))
        } else {
            match global_spec(
                object,
                references,
                offset as usize,
                element,
                None,
                items[index as int],
                location,
            ) {
                (object, Err(error)) => (object, Err(error)),
                (object, Ok(_)) => global_elements_spec(
                    object,
                    references,
                    base,
                    element,
                    element_size,
                    items,
                    index + 1,
                    location,
                ),
            }
        }
    }
}

/// The members of a struct from `index` on, the next free byte being at
/// `offset` in the struct.
pub open spec fn global_members_spec(
    object: ObjectState,
    references: References,
    base: usize,
    fields: Seq<Field>,
    items: Seq<Initializer>,
    index: nat,
    offset: usize,
    location: Location,
) -> Wrote
    decreases items, items.len() - index,
{
    if index >= items.len() || index >= fields.len() {
        (object, Ok(()))
    } else {
        let ctype = fields[index as int].ctype;
        match host_size(
            align_spec(ctype, location),
            location,
            "struct field alignment is too large"@,
        ) {
            Err(error) => (object, Err(error)),
            Ok(align) => {
                let start = padded(offset, align);
                if base + start > usize::MAX {
                    (object, Err(ErrorView::Codegen("global struct offset overflows"@)))
                } else {
                    match global_spec(
                        object,
                        references,
                        (base + start) as usize,
                        ctype,
                        None,
                        items[index as int],
                        location,
                    ) {
                        (object, Err(error)) => (object, Err(error)),
                        (object, Ok(_)) => match host_size(
                            size_spec(ctype, location),
                            location,
                            "struct field is too large"@,
                        ) {
                            Err(error) => (object, Err(error)),
                            Ok(size) => if start + size > usize::MAX {
                                (
                                    object,
                                    Err(ErrorView::Codegen("global struct offset overflows"@)),
                                )
                            } else {
                                global_members_spec(
                                    object,
                                    references,
                                    base,
                                    fields,
                                    items,
                                    index + 1,
                                    (start + size) as usize,
                                    location,
                                )
                            },
                        },
                    }
                }
            },
        }
    }
}

/// An object with static storage while its initializer is written.
pub struct ObjectWriter<'a> {
    pub bytes: Vec<u8>,
    pub relocations: Vec<RelocationArtifact>,
    /// The linkage names that initializers may refer to.
    pub names: &'a HashMap<u32, String>,
    /// The string literals that initializers may refer to.
    pub strings: &'a Vec<Vec<u8>>,
}

impl View for ObjectWriter<'_> {
    type V = ObjectState;

    open spec fn view(&self) -> ObjectState {
        ObjectState {
            bytes: self.bytes@,
            relocations: relocations_view(self.relocations@),
        }
    }
}

impl<'a> ObjectWriter<'a> {
    /// What initializers refer to.
    pub open spec fn references(&self) -> References {
        References { names: names_view(self.names@), strings: pool_view(self.strings@) }
    }

    /// Writes `value` at `offset`.
    fn place(&mut self, offset: usize, value: &Vec<u8>, overflow: &str, outside: &str) -> (result:
        Result<(), Error>)
        ensures
            (final(self)@, outcome(result)) == placed(
                old(self)@,
                offset,
                value@,
                overflow@,
                outside@,
            ),
            final(self).references() == old(self).references(),
    {
        let end: usize = match offset.checked_add(value.len()) {
            Some(end) => end,
            None => {
                return Err(codegen(overflow));
            },
        };
        if end > self.bytes.len() {
            return Err(codegen(outside));
        }
        let ghost before = self.bytes@;
        let mut index: usize = 0;
        while index < value.len()
            invariant
                index <= value@.len(),
                end == offset + value@.len(),
                end <= before.len(),
                before == old(self)@.bytes,
                self.bytes@ == overwritten(before, offset as int, value@.take(index as int)),
                self.relocations == old(self).relocations,
                self.names == old(self).names,
                self.strings == old(self).strings,
            decreases value@.len() - index,
        {
            self.bytes.set(offset + index, value[index]);
            index += 1;
            assert(self.bytes@ =~= overwritten(before, offset as int, value@.take(index as int)));
        }
        assert(value@.take(index as int) =~= value@);
        assert(self.bytes@ =~= overwritten(before, offset as int, value@));
        Ok(())
    }

    /// Adds a relocation at `offset`.
    fn relocate(&mut self, offset: usize, target: String, addend: i64) -> (result: Result<
        (),
        Error,
    >)
        ensures
            (final(self)@, outcome(result)) == relocated(old(self)@, offset, target@, addend),
            final(self).references() == old(self).references(),
    {
        if offset as u64 > 0xffff_ffff {
            return Err(codegen("data relocation offset overflows"));
        }
        let ghost before = self.relocations@;
        let relocation = RelocationArtifact { offset: offset as u32, target, addend };
        self.relocations.push(relocation);
        assert(relocations_view(self.relocations@) =~= relocations_view(before).push(
            relocation@,
        ));
        Ok(())
    }

    /// Writes a link-time address at `offset`.
    fn place_address(&mut self, offset: usize, target: AddressTarget) -> (result: Result<
        (),
        Error,
    >)
        ensures
            (final(self)@, outcome(result)) == address_at(old(self)@, offset, target@),
            final(self).references() == old(self).references(),
    {
        if offset as u64 > 0xffff_ffff {
            return Err(codegen("data relocation offset overflows"));
        }
        match offset.checked_add(4) {
            None => Err(codegen("data relocation offset overflows")),
            Some(end) => {
                if end > self.bytes.len() {
                    return Err(codegen("data relocation exceeds global object"));
                }
                self.relocate(offset, target.name, target.addend)
            },
        }
    }

    /// Writes a constant at `offset`.
    fn place_constant(
        &mut self,
        offset: usize,
        ctype: &Type,
        scalar: &ScalarInitializer,
        location: Location,
    ) -> (result: Result<(), Error>)
        ensures
            (final(self)@, outcome(result)) == constant_at(
                old(self)@,
                offset,
                *ctype,
                *scalar,
                location,
            ),
            final(self).references() == old(self).references(),
    {
        let value = scalar_initializer_bytes(scalar, ctype, location)?;
        self.place(
            offset,
            &value,
            "global initializer offset overflows",
            "global initializer exceeds object size",
        )
    }

    /// Writes a scalar at `offset`.
    fn place_scalar(
        &mut self,
        offset: usize,
        ctype: &Type,
        scalar: &ScalarInitializer,
        location: Location,
    ) -> (result: Result<(), Error>)
        ensures
            (final(self)@, outcome(result)) == scalar_spec(
                old(self)@,
                old(self).references(),
                offset,
                *ctype,
                *scalar,
                location,
            ),
            final(self).references() == old(self).references(),
    {
        if matches!(ctype.kind, TypeKind::Pointer(_) | TypeKind::Function(_)) {
            if let Some(bytes) = string_address_literal(&scalar.expression) {
                return match find_string(self.strings, bytes.as_slice()) {
                    None => Err(codegen("string literal missing from translation-unit pool")),
                    Some(index) => self.relocate(offset, string_symbol_name(index), 0),
                };
            }
            if let Some(target) = static_address_target(&scalar.expression, self.names)? {
                return self.place_address(offset, target);
            }
        }
        self.place_constant(offset, ctype, scalar, location)
    }

    /// Writes an object or scalar of the type at `base`.
    ///
    /// Storage is zero-filled before explicit initializer writes, so a gap
    /// that designated initializers leave needs no write.
    pub fn write_global_initializer(
        &mut self,
        base: usize,
        ctype: &Type,
        length: Option<u64>,
        initializer: &Initializer,
        location: Location,
    ) -> (result: Result<(), Error>)
        ensures
            (final(self)@, outcome(result)) == global_spec(
                old(self)@,
                old(self).references(),
                base,
                *ctype,
                length,
                *initializer,
                location,
            ),
            final(self).references() == old(self).references(),
        decreases initializer, 0nat,
    {
        match initializer {
            Initializer::Zero => Ok(()),
            Initializer::Scalar(scalar) => {
                if ctype.scalar {
                    return self.place_scalar(base, ctype, scalar, location);
                }
                match character_array_string(ctype, &scalar.expression) {
                    Some(string) => self.place(
                        base,
                        string,
                        "string initializer offset overflows",
                        "string initializer exceeds array",
                    ),
                    None => Err(
                        unsupported(
                            location,
                            "aggregate global scalar initialization requires aggregate-copy lowering",
                        ),
                    ),
                }
            },
            Initializer::InitializerList(items) => {
                if ctype.scalar {
                    if items.len() != 1 {
                        return Err(
                            unsupported(
                                location,
                                "scalar global initializer list must contain exactly one element",
                            ),
                        );
                    }
                    return self.write_global_initializer(base, ctype, None, &items[0], location);
                }
                self.write_global_list(base, ctype, length, items, initializer, location)
            },
            Initializer::FunctionBody(_) => Err(
                unsupported(location, "function body cannot initialize a global data object"),
            ),
        }
    }

    /// Writes the object that a list initializes at `base`.
    fn write_global_list(
        &mut self,
        base: usize,
        ctype: &Type,
        length: Option<u64>,
        items: &Vec<Initializer>,
        initializer: &Initializer,
        location: Location,
    ) -> (result: Result<(), Error>)
        requires
            *initializer == Initializer::InitializerList(*items),
            !ctype.scalar,
        ensures
            (final(self)@, outcome(result)) == global_spec(
                old(self)@,
                old(self).references(),
                base,
                *ctype,
                length,
                *initializer,
                location,
            ),
            final(self).references() == old(self).references(),
        decreases items@, items@.len() + 2,
    {
        match (&ctype.kind, length_of_array(ctype, length)) {
            (TypeKind::Array(element, _), Some(count)) => {
                if items.len() as u64 > count {
                    return Err(
                        unsupported(location, "too many elements in global array initializer"),
                    );
                }
                let size: usize = to_host_size(
                    size_of_type(element, location),
                    location,
                    "global array element is too large",
                )?;
                self.write_global_elements(base, element, size, items, location)
            },
            (TypeKind::Struct(fields), _) => {
                if items.len() > fields.len() {
                    return Err(
                        unsupported(location, "too many elements in global struct initializer"),
                    );
                }
                self.write_global_members(base, fields, items, location)
            },
            (TypeKind::Union(fields), _) => {
                if items.len() > 1 {
                    return Err(
                        unsupported(location, "too many elements in local union initializer"),
                    );
                }
                if items.len() == 0 {
                    return Ok(());
                }
                if fields.len() == 0 {
                    return Err(unsupported(location, "union has no initializable member"));
                }
                self.write_global_initializer(base, &fields[0].ctype, None, &items[0], location)
            },
            _ => Err(unsupported(location, "unsupported global aggregate initializer shape")),
        }
    }

    /// Writes the elements of an array.
    fn write_global_elements(
        &mut self,
        base: usize,
        element: &Type,
        element_size: usize,
        items: &Vec<Initializer>,
        location: Location,
    ) -> (result: Result<(), Error>)
        ensures
            (final(self)@, outcome(result)) == global_elements_spec(
                old(self)@,
                old(self).references(),
                base,
                *element,
                element_size,
                items@,
                0,
                location,
            ),
            final(self).references() == old(self).references(),
        decreases items@, items@.len() + 1,
    {
        let ghost references = self.references();
        let ghost start = self@;
        let mut index: usize = 0;
        while index < items.len()
            invariant
                index <= items@.len(),
                start == old(self)@,
                references == old(self).references(),
                self.references() == references,
                global_elements_spec(
                    self@,
                    references,
                    base,
                    *element,
                    element_size,
                    items@,
                    index as nat,
                    location,
                ) == global_elements_spec(
                    start,
                    references,
                    base,
                    *element,
                    element_size,
                    items@,
                    0,
                    location,
                ),
            decreases items@.len() - index,
        {
            assert(index * element_size >= 0) by (nonlinear_arith);
            let offset: usize = match index.checked_mul(element_size) {
                Some(delta) => match base.checked_add(delta) {
                    Some(offset) => offset,
                    None => {
                        return Err(codegen("global array initializer offset overflows"));
                    },
                },
                None => {
                    return Err(codegen("global array initializer offset overflows"));
                },
            };
            self.write_global_initializer(offset, element, None, &items[index], location)?;
            index += 1;
        }
        Ok(())
    }

    /// Writes the members of a struct.
    fn write_global_members(
        &mut self,
        base: usize,
        fields: &Vec<Field>,
        items: &Vec<Initializer>,
        location: Location,
    ) -> (result: Result<(), Error>)
        ensures
            (final(self)@, outcome(result)) == global_members_spec(
                old(self)@,
                old(self).references(),
                base,
                fields@,
                items@,
                0,
                0,
                location,
            ),
            final(self).references() == old(self).references(),
        decreases items@, items@.len() + 1,
    {
        let ghost references = self.references();
        let ghost start = self@;
        let mut offset: usize = 0;
        let mut index: usize = 0;
        while index < items.len() && index < fields.len()
            invariant
                index <= items@.len(),
                start == old(self)@,
                references == old(self).references(),
                self.references() == references,
                global_members_spec(
                    self@,
                    references,
                    base,
                    fields@,
                    items@,
                    index as nat,
                    offset,
                    location,
                ) == global_members_spec(
                    start,
                    references,
                    base,
                    fields@,
                    items@,
                    0,
                    0,
                    location,
                ),
            decreases items@.len() - index,
        {
            let ctype = &fields[index].ctype;
            let align: usize = to_host_size(
                align_of_type(ctype, location),
                location,
                "struct field alignment is too large",
            )?;
            offset = pad(offset, align);
            let field_offset: usize = match base.checked_add(offset) {
                Some(field_offset) => field_offset,
                None => {
                    return Err(codegen("global struct offset overflows"));
                },
            };
            self.write_global_initializer(field_offset, ctype, None, &items[index], location)?;
            let size: usize = to_host_size(
                size_of_type(ctype, location),
                location,
                "struct field is too large",
            )?;
            offset = match offset.checked_add(size) {
                Some(end) => end,
                None => {
                    return Err(codegen("global struct offset overflows"));
                },
            };
            index += 1;
        }
        Ok(())
    }
}

} // verus!
