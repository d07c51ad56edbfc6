//! What the initializers of objects with static storage leave in them.

use crate::bundle::RelocationView;
use crate::bundle::decode::le_value;
use crate::bundle::encode::le_bytes;
use crate::bundle::laws::{limit, number_length};
use crate::error::{ErrorView, Location};
use crate::hir::{
    Expr, ExprType, Field, Initializer, LiteralValue, ScalarInitializer, Type, TypeKind,
};
use crate::lower::init_model::string_for_array;
use crate::lower::layout_laws::{a_member_lies_where_it_is_laid_out, first_named, laid_out};
use crate::lower::state::pool_position;
use crate::unit::data::{
    address_target_spec, constant_value, global_spec, overwritten, scalar_bytes_spec,
    string_address, AddressTargetView, ObjectState, References,
};
use crate::unit::strings::string_symbol;
use vstd::arithmetic::div_mod::{
    lemma_fundamental_div_mod, lemma_fundamental_div_mod_converse, lemma_mod_multiples_basic,
    lemma_mod_multiples_vanish,
};
use vstd::prelude::*;

verus! {

/// The number in the bytes of a number is the number, modulo what so many
/// bytes can hold.
pub proof fn bytes_hold_the_number(value: nat, width: nat)
    ensures
        le_bytes(value, width).len() == width,
        limit(width) > 0,
        le_value(le_bytes(value, width)) == value % limit(width),
    decreases width,
{
    number_length(value, width);
    if width > 0 {
        let rest = (width - 1) as nat;
        bytes_hold_the_number(value / 256, rest);
        assert(le_bytes(value, width).drop_first() =~= le_bytes(value / 256, rest));
        let l = limit(rest) as int;
        let v = value as int;
        lemma_fundamental_div_mod(v, 256);
        lemma_fundamental_div_mod(v / 256, l);
        let low = v % 256;
        let high = (v / 256) % l;
        let top = (v / 256) / l;
        assert(v == 256 * l * top + (256 * high + low)) by (nonlinear_arith)
            requires
                v == 256 * (v / 256) + low,
                v / 256 == l * top + high,
        ;
        assert(0 <= 256 * high + low < 256 * l);
        lemma_fundamental_div_mod_converse(v, 256 * l, top, 256 * high + low);
    }
}

/// The number of a constant: an integer or a character.
pub open spec fn constant_number(expression: Expr) -> Option<int> {
    match expression.expr {
        ExprType::Literal(LiteralValue::Int(value)) => Some(value as int),
        ExprType::Literal(LiteralValue::UnsignedInt(value)) => Some(value as int),
        ExprType::Literal(LiteralValue::Char(value)) => Some(value as int),
        _ => None,
    }
}

/// What a run of bytes can hold is what its two parts can hold, multiplied.
proof fn limits_multiply(first: nat, second: nat)
    ensures
        limit(second) > 0,
        limit(first + second) == limit(first) * limit(second),
    decreases first + second,
{
    if first > 0 {
        limits_multiply((first - 1) as nat, second);
        let a = limit((first - 1) as nat);
        let b = limit(second);
        let rest: nat = (first + second - 1) as nat;
        assert(rest == (first - 1) as nat + second);
        assert(limit(first + second) == 256 * limit(rest));
        assert(256 * (a * b) == (256 * a) * b) by (nonlinear_arith);
        assert(limit(first) * b == (256 * a) * b);
    } else {
        if second > 0 {
            limits_multiply(0, (second - 1) as nat);
        }
        let b = limit(second);
        assert(1 * b == b) by (nonlinear_arith);
        assert(limit(first) * b == 1 * b);
    }
}

/// So many bytes count up to a divisor of what eight bytes count up to.
proof fn limits_divide(width: nat)
    requires
        width <= 8,
    ensures
        limit(width) > 0,
        limit(8) == 0x1_0000_0000_0000_0000,
        limit(8) as int % limit(width) as int == 0,
{
    reveal_with_fuel(limit, 9);
    limits_multiply((8 - width) as nat, width);
    lemma_mod_multiples_basic(limit((8 - width) as nat) as int, limit(width) as int);
}

/// A number and its bit pattern in 64 bits agree modulo what up to eight bytes
/// can hold.
proof fn patterns_agree(value: i64, width: nat)
    requires
        width <= 8,
    ensures
        (value as u64) as int % limit(width) as int == value as int % limit(width) as int,
{
    limits_divide(width);
    let whole = limit(8) as int;
    let l = limit(width) as int;
    if value < 0 {
        assert((value as u64) == value + 0x1_0000_0000_0000_0000) by (bit_vector)
            requires
                value < 0,
        ;
        lemma_fundamental_div_mod(whole, l);
        lemma_mod_multiples_vanish(whole / l, value as int, l);
        assert(value as u64 as int == l * (whole / l) + value);
    }
}

/// The bytes of an object from `base` on.
pub open spec fn part(object: ObjectState, base: int, width: int) -> Seq<u8> {
    object.bytes.subrange(base, base + width)
}

/// A constant scalar stands in its object with the lowest byte first, at its
/// own width, and nothing else changes.
pub proof fn a_constant_stands_in_its_object(
    object: ObjectState,
    references: References,
    base: usize,
    ctype: Type,
    length: Option<u64>,
    initializer: Initializer,
    scalar: ScalarInitializer,
    folded: Expr,
    width: u64,
    location: Location,
)
    requires
        initializer matches Initializer::Scalar(of) && *of == scalar,
        ctype.scalar,
        (ctype.kind is Pointer || ctype.kind is Function) ==> (string_address(scalar.expression)
            is None && address_target_spec(scalar.expression, references.names) == Ok::<
            Option<AddressTargetView>,
            ErrorView,
        >(None)),
        ctype.size == Ok::<u64, String>(width),
        scalar.folded matches Ok(of) && of == folded,
        constant_number(folded) is Some,
        constant_number(folded)->0 < 0 ==> width <= 8,
        base + width <= object.bytes.len() <= usize::MAX,
    ensures
        ({
            let (after, done) = global_spec(
                object,
                references,
                base,
                ctype,
                length,
                initializer,
                location,
            );
            &&& done is Ok
            &&& after.bytes.len() == object.bytes.len()
            &&& le_value(part(after, base as int, width as int)) == constant_number(
                folded,
            )->0 % limit(width as nat) as int
            &&& forall|i: int|
                0 <= i < object.bytes.len() && !(base <= i < base + width)
                    ==> #[trigger] after.bytes[i] == object.bytes[i]
            &&& after.relocations == object.relocations
        }),
{
    let value = constant_value(folded, scalar.folded_is_zero);
    if let ExprType::Literal(LiteralValue::Int(number)) = folded.expr {
        if number < 0 {
            patterns_agree(number, width as nat);
        }
    }
    bytes_hold_the_number(value->Ok_0, width as nat);
    let bytes = le_bytes(value->Ok_0, width as nat);
    let (after, done) = global_spec(object, references, base, ctype, length, initializer, location);
    assert(scalar_bytes_spec(scalar, ctype, location) == Ok::<Seq<u8>, ErrorView>(bytes));
    assert(after.bytes == overwritten(object.bytes, base as int, bytes));
    assert(part(after, base as int, width as int) =~= bytes);
}

proof fn found_at_its_position(pool: Seq<Seq<u8>>, bytes: Seq<u8>, from: nat)
    requires
        pool.len() <= usize::MAX,
    ensures
        pool_position(pool, bytes, from) matches Some(index) ==> index < pool.len()
            && pool[index as int] == bytes,
    decreases pool.len() - from,
{
    if from < pool.len() && pool[from as int] != bytes {
        found_at_its_position(pool, bytes, from + 1);
    }
}

/// A pointer that is a string literal refers to the object of a literal with
/// the same bytes, at its start.
pub proof fn a_pointer_refers_to_its_string(
    object: ObjectState,
    references: References,
    base: usize,
    ctype: Type,
    length: Option<u64>,
    initializer: Initializer,
    bytes: Vec<u8>,
    location: Location,
)
    requires
        initializer matches Initializer::Scalar(of) && of.expression.expr == ExprType::Literal(
            LiteralValue::Str(bytes),
        ),
        ctype.scalar,
        ctype.kind is Pointer,
        base <= u32::MAX,
        references.strings.len() <= usize::MAX,
        pool_position(references.strings, bytes@, 0) is Some,
    ensures
        ({
            let (after, done) = global_spec(
                object,
                references,
                base,
                ctype,
                length,
                initializer,
                location,
            );
            &&& done is Ok
            &&& after.bytes == object.bytes
            &&& exists|index: nat|
                {
                    &&& index < references.strings.len()
                    &&& references.strings[index as int] == bytes@
                    &&& after.relocations == object.relocations.push(
                        RelocationView {
                            offset: base as u32,
                            target: #[trigger] string_symbol(index),
                            addend: 0,
                        },
                    )
                }
        }),
{
    found_at_its_position(references.strings, bytes@, 0);
    let index = pool_position(references.strings, bytes@, 0)->0 as nat;
    let (after, done) = global_spec(object, references, base, ctype, length, initializer, location);
    assert(after.relocations == object.relocations.push(
        RelocationView { offset: base as u32, target: string_symbol(index), addend: 0 },
    ));
}

/// A pointer that is the address of an object with static storage refers to
/// the object, and one that is the address of a member of it to where the
/// member lies.
pub proof fn a_pointer_refers_to_its_object(
    object: ObjectState,
    references: References,
    base: usize,
    ctype: Type,
    length: Option<u64>,
    initializer: Initializer,
    expression: Expr,
    key: u32,
    location: Location,
)
    requires
        initializer matches Initializer::Scalar(of) && of.expression == expression,
        expression.expr matches ExprType::StaticRef(of) && (of.expr matches ExprType::Id(symbol)
            && symbol.key == key),
        ctype.scalar,
        ctype.kind is Pointer,
        references.names.contains_key(key),
        base + 4 <= object.bytes.len() <= u32::MAX,
        base + 4 <= usize::MAX,
    ensures
        global_spec(object, references, base, ctype, length, initializer, location) == (
            ObjectState {
                relocations: object.relocations.push(
                    RelocationView {
                        offset: base as u32,
                        target: references.names[key],
                        addend: 0,
                    },
                ),
                ..object
            },
            Ok::<(), ErrorView>(()),
        ),
{
}

/// The address of a member of an object with static storage is the object's
/// plus the member's offset, as it is laid out.
pub proof fn a_member_address_is_linked(
    expression: Expr,
    base: Expr,
    key: u32,
    fields: Vec<Field>,
    starts: Seq<int>,
    index: int,
    names: Map<u32, Seq<char>>,
)
    requires
        expression.expr matches ExprType::StaticRef(of) && (of.expr matches ExprType::Member(
            from,
            member,
        ) && *from == base && member == fields@[index].id),
        base.expr matches ExprType::Id(symbol) && symbol.key == key,
        base.ctype.kind == TypeKind::Struct(fields),
        laid_out(fields@, starts),
        first_named(fields@, index),
        starts[index] <= i64::MAX,
        names.contains_key(key),
    ensures
        address_target_spec(expression, names) matches Ok(Some(target)) && target.name
            == names[key] && target.addend == starts[index],
{
    a_member_lies_where_it_is_laid_out(base.ctype, fields, starts, index, base.location);
}

/// A string that initializes an array of characters stands in it byte for
/// byte, and nothing else changes.
pub proof fn a_string_stands_in_its_array(
    object: ObjectState,
    references: References,
    base: usize,
    ctype: Type,
    length: Option<u64>,
    initializer: Initializer,
    expression: Expr,
    string: Seq<u8>,
    location: Location,
)
    requires
        initializer matches Initializer::Scalar(of) && of.expression == expression,
        !ctype.scalar,
        string_for_array(ctype, expression) == Some(string),
        base + string.len() <= object.bytes.len() <= usize::MAX,
    ensures
        ({
            let (after, done) = global_spec(
                object,
                references,
                base,
                ctype,
                length,
                initializer,
                location,
            );
            &&& done is Ok
            &&& part(after, base as int, string.len() as int) == string
            &&& forall|i: int|
                0 <= i < object.bytes.len() && !(base <= i < base + string.len())
                    ==> #[trigger] after.bytes[i] == object.bytes[i]
            &&& after.relocations == object.relocations
        }),
{
    let (after, done) = global_spec(object, references, base, ctype, length, initializer, location);
    assert(after.bytes == overwritten(object.bytes, base as int, string));
    assert(part(after, base as int, string.len() as int) =~= string);
}

/// The initializer of a union with static storage initializes its first
/// member, at its start; braces around the initializer of a scalar change
/// nothing; a gap leaves the object as it is.
pub proof fn other_initializers_go_to_their_parts(
    object: ObjectState,
    references: References,
    base: usize,
    ctype: Type,
    length: Option<u64>,
    items: Vec<Initializer>,
    location: Location,
)
    ensures
        global_spec(object, references, base, ctype, length, Initializer::Zero, location) == (
            object,
            Ok::<(), ErrorView>(()),
        ),
        ctype.scalar && items@.len() == 1 ==> global_spec(
            object,
            references,
            base,
            ctype,
            length,
            Initializer::InitializerList(items),
            location,
        ) == global_spec(object, references, base, ctype, None, items@[0], location),
        (ctype.kind matches TypeKind::Union(fields) ==> (!ctype.scalar && fields@.len() > 0
            && items@.len() == 1 ==> global_spec(
            object,
            references,
            base,
            ctype,
            length,
            Initializer::InitializerList(items),
            location,
        ) == global_spec(
            object,
            references,
            base,
            fields@[0].ctype,
            None,
            items@[0],
            location,
        ))),
{
}

} // verus!
