//! What holds between writing and reading bundles.

use crate::bundle::decode::{
    block_spec, contents_spec, decoded, flag_spec, function_name_fields, function_spec,
    functions_from, head_spec, le_value, number_spec, object_name_fields, object_spec, objects_from,
    relocation_list_spec, relocation_prefix, relocation_spec, relocations_from, take_spec,
    target_fields, text_spec, Parsed, TextFields,
};
use crate::bundle::encode::{
    block_bytes, bundle_bytes, encoded, function_bytes, function_excess, functions_bytes,
    functions_excess, le_bytes, magic, name_bytes, object_bytes, object_excess, objects_bytes,
    objects_excess, relocation_bytes, relocation_list_bytes, relocations_bytes, relocations_excess,
};
use crate::bundle::{problem, BUNDLE_VERSION, ArtifactView, DataView, FunctionView, RelocationView};
use crate::error::ErrorView;
use vstd::prelude::*;
use vstd::utf8::{
    decode_utf8_encode_utf8, encode_utf8, encode_utf8_decode_utf8, encode_utf8_valid_utf8,
    valid_utf8,
};

verus! {

/// Two hundred and fifty-six to the `width`.
pub open spec fn limit(width: nat) -> nat
    decreases width,
{
    if width == 0 {
        1
    } else {
        256 * limit((width - 1) as nat)
    }
}

/// The bytes of a number that fits give the number back.
proof fn number_round_trip(value: nat, width: nat)
    requires
        value < limit(width),
    ensures
        le_bytes(value, width).len() == width,
        le_value(le_bytes(value, width)) == value,
    decreases width,
{
    if width > 0 {
        number_round_trip(value / 256, (width - 1) as nat);
        assert(le_bytes(value, width).drop_first() =~= le_bytes(value / 256, (width - 1) as nat));
    }
}

/// The bytes of a number are as many as they were meant to be.
pub proof fn number_length(value: nat, width: nat)
    ensures
        le_bytes(value, width).len() == width,
    decreases width,
{
    if width > 0 {
        number_length(value / 256, (width - 1) as nat);
    }
}

/// Whether `part` stands at `cursor`, in bytes that a machine can hold.
spec fn stands(bytes: Seq<u8>, cursor: nat, part: Seq<u8>) -> bool {
    &&& bytes.len() <= usize::MAX
    &&& cursor + part.len() <= bytes.len()
    &&& bytes.subrange(cursor as int, (cursor + part.len()) as int) == part
}

/// What stands at a place stands there in two parts.
proof fn stands_split(bytes: Seq<u8>, cursor: nat, first: Seq<u8>, second: Seq<u8>)
    requires
        stands(bytes, cursor, first + second),
    ensures
        stands(bytes, cursor, first),
        stands(bytes, cursor + first.len(), second),
{
    let whole = first + second;
    assert(bytes.subrange(cursor as int, (cursor + first.len()) as int) =~= whole.subrange(
        0,
        first.len() as int,
    ));
    assert(whole.subrange(0, first.len() as int) =~= first);
    assert(bytes.subrange(
        (cursor + first.len()) as int,
        (cursor + first.len() + second.len()) as int,
    ) =~= whole.subrange(first.len() as int, whole.len() as int));
    assert(whole.subrange(first.len() as int, whole.len() as int) =~= second);
}

/// A number that stands at a place is read from there.
proof fn number_read(bytes: Seq<u8>, cursor: nat, value: nat, width: nat, field: Seq<char>)
    requires
        stands(bytes, cursor, le_bytes(value, width)),
        value < limit(width),
    ensures
        number_spec(bytes, cursor, width, field) == Ok::<(nat, nat), ErrorView>(
            (value, cursor + width),
        ),
{
    number_round_trip(value, width);
}

/// A text that stands at a place is read from there.
proof fn text_read(bytes: Seq<u8>, cursor: nat, name: Seq<char>, fields: TextFields)
    requires
        stands(bytes, cursor, name_bytes(name)),
        encode_utf8(name).len() <= u16::MAX,
    ensures
        text_spec(bytes, cursor, fields) == Ok::<(Seq<char>, nat), ErrorView>(
            (name, cursor + name_bytes(name).len()),
        ),
{
    let text = encode_utf8(name);
    reveal_with_fuel(limit, 3);
    number_length(text.len(), 2);
    stands_split(bytes, cursor, le_bytes(text.len(), 2), text);
    number_read(bytes, cursor, text.len(), 2, fields.length);
    encode_utf8_valid_utf8(name);
    encode_utf8_decode_utf8(name);
}

/// Sixty-four bits read as signed give back what was written.
proof fn addend_round_trip(addend: i64)
    ensures
        addend as u64 as i64 == addend,
{
    assert(addend as u64 as i64 == addend) by (bit_vector);
}

/// A relocation that stands at a place is read from there.
proof fn relocation_read(bytes: Seq<u8>, cursor: nat, relocation: RelocationView, in_data: bool)
    requires
        stands(bytes, cursor, relocation_bytes(relocation)),
        encode_utf8(relocation.target).len() <= u16::MAX,
    ensures
        relocation_spec(bytes, cursor, in_data) == Ok::<(RelocationView, nat), ErrorView>(
            (relocation, cursor + relocation_bytes(relocation).len()),
        ),
{
    let offset = le_bytes(relocation.offset as nat, 4);
    let addend = le_bytes(relocation.addend as u64 as nat, 8);
    let target = name_bytes(relocation.target);
    reveal_with_fuel(limit, 9);
    number_length(relocation.offset as nat, 4);
    number_length(relocation.addend as u64 as nat, 8);
    addend_round_trip(relocation.addend);
    stands_split(bytes, cursor, offset + addend, target);
    stands_split(bytes, cursor, offset, addend);
    number_read(
        bytes,
        cursor,
        relocation.offset as nat,
        4,
        relocation_prefix(in_data) + "offset"@,
    );
    number_read(
        bytes,
        cursor + 4,
        relocation.addend as u64 as nat,
        8,
        relocation_prefix(in_data) + "addend"@,
    );
    text_read(bytes, cursor + 12, relocation.target, target_fields(in_data));
}

/// The relocations from `index` on are read from where they stand.
proof fn relocations_read(
    bytes: Seq<u8>,
    cursor: nat,
    relocations: Seq<RelocationView>,
    index: nat,
    in_data: bool,
)
    requires
        index <= relocations.len(),
        stands(bytes, cursor, relocations_bytes(relocations, index)),
        relocations_excess(relocations, index) is None,
    ensures
        relocations_from(
            bytes,
            cursor,
            (relocations.len() - index) as nat,
            in_data,
            relocations.take(index as int),
        ) == Ok::<(Seq<RelocationView>, nat), ErrorView>(
            (relocations, cursor + relocations_bytes(relocations, index).len()),
        ),
    decreases relocations.len() - index,
{
    if index < relocations.len() {
        let first = relocation_bytes(relocations[index as int]);
        let rest = relocations_bytes(relocations, index + 1);
        stands_split(bytes, cursor, first, rest);
        relocation_read(bytes, cursor, relocations[index as int], in_data);
        relocations_read(bytes, cursor + first.len(), relocations, index + 1, in_data);
        assert(relocations.take(index as int).push(relocations[index as int])
            =~= relocations.take(index as int + 1));
    } else {
        assert(relocations.take(index as int) =~= relocations);
    }
}

/// A list of relocations is read from where it stands.
proof fn relocation_list_read(
    bytes: Seq<u8>,
    cursor: nat,
    relocations: Seq<RelocationView>,
    in_data: bool,
)
    requires
        stands(bytes, cursor, relocation_list_bytes(relocations)),
        relocations.len() <= u16::MAX,
        relocations_excess(relocations, 0) is None,
    ensures
        relocation_list_spec(bytes, cursor, in_data) == Ok::<
            (Seq<RelocationView>, nat),
            ErrorView,
        >((relocations, cursor + relocation_list_bytes(relocations).len())),
{
    reveal_with_fuel(limit, 3);
    number_length(relocations.len(), 2);
    stands_split(bytes, cursor, le_bytes(relocations.len(), 2), relocations_bytes(relocations, 0));
    number_read(
        bytes,
        cursor,
        relocations.len(),
        2,
        if in_data {
            "data relocation count"@
        } else {
            "function relocation count"@
        },
    );
    relocations_read(bytes, cursor + 2, relocations, 0, in_data);
    assert(relocations.take(0) =~= Seq::empty());
}

/// Counted bytes are read from where they stand.
proof fn block_read(
    bytes: Seq<u8>,
    cursor: nat,
    block: Seq<u8>,
    length_field: Seq<char>,
    field: Seq<char>,
)
    requires
        stands(bytes, cursor, block_bytes(block)),
        block.len() <= u32::MAX,
    ensures
        block_spec(bytes, cursor, length_field, field) == Ok::<(Seq<u8>, nat), ErrorView>(
            (block, cursor + block_bytes(block).len()),
        ),
{
    reveal_with_fuel(limit, 5);
    number_length(block.len(), 4);
    stands_split(bytes, cursor, le_bytes(block.len(), 4), block);
    number_read(bytes, cursor, block.len(), 4, length_field);
}

/// A function is read from where it stands.
proof fn function_read(bytes: Seq<u8>, cursor: nat, function: FunctionView)
    requires
        stands(bytes, cursor, function_bytes(function)),
        function_excess(function) is None,
    ensures
        function_spec(bytes, cursor) == Ok::<(FunctionView, nat), ErrorView>(
            (function, cursor + function_bytes(function).len()),
        ),
{
    let name = name_bytes(function.name);
    let code = block_bytes(function.code);
    let relocations = relocation_list_bytes(function.relocations);
    stands_split(bytes, cursor, name + code, relocations);
    stands_split(bytes, cursor, name, code);
    text_read(bytes, cursor, function.name, function_name_fields());
    block_read(
        bytes,
        cursor + name.len(),
        function.code,
        "function code length"@,
        "function code"@,
    );
    relocation_list_read(
        bytes,
        cursor + name.len() + code.len(),
        function.relocations,
        false,
    );
}

/// The functions from `index` on are read from where they stand.
proof fn functions_read(bytes: Seq<u8>, cursor: nat, functions: Seq<FunctionView>, index: nat)
    requires
        index <= functions.len(),
        stands(bytes, cursor, functions_bytes(functions, index)),
        functions_excess(functions, index) is None,
    ensures
        functions_from(
            bytes,
            cursor,
            (functions.len() - index) as nat,
            functions.take(index as int),
        ) == Ok::<(Seq<FunctionView>, nat), ErrorView>(
            (functions, cursor + functions_bytes(functions, index).len()),
        ),
    decreases functions.len() - index,
{
    if index < functions.len() {
        let first = function_bytes(functions[index as int]);
        let rest = functions_bytes(functions, index + 1);
        stands_split(bytes, cursor, first, rest);
        function_read(bytes, cursor, functions[index as int]);
        functions_read(bytes, cursor + first.len(), functions, index + 1);
        assert(functions.take(index as int).push(functions[index as int]) =~= functions.take(
            index as int + 1,
        ));
    } else {
        assert(functions.take(index as int) =~= functions);
    }
}

/// A data object is read from where it stands.
proof fn object_read(bytes: Seq<u8>, cursor: nat, object: DataView)
    requires
        stands(bytes, cursor, object_bytes(object)),
        object_excess(object) is None,
    ensures
        object_spec(bytes, cursor) == Ok::<(DataView, nat), ErrorView>(
            (object, cursor + object_bytes(object).len()),
        ),
{
    let name = name_bytes(object.name);
    let align = le_bytes(object.align as nat, 4);
    let value: nat = if object.read_only {
        1
    } else {
        0
    };
    let flag = seq![
        if object.read_only {
            1u8
        } else {
            0u8
        },
    ];
    let block = block_bytes(object.bytes);
    let relocations = relocation_list_bytes(object.relocations);
    reveal_with_fuel(limit, 5);
    number_length(object.align as nat, 4);
    reveal_with_fuel(le_bytes, 2);
    assert(flag =~= le_bytes(value, 1));
    stands_split(bytes, cursor, name + align + flag + block, relocations);
    stands_split(bytes, cursor, name + align + flag, block);
    stands_split(bytes, cursor, name + align, flag);
    stands_split(bytes, cursor, name, align);
    text_read(bytes, cursor, object.name, object_name_fields());
    number_read(bytes, cursor + name.len(), object.align as nat, 4, "data alignment"@);
    number_read(bytes, cursor + name.len() + 4, value, 1, "data read-only flag"@);
    block_read(bytes, cursor + name.len() + 5, object.bytes, "data length"@, "data bytes"@);
    relocation_list_read(
        bytes,
        cursor + name.len() + 5 + block.len(),
        object.relocations,
        true,
    );
}

/// The data objects from `index` on are read from where they stand.
proof fn objects_read(bytes: Seq<u8>, cursor: nat, data: Seq<DataView>, index: nat)
    requires
        index <= data.len(),
        stands(bytes, cursor, objects_bytes(data, index)),
        objects_excess(data, index) is None,
    ensures
        objects_from(bytes, cursor, (data.len() - index) as nat, data.take(index as int)) == Ok::<
            (Seq<DataView>, nat),
            ErrorView,
        >((data, cursor + objects_bytes(data, index).len())),
    decreases data.len() - index,
{
    if index < data.len() {
        let first = object_bytes(data[index as int]);
        let rest = objects_bytes(data, index + 1);
        stands_split(bytes, cursor, first, rest);
        object_read(bytes, cursor, data[index as int]);
        objects_read(bytes, cursor + first.len(), data, index + 1);
        assert(data.take(index as int).push(data[index as int]) =~= data.take(index as int + 1));
    } else {
        assert(data.take(index as int) =~= data);
    }
}

/// The head of a bundle is read from where it stands.
proof fn head_read(bytes: Seq<u8>)
    requires
        stands(bytes, 0, magic() + le_bytes(BUNDLE_VERSION as nat, 2)),
    ensures
        head_spec(bytes) == Ok::<((), nat), ErrorView>(((), 13)),
{
    reveal_with_fuel(limit, 3);
    stands_split(bytes, 0, magic(), le_bytes(BUNDLE_VERSION as nat, 2));
    number_read(bytes, 11, BUNDLE_VERSION as nat, 2, "version"@);
}

/// Counted functions are read from where they stand.
proof fn function_list_read(bytes: Seq<u8>, cursor: nat, functions: Seq<FunctionView>)
    requires
        stands(bytes, cursor, le_bytes(functions.len(), 2) + functions_bytes(functions, 0)),
        functions.len() <= u16::MAX,
        functions_excess(functions, 0) is None,
    ensures
        number_spec(bytes, cursor, 2, "function count"@) == Ok::<(nat, nat), ErrorView>(
            (functions.len(), cursor + 2),
        ),
        functions_from(bytes, cursor + 2, functions.len(), Seq::empty()) == Ok::<
            (Seq<FunctionView>, nat),
            ErrorView,
        >((functions, cursor + 2 + functions_bytes(functions, 0).len())),
{
    reveal_with_fuel(limit, 3);
    number_length(functions.len(), 2);
    stands_split(bytes, cursor, le_bytes(functions.len(), 2), functions_bytes(functions, 0));
    number_read(bytes, cursor, functions.len(), 2, "function count"@);
    functions_read(bytes, cursor + 2, functions, 0);
    assert(functions.take(0) =~= Seq::empty());
}

/// Counted data objects are read from where they stand.
proof fn object_list_read(bytes: Seq<u8>, cursor: nat, data: Seq<DataView>)
    requires
        stands(bytes, cursor, le_bytes(data.len(), 2) + objects_bytes(data, 0)),
        data.len() <= u16::MAX,
        objects_excess(data, 0) is None,
    ensures
        number_spec(bytes, cursor, 2, "data count"@) == Ok::<(nat, nat), ErrorView>(
            (data.len(), cursor + 2),
        ),
        objects_from(bytes, cursor + 2, data.len(), Seq::empty()) == Ok::<
            (Seq<DataView>, nat),
            ErrorView,
        >((data, cursor + 2 + objects_bytes(data, 0).len())),
{
    reveal_with_fuel(limit, 3);
    number_length(data.len(), 2);
    stands_split(bytes, cursor, le_bytes(data.len(), 2), objects_bytes(data, 0));
    number_read(bytes, cursor, data.len(), 2, "data count"@);
    objects_read(bytes, cursor + 2, data, 0);
    assert(data.take(0) =~= Seq::empty());
}

/// The parts of a bundle stand one after the other.
proof fn bundle_parts(artifact: ArtifactView)
    requires
        bundle_bytes(artifact).len() <= usize::MAX,
    ensures
        ({
            let bytes = bundle_bytes(artifact);
            let functions = le_bytes(artifact.functions.len(), 2) + functions_bytes(
                artifact.functions,
                0,
            );
            let data = le_bytes(artifact.data.len(), 2) + objects_bytes(artifact.data, 0);
            &&& stands(bytes, 0, magic() + le_bytes(BUNDLE_VERSION as nat, 2))
            &&& stands(bytes, 13, functions)
            &&& stands(bytes, 13 + functions.len(), data)
            &&& bytes.len() == 13 + functions.len() + data.len()
        }),
{
    let bytes = bundle_bytes(artifact);
    let head = magic() + le_bytes(BUNDLE_VERSION as nat, 2);
    let functions = le_bytes(artifact.functions.len(), 2) + functions_bytes(artifact.functions, 0);
    let data = le_bytes(artifact.data.len(), 2) + objects_bytes(artifact.data, 0);
    number_length(BUNDLE_VERSION as nat, 2);
    assert(bytes =~= head + functions + data);
    assert(bytes.subrange(0, bytes.len() as int) =~= bytes);
    stands_split(bytes, 0, head + functions, data);
    stands_split(bytes, 0, head, functions);
}

/// Reading what was written gives the bundle back: every bundle that
/// [`Artifact::to_bytes`](crate::bundle::Artifact::to_bytes) accepts is what
/// [`Artifact::from_bytes`](crate::bundle::Artifact::from_bytes) makes of the
/// bytes.
pub proof fn reading_gives_back_what_was_written(artifact: ArtifactView, bytes: Seq<u8>)
    requires
        encoded(artifact) == Ok::<Seq<u8>, ErrorView>(bytes),
        bytes.len() <= usize::MAX,
    ensures
        decoded(bytes) == Ok::<ArtifactView, ErrorView>(artifact),
{
    let functions = le_bytes(artifact.functions.len(), 2) + functions_bytes(artifact.functions, 0);
    number_length(artifact.functions.len(), 2);
    number_length(artifact.data.len(), 2);
    assert(bytes == bundle_bytes(artifact));
    bundle_parts(artifact);
    head_read(bytes);
    function_list_read(bytes, 13, artifact.functions);
    object_list_read(bytes, 13 + functions.len(), artifact.data);
    assert(contents_spec(bytes) == Ok::<((Seq<FunctionView>, Seq<DataView>), nat), ErrorView>(
        ((artifact.functions, artifact.data), bytes.len()),
    ));
}

/// Every bundle that is read is valid.
pub proof fn a_bundle_that_is_read_is_valid(bytes: Seq<u8>)
    requires
        decoded(bytes) is Ok,
    ensures
        problem(decoded(bytes)->Ok_0) is None,
{
}

/// Two bundles with the same bytes are the same.
pub proof fn bundles_with_the_same_bytes_are_the_same(left: ArtifactView, right: ArtifactView)
    requires
        encoded(left) is Ok,
        encoded(left) == encoded(right),
        encoded(left)->Ok_0.len() <= usize::MAX,
    ensures
        left == right,
{
    reading_gives_back_what_was_written(left, encoded(left)->Ok_0);
    reading_gives_back_what_was_written(right, encoded(left)->Ok_0);
}

/// Whether a failure says that bytes are missing.
pub open spec fn says_truncated(error: ErrorView) -> bool {
    exists|field: Seq<char>|
        error == ErrorView::Codegen(#[trigger] ("truncated COSMIC-SIA "@ + field))
}

/// How reading a part of the first bytes of a bundle compares with reading it
/// in the whole: the same, or bytes are missing.
spec fn agrees<T>(short: Parsed<T>, long: Parsed<T>) -> bool {
    short == long || (short matches Err(error) && says_truncated(error))
}

proof fn take_agrees(short: Seq<u8>, long: Seq<u8>, cursor: nat, count: nat, field: Seq<char>)
    requires
        short.is_prefix_of(long),
    ensures
        agrees(take_spec(short, cursor, count, field), take_spec(long, cursor, count, field)),
{
    if cursor + count <= short.len() {
        assert(short.subrange(cursor as int, (cursor + count) as int) =~= long.subrange(
            cursor as int,
            (cursor + count) as int,
        ));
    } else if cursor + count <= usize::MAX {
        assert(says_truncated(ErrorView::Codegen("truncated COSMIC-SIA "@ + field)));
    }
}

proof fn text_agrees(short: Seq<u8>, long: Seq<u8>, cursor: nat, fields: TextFields)
    requires
        short.is_prefix_of(long),
    ensures
        agrees(text_spec(short, cursor, fields), text_spec(long, cursor, fields)),
{
    take_agrees(short, long, cursor, 2, fields.length);
    if let Ok((count, next)) = number_spec(long, cursor, 2, fields.length) {
        take_agrees(short, long, next, count, fields.text);
    }
}

proof fn relocation_agrees(short: Seq<u8>, long: Seq<u8>, cursor: nat, in_data: bool)
    requires
        short.is_prefix_of(long),
    ensures
        agrees(relocation_spec(short, cursor, in_data), relocation_spec(long, cursor, in_data)),
{
    let offset = relocation_prefix(in_data) + "offset"@;
    let addend = relocation_prefix(in_data) + "addend"@;
    take_agrees(short, long, cursor, 4, offset);
    if let Ok((_, cursor)) = number_spec(long, cursor, 4, offset) {
        take_agrees(short, long, cursor, 8, addend);
        if let Ok((_, cursor)) = number_spec(long, cursor, 8, addend) {
            text_agrees(short, long, cursor, target_fields(in_data));
        }
    }
}

proof fn relocations_agree(
    short: Seq<u8>,
    long: Seq<u8>,
    cursor: nat,
    count: nat,
    in_data: bool,
    found: Seq<RelocationView>,
)
    requires
        short.is_prefix_of(long),
    ensures
        agrees(
            relocations_from(short, cursor, count, in_data, found),
            relocations_from(long, cursor, count, in_data, found),
        ),
    decreases count,
{
    if count > 0 {
        relocation_agrees(short, long, cursor, in_data);
        if let Ok((relocation, next)) = relocation_spec(long, cursor, in_data) {
            relocations_agree(
                short,
                long,
                next,
                (count - 1) as nat,
                in_data,
                found.push(relocation),
            );
        }
    }
}

proof fn relocation_list_agrees(short: Seq<u8>, long: Seq<u8>, cursor: nat, in_data: bool)
    requires
        short.is_prefix_of(long),
    ensures
        agrees(
            relocation_list_spec(short, cursor, in_data),
            relocation_list_spec(long, cursor, in_data),
        ),
{
    let field = if in_data {
        "data relocation count"@
    } else {
        "function relocation count"@
    };
    take_agrees(short, long, cursor, 2, field);
    if let Ok((count, next)) = number_spec(long, cursor, 2, field) {
        relocations_agree(short, long, next, count, in_data, Seq::empty());
    }
}

proof fn block_agrees(
    short: Seq<u8>,
    long: Seq<u8>,
    cursor: nat,
    length_field: Seq<char>,
    field: Seq<char>,
)
    requires
        short.is_prefix_of(long),
    ensures
        agrees(
            block_spec(short, cursor, length_field, field),
            block_spec(long, cursor, length_field, field),
        ),
{
    take_agrees(short, long, cursor, 4, length_field);
    if let Ok((length, next)) = number_spec(long, cursor, 4, length_field) {
        take_agrees(short, long, next, length, field);
    }
}

proof fn function_agrees(short: Seq<u8>, long: Seq<u8>, cursor: nat)
    requires
        short.is_prefix_of(long),
    ensures
        agrees(function_spec(short, cursor), function_spec(long, cursor)),
{
    text_agrees(short, long, cursor, function_name_fields());
    if let Ok((_, cursor)) = text_spec(long, cursor, function_name_fields()) {
        block_agrees(short, long, cursor, "function code length"@, "function code"@);
        if let Ok((_, cursor)) = block_spec(
            long,
            cursor,
            "function code length"@,
            "function code"@,
        ) {
            relocation_list_agrees(short, long, cursor, false);
        }
    }
}

proof fn functions_agree(
    short: Seq<u8>,
    long: Seq<u8>,
    cursor: nat,
    count: nat,
    found: Seq<FunctionView>,
)
    requires
        short.is_prefix_of(long),
    ensures
        agrees(
            functions_from(short, cursor, count, found),
            functions_from(long, cursor, count, found),
        ),
    decreases count,
{
    if count > 0 {
        function_agrees(short, long, cursor);
        if let Ok((function, next)) = function_spec(long, cursor) {
            functions_agree(short, long, next, (count - 1) as nat, found.push(function));
        }
    }
}

proof fn object_agrees(short: Seq<u8>, long: Seq<u8>, cursor: nat)
    requires
        short.is_prefix_of(long),
    ensures
        agrees(object_spec(short, cursor), object_spec(long, cursor)),
{
    text_agrees(short, long, cursor, object_name_fields());
    if let Ok((_, cursor)) = text_spec(long, cursor, object_name_fields()) {
        take_agrees(short, long, cursor, 4, "data alignment"@);
        if let Ok((_, cursor)) = number_spec(long, cursor, 4, "data alignment"@) {
            take_agrees(short, long, cursor, 1, "data read-only flag"@);
            if let Ok((_, cursor)) = number_spec(long, cursor, 1, "data read-only flag"@) {
                block_agrees(short, long, cursor, "data length"@, "data bytes"@);
                if let Ok((_, cursor)) = block_spec(long, cursor, "data length"@, "data bytes"@) {
                    relocation_list_agrees(short, long, cursor, true);
                }
            }
        }
    }
}

proof fn objects_agree(
    short: Seq<u8>,
    long: Seq<u8>,
    cursor: nat,
    count: nat,
    found: Seq<DataView>,
)
    requires
        short.is_prefix_of(long),
    ensures
        agrees(
            objects_from(short, cursor, count, found),
            objects_from(long, cursor, count, found),
        ),
    decreases count,
{
    if count > 0 {
        object_agrees(short, long, cursor);
        if let Ok((object, next)) = object_spec(long, cursor) {
            objects_agree(short, long, next, (count - 1) as nat, found.push(object));
        }
    }
}

proof fn contents_agree(short: Seq<u8>, long: Seq<u8>)
    requires
        short.is_prefix_of(long),
    ensures
        agrees(contents_spec(short), contents_spec(long)),
{
    take_agrees(short, long, 0, magic().len(), "bundle magic"@);
    take_agrees(short, long, 11, 2, "version"@);
    assert(agrees(head_spec(short), head_spec(long)));
    if let Ok((_, cursor)) = head_spec(long) {
        take_agrees(short, long, cursor, 2, "function count"@);
        if let Ok((count, cursor)) = number_spec(long, cursor, 2, "function count"@) {
            functions_agree(short, long, cursor, count, Seq::empty());
            if let Ok((_, cursor)) = functions_from(long, cursor, count, Seq::empty()) {
                take_agrees(short, long, cursor, 2, "data count"@);
                if let Ok((count, cursor)) = number_spec(long, cursor, 2, "data count"@) {
                    objects_agree(short, long, cursor, count, Seq::empty());
                }
            }
        }
    }
}

proof fn relocations_stay_inside(
    bytes: Seq<u8>,
    cursor: nat,
    count: nat,
    in_data: bool,
    found: Seq<RelocationView>,
)
    requires
        cursor <= bytes.len(),
    ensures
        relocations_from(bytes, cursor, count, in_data, found) matches Ok((_, next)) ==> next
            <= bytes.len(),
    decreases count,
{
    if count > 0 {
        if let Ok((relocation, next)) = relocation_spec(bytes, cursor, in_data) {
            relocations_stay_inside(
                bytes,
                next,
                (count - 1) as nat,
                in_data,
                found.push(relocation),
            );
        }
    }
}

proof fn relocation_list_stays_inside(bytes: Seq<u8>, cursor: nat, in_data: bool)
    ensures
        relocation_list_spec(bytes, cursor, in_data) matches Ok((_, next)) ==> next <= bytes.len(),
{
    let field = if in_data {
        "data relocation count"@
    } else {
        "function relocation count"@
    };
    if let Ok((count, next)) = number_spec(bytes, cursor, 2, field) {
        relocations_stay_inside(bytes, next, count, in_data, Seq::empty());
    }
}

proof fn objects_stay_inside(bytes: Seq<u8>, cursor: nat, count: nat, found: Seq<DataView>)
    requires
        cursor <= bytes.len(),
    ensures
        objects_from(bytes, cursor, count, found) matches Ok((_, next)) ==> next <= bytes.len(),
    decreases count,
{
    if count > 0 {
        if let Ok((object, next)) = object_spec(bytes, cursor) {
            if let Ok((_, cursor)) = text_spec(bytes, cursor, object_name_fields()) {
                if let Ok((_, cursor)) = number_spec(bytes, cursor, 4, "data alignment"@) {
                    if let Ok((_, cursor)) = flag_spec(bytes, cursor) {
                        if let Ok((_, cursor)) = block_spec(
                            bytes,
                            cursor,
                            "data length"@,
                            "data bytes"@,
                        ) {
                            relocation_list_stays_inside(bytes, cursor, true);
                        }
                    }
                }
            }
            objects_stay_inside(bytes, next, (count - 1) as nat, found.push(object));
        }
    }
}

proof fn contents_stay_inside(bytes: Seq<u8>)
    ensures
        contents_spec(bytes) matches Ok((_, next)) ==> next <= bytes.len(),
{
    if let Ok((_, cursor)) = head_spec(bytes) {
        if let Ok((count, cursor)) = number_spec(bytes, cursor, 2, "function count"@) {
            if let Ok((_, cursor)) = functions_from(bytes, cursor, count, Seq::empty()) {
                if let Ok((count, cursor)) = number_spec(bytes, cursor, 2, "data count"@) {
                    objects_stay_inside(bytes, cursor, count, Seq::empty());
                }
            }
        }
    }
}

/// No truncated bundle is read: of a bundle that is read, every shorter start
/// is refused, and the failure says that bytes are missing.
pub proof fn a_truncated_bundle_is_refused(bytes: Seq<u8>, length: nat)
    requires
        decoded(bytes) is Ok,
        length < bytes.len(),
    ensures
        decoded(bytes.take(length as int)) matches Err(error) && says_truncated(error),
{
    let short = bytes.take(length as int);
    contents_agree(short, bytes);
    contents_stay_inside(short);
}

/// No bundle has an ambiguous end: of a bundle that is read, every longer
/// form is refused for its trailing bytes.
pub proof fn a_bundle_with_trailing_bytes_is_refused(bytes: Seq<u8>, more: Seq<u8>)
    requires
        decoded(bytes) is Ok,
        more.len() > 0,
    ensures
        decoded(bytes + more) == Err::<ArtifactView, ErrorView>(
            ErrorView::Codegen("COSMIC-SIA bundle has trailing bytes"@),
        ),
{
    contents_agree(bytes, bytes + more);
}

/// The largest number in so many bytes.
pub proof fn number_bound(bytes: Seq<u8>)
    ensures
        le_value(bytes) < limit(bytes.len()),
    decreases bytes.len(),
{
    if bytes.len() > 0 {
        number_bound(bytes.drop_first());
    }
}

/// A number whose bytes were read is written with the same bytes.
proof fn number_written(bytes: Seq<u8>)
    ensures
        le_bytes(le_value(bytes), bytes.len()) == bytes,
    decreases bytes.len(),
{
    if bytes.len() > 0 {
        let rest = bytes.drop_first();
        number_written(rest);
        let value = le_value(bytes);
        assert(value % 256 == bytes[0] as nat);
        assert(value / 256 == le_value(rest));
        assert(seq![bytes[0]] + rest =~= bytes);
    }
    assert(le_bytes(le_value(bytes), bytes.len()) =~= bytes);
}

/// Whether `part` stands between two places.
spec fn spans(bytes: Seq<u8>, cursor: nat, next: nat, part: Seq<u8>) -> bool {
    &&& cursor <= next <= bytes.len()
    &&& bytes.subrange(cursor as int, next as int) == part
}

/// What stands between two places and what stands after it stand together.
proof fn spans_join(
    bytes: Seq<u8>,
    cursor: nat,
    middle: nat,
    next: nat,
    first: Seq<u8>,
    second: Seq<u8>,
)
    requires
        spans(bytes, cursor, middle, first),
        spans(bytes, middle, next, second),
    ensures
        spans(bytes, cursor, next, first + second),
{
    assert(bytes.subrange(cursor as int, next as int) =~= first + second);
}

/// A number that was read fits its bytes and is written as it stood.
proof fn number_kept(bytes: Seq<u8>, cursor: nat, width: nat, field: Seq<char>)
    ensures
        number_spec(bytes, cursor, width, field) matches Ok((value, next)) ==> {
            &&& value < limit(width)
            &&& spans(bytes, cursor, next, le_bytes(value, width))
        },
{
    if let Ok((part, next)) = take_spec(bytes, cursor, width, field) {
        number_bound(part);
        number_written(part);
    }
}

/// A text that was read fits the format and is written as it stood.
proof fn text_kept(bytes: Seq<u8>, cursor: nat, fields: TextFields)
    ensures
        text_spec(bytes, cursor, fields) matches Ok((text, next)) ==> {
            &&& encode_utf8(text).len() <= u16::MAX
            &&& spans(bytes, cursor, next, name_bytes(text))
        },
{
    reveal_with_fuel(limit, 3);
    number_kept(bytes, cursor, 2, fields.length);
    if let Ok((length, middle)) = number_spec(bytes, cursor, 2, fields.length) {
        if let Ok((part, next)) = take_spec(bytes, middle, length, fields.text) {
            if valid_utf8(part) {
                decode_utf8_encode_utf8(part);
                spans_join(bytes, cursor, middle, next, le_bytes(length, 2), part);
            }
        }
    }
}

/// Sixty-four bits read as signed are written as they stood.
proof fn addend_kept(value: u64)
    ensures
        value as i64 as u64 == value,
{
    assert(value as i64 as u64 == value) by (bit_vector);
}

/// A relocation that was read fits the format and is written as it stood.
proof fn relocation_kept(bytes: Seq<u8>, cursor: nat, in_data: bool)
    ensures
        relocation_spec(bytes, cursor, in_data) matches Ok((relocation, next)) ==> {
            &&& encode_utf8(relocation.target).len() <= u16::MAX
            &&& spans(bytes, cursor, next, relocation_bytes(relocation))
        },
{
    reveal_with_fuel(limit, 9);
    let offset_field = relocation_prefix(in_data) + "offset"@;
    let addend_field = relocation_prefix(in_data) + "addend"@;
    number_kept(bytes, cursor, 4, offset_field);
    if let Ok((offset, first)) = number_spec(bytes, cursor, 4, offset_field) {
        number_kept(bytes, first, 8, addend_field);
        if let Ok((addend, second)) = number_spec(bytes, first, 8, addend_field) {
            text_kept(bytes, second, target_fields(in_data));
            if let Ok((target, next)) = text_spec(bytes, second, target_fields(in_data)) {
                addend_kept(addend as u64);
                let head = le_bytes(offset, 4) + le_bytes(addend, 8);
                spans_join(bytes, cursor, first, second, le_bytes(offset, 4), le_bytes(addend, 8));
                spans_join(bytes, cursor, second, next, head, name_bytes(target));
            }
        }
    }
}

/// Whether the target of each relocation fits the format.
spec fn relocations_fit(relocations: Seq<RelocationView>) -> bool {
    forall|i: int|
        0 <= i < relocations.len() ==> encode_utf8((#[trigger] relocations[i]).target).len()
            <= u16::MAX
}

proof fn fitting_relocations_have_no_excess(relocations: Seq<RelocationView>, index: nat)
    requires
        relocations_fit(relocations),
    ensures
        relocations_excess(relocations, index) is None,
    decreases relocations.len() - index,
{
    if index < relocations.len() {
        fitting_relocations_have_no_excess(relocations, index + 1);
    }
}

proof fn relocations_kept(
    bytes: Seq<u8>,
    cursor: nat,
    count: nat,
    in_data: bool,
    found: Seq<RelocationView>,
)
    requires
        cursor <= bytes.len(),
        relocations_fit(found),
    ensures
        relocations_from(bytes, cursor, count, in_data, found) matches Ok((relocations, next)) ==> {
            &&& relocations_fit(relocations)
            &&& relocations.len() == found.len() + count
            &&& relocations.take(found.len() as int) == found
            &&& spans(bytes, cursor, next, relocations_bytes(relocations, found.len()))
        },
    decreases count,
{
    if count == 0 {
        assert(found.take(found.len() as int) =~= found);
        assert(bytes.subrange(cursor as int, cursor as int) =~= Seq::empty());
    } else {
        relocation_kept(bytes, cursor, in_data);
        if let Ok((relocation, middle)) = relocation_spec(bytes, cursor, in_data) {
            let more = found.push(relocation);
            relocations_kept(bytes, middle, (count - 1) as nat, in_data, more);
            if let Ok((relocations, next)) = relocations_from(
                bytes,
                middle,
                (count - 1) as nat,
                in_data,
                more,
            ) {
                assert(relocations[found.len() as int] == relocations.take(
                    more.len() as int,
                )[found.len() as int]);
                assert(relocations.take(found.len() as int) =~= more.take(found.len() as int));
                assert(more.take(found.len() as int) =~= found);
                spans_join(
                    bytes,
                    cursor,
                    middle,
                    next,
                    relocation_bytes(relocation),
                    relocations_bytes(relocations, more.len()),
                );
            }
        }
    }
}

proof fn relocation_list_kept(bytes: Seq<u8>, cursor: nat, in_data: bool)
    ensures
        relocation_list_spec(bytes, cursor, in_data) matches Ok((relocations, next)) ==> {
            &&& relocations.len() <= u16::MAX
            &&& relocations_excess(relocations, 0) is None
            &&& spans(bytes, cursor, next, relocation_list_bytes(relocations))
        },
{
    let field = if in_data {
        "data relocation count"@
    } else {
        "function relocation count"@
    };
    reveal_with_fuel(limit, 3);
    number_kept(bytes, cursor, 2, field);
    if let Ok((count, middle)) = number_spec(bytes, cursor, 2, field) {
        relocations_kept(bytes, middle, count, in_data, Seq::empty());
        if let Ok((relocations, next)) = relocation_list_spec(bytes, cursor, in_data) {
            fitting_relocations_have_no_excess(relocations, 0);
            spans_join(
                bytes,
                cursor,
                middle,
                next,
                le_bytes(count, 2),
                relocations_bytes(relocations, 0),
            );
        }
    }
}

proof fn block_kept(bytes: Seq<u8>, cursor: nat, length_field: Seq<char>, field: Seq<char>)
    ensures
        block_spec(bytes, cursor, length_field, field) matches Ok((block, next)) ==> {
            &&& block.len() <= u32::MAX
            &&& spans(bytes, cursor, next, block_bytes(block))
        },
{
    reveal_with_fuel(limit, 5);
    number_kept(bytes, cursor, 4, length_field);
    if let Ok((length, middle)) = number_spec(bytes, cursor, 4, length_field) {
        if let Ok((block, next)) = take_spec(bytes, middle, length, field) {
            spans_join(bytes, cursor, middle, next, le_bytes(length, 4), block);
        }
    }
}

proof fn function_kept(bytes: Seq<u8>, cursor: nat)
    ensures
        function_spec(bytes, cursor) matches Ok((function, next)) ==> {
            &&& function_excess(function) is None
            &&& spans(bytes, cursor, next, function_bytes(function))
        },
{
    let length_field = "function code length"@;
    let field = "function code"@;
    text_kept(bytes, cursor, function_name_fields());
    if let Ok((name, first)) = text_spec(bytes, cursor, function_name_fields()) {
        block_kept(bytes, first, length_field, field);
        if let Ok((code, second)) = block_spec(bytes, first, length_field, field) {
            relocation_list_kept(bytes, second, false);
            if let Ok((relocations, next)) = relocation_list_spec(bytes, second, false) {
                let head = name_bytes(name) + block_bytes(code);
                spans_join(bytes, cursor, first, second, name_bytes(name), block_bytes(code));
                spans_join(bytes, cursor, second, next, head, relocation_list_bytes(relocations));
            }
        }
    }
}

/// A flag that was read is written as it stood.
proof fn flag_kept(bytes: Seq<u8>, cursor: nat)
    ensures
        flag_spec(bytes, cursor) matches Ok((flag, next)) ==> spans(
            bytes,
            cursor,
            next,
            seq![
                if flag {
                    1u8
                } else {
                    0u8
                },
            ],
        ),
{
    number_kept(bytes, cursor, 1, "data read-only flag"@);
    reveal_with_fuel(le_bytes, 2);
    if let Ok((value, next)) = number_spec(bytes, cursor, 1, "data read-only flag"@) {
        assert(le_bytes(value, 1) =~= seq![(value % 256) as u8]);
    }
}

proof fn object_kept(bytes: Seq<u8>, cursor: nat)
    ensures
        object_spec(bytes, cursor) matches Ok((object, next)) ==> {
            &&& object_excess(object) is None
            &&& spans(bytes, cursor, next, object_bytes(object))
        },
{
    if let Ok((object, next)) = object_spec(bytes, cursor) {
        text_kept(bytes, cursor, object_name_fields());
        let first = text_spec(bytes, cursor, object_name_fields())->Ok_0.1;
        number_kept(bytes, first, 4, "data alignment"@);
        let (align, second) = number_spec(bytes, first, 4, "data alignment"@)->Ok_0;
        flag_kept(bytes, second);
        let third = flag_spec(bytes, second)->Ok_0.1;
        block_kept(bytes, third, "data length"@, "data bytes"@);
        let fourth = block_spec(bytes, third, "data length"@, "data bytes"@)->Ok_0.1;
        relocation_list_kept(bytes, fourth, true);
        reveal_with_fuel(limit, 5);
        let name = name_bytes(object.name);
        let flag = seq![
            if object.read_only {
                1u8
            } else {
                0u8
            },
        ];
        let block = block_bytes(object.bytes);
        let alignment = le_bytes(align, 4);
        spans_join(bytes, cursor, first, second, name, alignment);
        spans_join(bytes, cursor, second, third, name + alignment, flag);
        spans_join(bytes, cursor, third, fourth, name + alignment + flag, block);
        spans_join(
            bytes,
            cursor,
            fourth,
            next,
            name + alignment + flag + block,
            relocation_list_bytes(object.relocations),
        );
    }
}

/// Whether each function fits the format.
spec fn functions_fit(functions: Seq<FunctionView>) -> bool {
    forall|i: int|
        0 <= i < functions.len() ==> function_excess(#[trigger] functions[i]) is None
}

proof fn fitting_functions_have_no_excess(functions: Seq<FunctionView>, index: nat)
    requires
        functions_fit(functions),
    ensures
        functions_excess(functions, index) is None,
    decreases functions.len() - index,
{
    if index < functions.len() {
        fitting_functions_have_no_excess(functions, index + 1);
    }
}

proof fn functions_kept(bytes: Seq<u8>, cursor: nat, count: nat, found: Seq<FunctionView>)
    requires
        cursor <= bytes.len(),
        functions_fit(found),
    ensures
        functions_from(bytes, cursor, count, found) matches Ok((functions, next)) ==> {
            &&& functions_fit(functions)
            &&& functions.len() == found.len() + count
            &&& functions.take(found.len() as int) == found
            &&& spans(bytes, cursor, next, functions_bytes(functions, found.len()))
        },
    decreases count,
{
    if count == 0 {
        assert(found.take(found.len() as int) =~= found);
        assert(bytes.subrange(cursor as int, cursor as int) =~= Seq::empty());
    } else {
        function_kept(bytes, cursor);
        if let Ok((function, middle)) = function_spec(bytes, cursor) {
            let more = found.push(function);
            functions_kept(bytes, middle, (count - 1) as nat, more);
            if let Ok((functions, next)) = functions_from(bytes, middle, (count - 1) as nat, more) {
                assert(functions[found.len() as int] == functions.take(
                    more.len() as int,
                )[found.len() as int]);
                assert(functions.take(found.len() as int) =~= more.take(found.len() as int));
                assert(more.take(found.len() as int) =~= found);
                spans_join(
                    bytes,
                    cursor,
                    middle,
                    next,
                    function_bytes(function),
                    functions_bytes(functions, more.len()),
                );
            }
        }
    }
}

/// Whether each data object fits the format.
spec fn objects_fit(data: Seq<DataView>) -> bool {
    forall|i: int| 0 <= i < data.len() ==> object_excess(#[trigger] data[i]) is None
}

proof fn fitting_objects_have_no_excess(data: Seq<DataView>, index: nat)
    requires
        objects_fit(data),
    ensures
        objects_excess(data, index) is None,
    decreases data.len() - index,
{
    if index < data.len() {
        fitting_objects_have_no_excess(data, index + 1);
    }
}

proof fn objects_kept(bytes: Seq<u8>, cursor: nat, count: nat, found: Seq<DataView>)
    requires
        cursor <= bytes.len(),
        objects_fit(found),
    ensures
        objects_from(bytes, cursor, count, found) matches Ok((data, next)) ==> {
            &&& objects_fit(data)
            &&& data.len() == found.len() + count
            &&& data.take(found.len() as int) == found
            &&& spans(bytes, cursor, next, objects_bytes(data, found.len()))
        },
    decreases count,
{
    if count == 0 {
        assert(found.take(found.len() as int) =~= found);
        assert(bytes.subrange(cursor as int, cursor as int) =~= Seq::empty());
    } else {
        object_kept(bytes, cursor);
        if let Ok((object, middle)) = object_spec(bytes, cursor) {
            let more = found.push(object);
            objects_kept(bytes, middle, (count - 1) as nat, more);
            if let Ok((data, next)) = objects_from(bytes, middle, (count - 1) as nat, more) {
                assert(data[found.len() as int] == data.take(
                    more.len() as int,
                )[found.len() as int]);
                assert(data.take(found.len() as int) =~= more.take(found.len() as int));
                assert(more.take(found.len() as int) =~= found);
                spans_join(
                    bytes,
                    cursor,
                    middle,
                    next,
                    object_bytes(object),
                    objects_bytes(data, more.len()),
                );
            }
        }
    }
}

/// The head of every bundle that is read is the same.
proof fn head_kept(bytes: Seq<u8>)
    ensures
        head_spec(bytes) matches Ok((_, next)) ==> spans(
            bytes,
            0,
            next,
            magic() + le_bytes(BUNDLE_VERSION as nat, 2),
        ),
{
    if let Ok((start, middle)) = take_spec(bytes, 0, magic().len(), "bundle magic"@) {
        number_kept(bytes, middle, 2, "version"@);
        if let Ok((_, next)) = head_spec(bytes) {
            spans_join(bytes, 0, middle, next, magic(), le_bytes(BUNDLE_VERSION as nat, 2));
        }
    }
}

/// Only what is written is read: a bundle that is read is written again with
/// the same bytes, so no two byte strings are the same bundle.
pub proof fn writing_gives_back_what_was_read(bytes: Seq<u8>)
    requires
        decoded(bytes) is Ok,
    ensures
        encoded(decoded(bytes)->Ok_0) == Ok::<Seq<u8>, ErrorView>(bytes),
{
    reveal_with_fuel(limit, 3);
    let artifact = decoded(bytes)->Ok_0;
    head_kept(bytes);
    let first = head_spec(bytes)->Ok_0.1;
    number_kept(bytes, first, 2, "function count"@);
    let (count, second) = number_spec(bytes, first, 2, "function count"@)->Ok_0;
    functions_kept(bytes, second, count, Seq::empty());
    let third = functions_from(bytes, second, count, Seq::empty())->Ok_0.1;
    number_kept(bytes, third, 2, "data count"@);
    let (total, fourth) = number_spec(bytes, third, 2, "data count"@)->Ok_0;
    objects_kept(bytes, fourth, total, Seq::empty());
    fitting_functions_have_no_excess(artifact.functions, 0);
    fitting_objects_have_no_excess(artifact.data, 0);

    let head = magic() + le_bytes(BUNDLE_VERSION as nat, 2);
    let functions = functions_bytes(artifact.functions, 0);
    let data = objects_bytes(artifact.data, 0);
    let counted = head + le_bytes(count, 2);
    spans_join(bytes, 0, first, second, head, le_bytes(count, 2));
    spans_join(bytes, 0, second, third, counted, functions);
    spans_join(bytes, 0, third, fourth, counted + functions, le_bytes(total, 2));
    spans_join(
        bytes,
        0,
        fourth,
        bytes.len(),
        counted + functions + le_bytes(total, 2),
        data,
    );
    assert(bytes.subrange(0, bytes.len() as int) =~= bytes);
}

} // verus!
