//! Reading a bundle.

use crate::bundle::{
    data_view, functions_view, relocations_view, validated, BUNDLE_VERSION, TARGET, Artifact,
    ArtifactView, DataArtifact, DataView, FunctionArtifact, FunctionView, RelocationArtifact,
    RelocationView,
};
use crate::bundle::encode::{magic, magic_bytes};
use crate::error::{codegen, outcome_view, Error, ErrorView};
use crate::text::{concat2, concat3, decimal, decimal_text, same_bytes};
use vstd::prelude::*;
use vstd::utf8::{decode_utf8, valid_utf8};

verus! {

/// A part of a bundle and the position after it, or why there is none.
pub type Parsed<T> = Result<(T, nat), ErrorView>;

/// The number whose bytes these are, the lowest first.
pub open spec fn le_value(bytes: Seq<u8>) -> nat
    decreases bytes.len(),
{
    if bytes.len() == 0 {
        0
    } else {
        bytes[0] as nat + 256 * le_value(bytes.drop_first())
    }
}

/// The next `count` bytes.
pub open spec fn take_spec(bytes: Seq<u8>, cursor: nat, count: nat, field: Seq<char>) -> Parsed<
    Seq<u8>,
> {
    if cursor + count > usize::MAX {
        Err(ErrorView::Codegen("COSMIC-SIA "@ + field + " length overflows"@))
    } else if cursor + count > bytes.len() {
        Err(ErrorView::Codegen("truncated COSMIC-SIA "@ + field))
    } else {
        Ok((bytes.subrange(cursor as int, (cursor + count) as int), cursor + count))
    }
}

/// The number in the next `width` bytes.
pub open spec fn number_spec(bytes: Seq<u8>, cursor: nat, width: nat, field: Seq<char>) -> Parsed<
    nat,
> {
    match take_spec(bytes, cursor, width, field) {
        Err(error) => Err(error),
        Ok((part, cursor)) => Ok((le_value(part), cursor)),
    }
}

/// The fields of a text in a bundle, as diagnostics name them.
pub struct TextFields {
    /// The length.
    pub length: Seq<char>,
    /// The text itself.
    pub text: Seq<char>,
    /// The message for bytes that are no text.
    pub invalid: Seq<char>,
}

/// A text with its length in front.
pub open spec fn text_spec(bytes: Seq<u8>, cursor: nat, fields: TextFields) -> Parsed<Seq<char>> {
    match number_spec(bytes, cursor, 2, fields.length) {
        Err(error) => Err(error),
        Ok((length, cursor)) => match take_spec(bytes, cursor, length, fields.text) {
            Err(error) => Err(error),
            Ok((part, cursor)) => if valid_utf8(part) {
                Ok((decode_utf8(part), cursor))
            } else {
                Err(ErrorView::Codegen(fields.invalid))
            },
        },
    }
}

/// What the fields of a relocation are called, in a data object or a function.
pub open spec fn relocation_prefix(in_data: bool) -> Seq<char> {
    if in_data {
        "data relocation "@
    } else {
        "relocation "@
    }
}

/// The fields of the target of a relocation.
pub open spec fn target_fields(in_data: bool) -> TextFields {
    TextFields {
        length: relocation_prefix(in_data) + "target length"@,
        text: relocation_prefix(in_data) + "target"@,
        invalid: "COSMIC-SIA "@ + relocation_prefix(in_data) + "target is not UTF-8"@,
    }
}

/// One relocation.
pub open spec fn relocation_spec(bytes: Seq<u8>, cursor: nat, in_data: bool) -> Parsed<
    RelocationView,
> {
    match number_spec(bytes, cursor, 4, relocation_prefix(in_data) + "offset"@) {
        Err(error) => Err(error),
        Ok((offset, cursor)) => match number_spec(
            bytes,
            cursor,
            8,
            relocation_prefix(in_data) + "addend"@,
        ) {
            Err(error) => Err(error),
            Ok((addend, cursor)) => match text_spec(bytes, cursor, target_fields(in_data)) {
                Err(error) => Err(error),
                Ok((target, cursor)) => Ok(
                    (
                        RelocationView {
                            offset: offset as u32,
                            target,
                            addend: addend as u64 as i64,
                        },
                        cursor,
                    ),
                ),
            },
        },
    }
}

/// `count` more relocations after those in `found`.
pub open spec fn relocations_from(
    bytes: Seq<u8>,
    cursor: nat,
    count: nat,
    in_data: bool,
    found: Seq<RelocationView>,
) -> Parsed<Seq<RelocationView>>
    decreases count,
{
    if count == 0 {
        Ok((found, cursor))
    } else {
        match relocation_spec(bytes, cursor, in_data) {
            Err(error) => Err(error),
            Ok((relocation, cursor)) => relocations_from(
                bytes,
                cursor,
                (count - 1) as nat,
                in_data,
                found.push(relocation),
            ),
        }
    }
}

/// A list of relocations with its length in front.
pub open spec fn relocation_list_spec(bytes: Seq<u8>, cursor: nat, in_data: bool) -> Parsed<
    Seq<RelocationView>,
> {
    match number_spec(
        bytes,
        cursor,
        2,
        if in_data {
            "data relocation count"@
        } else {
            "function relocation count"@
        },
    ) {
        Err(error) => Err(error),
        Ok((count, cursor)) => relocations_from(bytes, cursor, count, in_data, Seq::empty()),
    }
}

/// Bytes with their number in front.
pub open spec fn block_spec(
    bytes: Seq<u8>,
    cursor: nat,
    length_field: Seq<char>,
    field: Seq<char>,
) -> Parsed<Seq<u8>> {
    match number_spec(bytes, cursor, 4, length_field) {
        Err(error) => Err(error),
        Ok((length, cursor)) => take_spec(bytes, cursor, length, field),
    }
}

/// The fields of the name of a function.
pub open spec fn function_name_fields() -> TextFields {
    TextFields {
        length: "function name length"@,
        text: "function name"@,
        invalid: "COSMIC-SIA function name is not UTF-8"@,
    }
}

/// One function.
pub open spec fn function_spec(bytes: Seq<u8>, cursor: nat) -> Parsed<FunctionView> {
    match text_spec(bytes, cursor, function_name_fields()) {
        Err(error) => Err(error),
        Ok((name, cursor)) => match block_spec(
            bytes,
            cursor,
            "function code length"@,
            "function code"@,
        ) {
            Err(error) => Err(error),
            Ok((code, cursor)) => match relocation_list_spec(bytes, cursor, false) {
                Err(error) => Err(error),
                Ok((relocations, cursor)) => Ok((FunctionView { name, code, relocations }, cursor)),
            },
        },
    }
}

/// `count` more functions after those in `found`.
pub open spec fn functions_from(
    bytes: Seq<u8>,
    cursor: nat,
    count: nat,
    found: Seq<FunctionView>,
) -> Parsed<Seq<FunctionView>>
    decreases count,
{
    if count == 0 {
        Ok((found, cursor))
    } else {
        match function_spec(bytes, cursor) {
            Err(error) => Err(error),
            Ok((function, cursor)) => functions_from(
                bytes,
                cursor,
                (count - 1) as nat,
                found.push(function),
            ),
        }
    }
}

/// The fields of the name of a data object.
pub open spec fn object_name_fields() -> TextFields {
    TextFields {
        length: "data name length"@,
        text: "data name"@,
        invalid: "COSMIC-SIA data name is not UTF-8"@,
    }
}

/// A flag: one byte that is nought or one.
pub open spec fn flag_spec(bytes: Seq<u8>, cursor: nat) -> Parsed<bool> {
    match number_spec(bytes, cursor, 1, "data read-only flag"@) {
        Err(error) => Err(error),
        Ok((flag, cursor)) => if flag > 1 {
            Err(ErrorView::Codegen("COSMIC-SIA data read-only flag is invalid"@))
        } else {
            Ok((flag == 1, cursor))
        },
    }
}

/// One data object.
pub open spec fn object_spec(bytes: Seq<u8>, cursor: nat) -> Parsed<DataView> {
    match text_spec(bytes, cursor, object_name_fields()) {
        Err(error) => Err(error),
        Ok((name, cursor)) => match number_spec(bytes, cursor, 4, "data alignment"@) {
            Err(error) => Err(error),
            Ok((align, cursor)) => match flag_spec(bytes, cursor) {
                Err(error) => Err(error),
                Ok((read_only, cursor)) => match block_spec(
                    bytes,
                    cursor,
                    "data length"@,
                    "data bytes"@,
                ) {
                    Err(error) => Err(error),
                    Ok((contents, cursor)) => match relocation_list_spec(bytes, cursor, true) {
                        Err(error) => Err(error),
                        Ok((relocations, cursor)) => Ok(
                            (
                                DataView {
                                    name,
                                    bytes: contents,
                                    align: align as u32,
                                    read_only,
                                    relocations,
                                },
                                cursor,
                            ),
                        ),
                    },
                },
            },
        },
    }
}

/// `count` more data objects after those in `found`.
pub open spec fn objects_from(
    bytes: Seq<u8>,
    cursor: nat,
    count: nat,
    found: Seq<DataView>,
) -> Parsed<Seq<DataView>>
    decreases count,
{
    if count == 0 {
        Ok((found, cursor))
    } else {
        match object_spec(bytes, cursor) {
            Err(error) => Err(error),
            Ok((object, cursor)) => objects_from(
                bytes,
                cursor,
                (count - 1) as nat,
                found.push(object),
            ),
        }
    }
}

/// The head of a bundle: its magic and version.
pub open spec fn head_spec(bytes: Seq<u8>) -> Parsed<()> {
    match take_spec(bytes, 0, magic().len(), "bundle magic"@) {
        Err(error) => Err(error),
        Ok((start, cursor)) => if start != magic() {
            Err(ErrorView::Codegen("invalid COSMIC-SIA bundle magic"@))
        } else {
            match number_spec(bytes, cursor, 2, "version"@) {
                Err(error) => Err(error),
                Ok((version, cursor)) => if version != BUNDLE_VERSION {
                    Err(
                        ErrorView::Codegen(
                            "unsupported COSMIC-SIA bundle version "@ + decimal(version),
                        ),
                    )
                } else {
                    Ok(((), cursor))
                },
            }
        },
    }
}

/// The functions and data objects of a bundle.
pub open spec fn contents_spec(bytes: Seq<u8>) -> Parsed<(Seq<FunctionView>, Seq<DataView>)> {
    match head_spec(bytes) {
        Err(error) => Err(error),
        Ok((_, cursor)) => match number_spec(bytes, cursor, 2, "function count"@) {
            Err(error) => Err(error),
            Ok((count, cursor)) => match functions_from(bytes, cursor, count, Seq::empty()) {
                Err(error) => Err(error),
                Ok((functions, cursor)) => match number_spec(bytes, cursor, 2, "data count"@) {
                    Err(error) => Err(error),
                    Ok((count, cursor)) => match objects_from(bytes, cursor, count, Seq::empty()) {
                        Err(error) => Err(error),
                        Ok((data, cursor)) => Ok(((functions, data), cursor)),
                    },
                },
            },
        },
    }
}

/// The bundle that the bytes are, down to the last one.
pub open spec fn decoded(bytes: Seq<u8>) -> Result<ArtifactView, ErrorView> {
    match contents_spec(bytes) {
        Err(error) => Err(error),
        Ok(((functions, data), cursor)) => if cursor != bytes.len() {
            Err(ErrorView::Codegen("COSMIC-SIA bundle has trailing bytes"@))
        } else {
            let artifact = ArtifactView { target: TARGET@, functions, data };
            match validated(artifact) {
                Err(error) => Err(error),
                Ok(_) => Ok(artifact),
            }
        },
    }
}

/// The text that bytes are in UTF-8.
///
/// Calls `std::str::from_utf8`, which accepts exactly the byte strings that
/// are valid UTF-8 and returns the text that they encode.
#[verifier::external_body]
fn text_from_utf8(bytes: &[u8]) -> (result: Option<String>)
    ensures
        (match result {
            Some(text) => valid_utf8(bytes@) && text@ == decode_utf8(bytes@),
            None => !valid_utf8(bytes@),
        }),
{
    match std::str::from_utf8(bytes) {
        Ok(text) => Some(text.to_owned()),
        Err(_) => None,
    }
}

/// What reading a part from `cursor` leads to, where the part is compared by
/// its view.
pub open spec fn parsed<T: View>(result: Result<T, Error>, cursor: usize) -> Parsed<T::V> {
    match result {
        Ok(value) => Ok((value@, cursor as nat)),
        Err(error) => Err(error@),
    }
}

/// The next `count` bytes.
fn take<'a>(bytes: &'a [u8], cursor: &mut usize, count: usize, field: &str) -> (result: Result<
    &'a [u8],
    Error,
>)
    ensures
        (match result {
            Ok(part) => take_spec(bytes@, *old(cursor) as nat, count as nat, field@) == Ok::<
                (Seq<u8>, nat),
                ErrorView,
            >((part@, *final(cursor) as nat)),
            Err(error) => *final(cursor) == *old(cursor) && take_spec(
                bytes@,
                *old(cursor) as nat,
                count as nat,
                field@,
            ) == Err::<(Seq<u8>, nat), ErrorView>(error@),
        }),
{
    let end: usize = match (*cursor).checked_add(count) {
        Some(end) => end,
        None => {
            let message = concat3("COSMIC-SIA ", field, " length overflows");
            return Err(codegen(message.as_str()));
        },
    };
    if end > bytes.len() {
        let message = concat2("truncated COSMIC-SIA ", field);
        return Err(codegen(message.as_str()));
    }
    let part = vstd::slice::slice_subrange(bytes, *cursor, end);
    *cursor = end;
    Ok(part)
}

/// Whole bytes bound a number.
proof fn le_value_bound(bytes: Seq<u8>)
    ensures
        bytes.len() == 1 ==> le_value(bytes) < 0x100,
        bytes.len() == 2 ==> le_value(bytes) < 0x1_0000,
        bytes.len() == 4 ==> le_value(bytes) < 0x1_0000_0000,
        bytes.len() == 8 ==> le_value(bytes) < 0x1_0000_0000_0000_0000,
{
    reveal_with_fuel(le_value, 9);
}

/// The number in at most eight bytes.
fn read_number(bytes: &[u8]) -> (result: u64)
    requires
        bytes@.len() == 1 || bytes@.len() == 2 || bytes@.len() == 4 || bytes@.len() == 8,
    ensures
        result == le_value(bytes@),
{
    let mut result: u64 = 0;
    let mut left: usize = bytes.len();
    while left > 0
        invariant
            left <= bytes@.len() <= 8,
            result == le_value(bytes@.skip(left as int)),
            left == 8 ==> result == 0,
            left == 7 ==> result < 0x100,
            left == 6 ==> result < 0x1_0000,
            left == 5 ==> result < 0x100_0000,
            left == 4 ==> result < 0x1_0000_0000,
            left == 3 ==> result < 0x100_0000_0000,
            left == 2 ==> result < 0x1_0000_0000_0000,
            left == 1 ==> result < 0x100_0000_0000_0000,
        decreases left,
    {
        left -= 1;
        assert(bytes@.skip(left as int).drop_first() =~= bytes@.skip(left + 1));
        result = bytes[left] as u64 + 256 * result;
    }
    assert(bytes@.skip(0) =~= bytes@);
    result
}

/// The number in the next `width` bytes.
fn take_number(bytes: &[u8], cursor: &mut usize, width: usize, field: &str) -> (result: Result<
    u64,
    Error,
>)
    requires
        width == 1 || width == 2 || width == 4 || width == 8,
    ensures
        (match result {
            Ok(value) => number_spec(bytes@, *old(cursor) as nat, width as nat, field@) == Ok::<
                (nat, nat),
                ErrorView,
            >((value as nat, *final(cursor) as nat)) && (width == 1 ==> value < 0x100) && (width
                == 2 ==> value < 0x1_0000) && (width == 4 ==> value < 0x1_0000_0000),
            Err(error) => number_spec(bytes@, *old(cursor) as nat, width as nat, field@) == Err::<
                (nat, nat),
                ErrorView,
            >(error@),
        }),
{
    let part = take(bytes, cursor, width, field)?;
    proof {
        le_value_bound(part@);
    }
    Ok(read_number(part))
}

/// A text with its length in front.
fn take_text(bytes: &[u8], cursor: &mut usize, length: &str, text: &str, invalid: &str) -> (result:
    Result<String, Error>)
    ensures
        parsed(result, *final(cursor)) == text_spec(
            bytes@,
            *old(cursor) as nat,
            TextFields { length: length@, text: text@, invalid: invalid@ },
        ),
{
    let count: u64 = take_number(bytes, cursor, 2, length)?;
    let part = take(bytes, cursor, count as usize, text)?;
    match text_from_utf8(part) {
        Some(text) => Ok(text),
        None => Err(codegen(invalid)),
    }
}

/// One relocation.
fn take_relocation(bytes: &[u8], cursor: &mut usize, in_data: bool) -> (result: Result<
    RelocationArtifact,
    Error,
>)
    ensures
        parsed(result, *final(cursor)) == relocation_spec(bytes@, *old(cursor) as nat, in_data),
{
    let prefix = if in_data {
        "data relocation "
    } else {
        "relocation "
    };
    let offset: u64 = take_number(bytes, cursor, 4, concat2(prefix, "offset").as_str())?;
    let addend: u64 = take_number(bytes, cursor, 8, concat2(prefix, "addend").as_str())?;
    let target = take_text(
        bytes,
        cursor,
        concat2(prefix, "target length").as_str(),
        concat2(prefix, "target").as_str(),
        concat3("COSMIC-SIA ", prefix, "target is not UTF-8").as_str(),
    )?;
    Ok(
        RelocationArtifact {
            offset: offset as u32,
            target,
            addend: #[verifier::truncate] (addend as i64),
        },
    )
}

/// What reading a list of relocations leads to.
pub open spec fn parsed_relocations(
    result: Result<Vec<RelocationArtifact>, Error>,
    cursor: usize,
) -> Parsed<Seq<RelocationView>> {
    match result {
        Ok(relocations) => Ok((relocations_view(relocations@), cursor as nat)),
        Err(error) => Err(error@),
    }
}

/// A list of relocations with its length in front.
fn take_relocations(bytes: &[u8], cursor: &mut usize, in_data: bool) -> (result: Result<
    Vec<RelocationArtifact>,
    Error,
>)
    ensures
        parsed_relocations(result, *final(cursor)) == relocation_list_spec(
            bytes@,
            *old(cursor) as nat,
            in_data,
        ),
{
    let field = if in_data {
        "data relocation count"
    } else {
        "function relocation count"
    };
    let count: u64 = take_number(bytes, cursor, 2, field)?;
    let ghost start = *cursor as nat;
    let mut relocations: Vec<RelocationArtifact> = Vec::new();
    assert(relocations_view(relocations@) =~= Seq::empty());
    let mut left: u64 = count;
    while left > 0
        invariant
            relocation_list_spec(bytes@, *old(cursor) as nat, in_data) == relocations_from(
                bytes@,
                start,
                count as nat,
                in_data,
                Seq::empty(),
            ),
            relocations_from(
                bytes@,
                *cursor as nat,
                left as nat,
                in_data,
                relocations_view(relocations@),
            ) == relocations_from(bytes@, start, count as nat, in_data, Seq::empty()),
        decreases left,
    {
        let ghost before = relocations_view(relocations@);
        let relocation = take_relocation(bytes, cursor, in_data)?;
        relocations.push(relocation);
        assert(relocations_view(relocations@) =~= before.push(relocation@));
        left -= 1;
    }
    Ok(relocations)
}

/// Bytes with their number in front.
fn take_block(bytes: &[u8], cursor: &mut usize, length: &str, field: &str) -> (result: Result<
    Vec<u8>,
    Error,
>)
    ensures
        parsed(result, *final(cursor)) == block_spec(
            bytes@,
            *old(cursor) as nat,
            length@,
            field@,
        ),
{
    let count: u64 = take_number(bytes, cursor, 4, length)?;
    let part = take(bytes, cursor, count as usize, field)?;
    Ok(vstd::slice::slice_to_vec(part))
}

/// One function.
fn take_function(bytes: &[u8], cursor: &mut usize) -> (result: Result<FunctionArtifact, Error>)
    ensures
        parsed(result, *final(cursor)) == function_spec(bytes@, *old(cursor) as nat),
{
    let name = take_text(
        bytes,
        cursor,
        "function name length",
        "function name",
        "COSMIC-SIA function name is not UTF-8",
    )?;
    let code = take_block(bytes, cursor, "function code length", "function code")?;
    let relocations = take_relocations(bytes, cursor, false)?;
    Ok(FunctionArtifact { name, code, relocations })
}

/// A flag.
fn take_flag(bytes: &[u8], cursor: &mut usize) -> (result: Result<bool, Error>)
    ensures
        parsed(result, *final(cursor)) == flag_spec(bytes@, *old(cursor) as nat),
{
    let flag: u64 = take_number(bytes, cursor, 1, "data read-only flag")?;
    if flag > 1 {
        return Err(codegen("COSMIC-SIA data read-only flag is invalid"));
    }
    Ok(flag == 1)
}

/// One data object.
fn take_object(bytes: &[u8], cursor: &mut usize) -> (result: Result<DataArtifact, Error>)
    ensures
        parsed(result, *final(cursor)) == object_spec(bytes@, *old(cursor) as nat),
{
    let name = take_text(
        bytes,
        cursor,
        "data name length",
        "data name",
        "COSMIC-SIA data name is not UTF-8",
    )?;
    let align: u64 = take_number(bytes, cursor, 4, "data alignment")?;
    let read_only = take_flag(bytes, cursor)?;
    let contents = take_block(bytes, cursor, "data length", "data bytes")?;
    let relocations = take_relocations(bytes, cursor, true)?;
    Ok(
        DataArtifact {
            name,
            bytes: contents,
            align: align as u32,
            read_only,
            relocations,
        },
    )
}

/// The head of a bundle.
fn take_head(bytes: &[u8], cursor: &mut usize) -> (result: Result<(), Error>)
    requires
        *old(cursor) == 0,
    ensures
        (match result {
            Ok(_) => head_spec(bytes@) == Ok::<((), nat), ErrorView>(
                ((), *final(cursor) as nat),
            ),
            Err(error) => head_spec(bytes@) == Err::<((), nat), ErrorView>(error@),
        }),
{
    let expected = magic_bytes();
    let start = take(bytes, cursor, expected.len(), "bundle magic")?;
    if !same_bytes(start, expected.as_slice()) {
        return Err(codegen("invalid COSMIC-SIA bundle magic"));
    }
    let version: u64 = take_number(bytes, cursor, 2, "version")?;
    if version != BUNDLE_VERSION as u64 {
        let message = concat2(
            "unsupported COSMIC-SIA bundle version ",
            decimal_text(version).as_str(),
        );
        return Err(codegen(message.as_str()));
    }
    Ok(())
}

/// What reading a list of functions leads to.
pub open spec fn parsed_functions(
    result: Result<Vec<FunctionArtifact>, Error>,
    cursor: usize,
) -> Parsed<Seq<FunctionView>> {
    match result {
        Ok(functions) => Ok((functions_view(functions@), cursor as nat)),
        Err(error) => Err(error@),
    }
}

/// `count` functions.
fn take_functions(bytes: &[u8], cursor: &mut usize, count: u64) -> (result: Result<
    Vec<FunctionArtifact>,
    Error,
>)
    ensures
        parsed_functions(result, *final(cursor)) == functions_from(
            bytes@,
            *old(cursor) as nat,
            count as nat,
            Seq::empty(),
        ),
{
    let mut functions: Vec<FunctionArtifact> = Vec::new();
    assert(functions_view(functions@) =~= Seq::empty());
    let mut left: u64 = count;
    while left > 0
        invariant
            functions_from(bytes@, *cursor as nat, left as nat, functions_view(functions@))
                == functions_from(bytes@, *old(cursor) as nat, count as nat, Seq::empty()),
        decreases left,
    {
        let ghost before = functions_view(functions@);
        let function = take_function(bytes, cursor)?;
        functions.push(function);
        assert(functions_view(functions@) =~= before.push(function@));
        left -= 1;
    }
    Ok(functions)
}

/// What reading a list of data objects leads to.
pub open spec fn parsed_objects(result: Result<Vec<DataArtifact>, Error>, cursor: usize) -> Parsed<
    Seq<DataView>,
> {
    match result {
        Ok(data) => Ok((data_view(data@), cursor as nat)),
        Err(error) => Err(error@),
    }
}

/// `count` data objects.
fn take_objects(bytes: &[u8], cursor: &mut usize, count: u64) -> (result: Result<
    Vec<DataArtifact>,
    Error,
>)
    ensures
        parsed_objects(result, *final(cursor)) == objects_from(
            bytes@,
            *old(cursor) as nat,
            count as nat,
            Seq::empty(),
        ),
{
    let mut data: Vec<DataArtifact> = Vec::new();
    assert(data_view(data@) =~= Seq::empty());
    let mut left: u64 = count;
    while left > 0
        invariant
            objects_from(bytes@, *cursor as nat, left as nat, data_view(data@)) == objects_from(
                bytes@,
                *old(cursor) as nat,
                count as nat,
                Seq::empty(),
            ),
        decreases left,
    {
        let ghost before = data_view(data@);
        let object = take_object(bytes, cursor)?;
        data.push(object);
        assert(data_view(data@) =~= before.push(object@));
        left -= 1;
    }
    Ok(data)
}

impl Artifact {
    /// Decode a stable little-endian `COSMIC-SIA` bundle.
    ///
    /// The decoder accepts only the format that [`Artifact::to_bytes`] emits.
    /// It is intentionally strict so that a future Lighting bridge cannot
    /// execute a truncated or ambiguously framed image.
    pub fn from_bytes(bytes: &[u8]) -> (result: Result<Artifact, Error>)
        ensures
            outcome_view(result) == decoded(bytes@),
    {
        let mut cursor: usize = 0;
        take_head(bytes, &mut cursor)?;
        let count: u64 = take_number(bytes, &mut cursor, 2, "function count")?;
        let functions = take_functions(bytes, &mut cursor, count)?;
        let count: u64 = take_number(bytes, &mut cursor, 2, "data count")?;
        let data = take_objects(bytes, &mut cursor, count)?;
        if cursor != bytes.len() {
            return Err(codegen("COSMIC-SIA bundle has trailing bytes"));
        }
        let artifact = Artifact { target: TARGET, functions, data };
        artifact.validate()?;
        Ok(artifact)
    }
}

} // verus!
