//! Writing a bundle.

use crate::bundle::{
    data_view, functions_view, relocations_view, validated, BUNDLE_VERSION, Artifact, ArtifactView,
    DataArtifact, DataView, FunctionArtifact, FunctionView, RelocationArtifact, RelocationView,
};
use crate::error::{codegen, outcome, outcome_view, Error, ErrorView};
use vstd::prelude::*;
use vstd::utf8::encode_utf8;

verus! {

/// The bytes that every bundle starts with: `COSMIC-SIA` and a zero.
pub open spec fn magic() -> Seq<u8> {
    seq![67, 79, 83, 77, 73, 67, 45, 83, 73, 65, 0]
}

/// The bytes that every bundle starts with.
pub fn magic_bytes() -> (result: Vec<u8>)
    ensures
        result@ == magic(),
{
    let result: Vec<u8> = vec![67, 79, 83, 77, 73, 67, 45, 83, 73, 65, 0];
    assert(result@ =~= magic());
    result
}

/// The `width` low bytes of a number, the lowest first.
pub open spec fn le_bytes(value: nat, width: nat) -> Seq<u8>
    decreases width,
{
    if width == 0 {
        Seq::empty()
    } else {
        seq![(value % 256) as u8] + le_bytes(value / 256, (width - 1) as nat)
    }
}

/// A text with its length in front.
pub open spec fn name_bytes(name: Seq<char>) -> Seq<u8> {
    le_bytes(encode_utf8(name).len(), 2) + encode_utf8(name)
}

/// One relocation.
pub open spec fn relocation_bytes(relocation: RelocationView) -> Seq<u8> {
    le_bytes(relocation.offset as nat, 4) + le_bytes(relocation.addend as u64 as nat, 8)
        + name_bytes(relocation.target)
}

/// The relocations from `index` on.
pub open spec fn relocations_bytes(relocations: Seq<RelocationView>, index: nat) -> Seq<u8>
    decreases relocations.len() - index,
{
    if index >= relocations.len() {
        Seq::empty()
    } else {
        relocation_bytes(relocations[index as int]) + relocations_bytes(relocations, index + 1)
    }
}

/// A list of relocations with its length in front.
pub open spec fn relocation_list_bytes(relocations: Seq<RelocationView>) -> Seq<u8> {
    le_bytes(relocations.len(), 2) + relocations_bytes(relocations, 0)
}

/// Bytes with their number in front.
pub open spec fn block_bytes(bytes: Seq<u8>) -> Seq<u8> {
    le_bytes(bytes.len(), 4) + bytes
}

/// One function.
pub open spec fn function_bytes(function: FunctionView) -> Seq<u8> {
    name_bytes(function.name) + block_bytes(function.code) + relocation_list_bytes(
        function.relocations,
    )
}

/// The functions from `index` on.
pub open spec fn functions_bytes(functions: Seq<FunctionView>, index: nat) -> Seq<u8>
    decreases functions.len() - index,
{
    if index >= functions.len() {
        Seq::empty()
    } else {
        function_bytes(functions[index as int]) + functions_bytes(functions, index + 1)
    }
}

/// One data object.
pub open spec fn object_bytes(object: DataView) -> Seq<u8> {
    name_bytes(object.name) + le_bytes(object.align as nat, 4) + seq![
        if object.read_only {
            1u8
        } else {
            0u8
        },
    ] + block_bytes(object.bytes) + relocation_list_bytes(object.relocations)
}

/// The data objects from `index` on.
pub open spec fn objects_bytes(data: Seq<DataView>, index: nat) -> Seq<u8>
    decreases data.len() - index,
{
    if index >= data.len() {
        Seq::empty()
    } else {
        object_bytes(data[index as int]) + objects_bytes(data, index + 1)
    }
}

/// The bytes of a bundle.
pub open spec fn bundle_bytes(artifact: ArtifactView) -> Seq<u8> {
    magic() + le_bytes(BUNDLE_VERSION as nat, 2) + le_bytes(artifact.functions.len(), 2)
        + functions_bytes(artifact.functions, 0) + le_bytes(artifact.data.len(), 2)
        + objects_bytes(artifact.data, 0)
}

/// The first of the relocations from `index` on whose target is too long.
pub open spec fn relocations_excess(relocations: Seq<RelocationView>, index: nat) -> Option<
    Seq<char>,
>
    decreases relocations.len() - index,
{
    if index >= relocations.len() {
        None
    } else if encode_utf8(relocations[index as int].target).len() > u16::MAX {
        Some("relocation target name is too long"@)
    } else {
        relocations_excess(relocations, index + 1)
    }
}

/// What of a function does not fit the format.
pub open spec fn function_excess(function: FunctionView) -> Option<Seq<char>> {
    if encode_utf8(function.name).len() > u16::MAX {
        Some("function name is too long for a SIA bundle"@)
    } else if function.code.len() > u32::MAX {
        Some("function body is too large for a SIA bundle"@)
    } else if function.relocations.len() > u16::MAX {
        Some("too many relocations for a SIA function"@)
    } else {
        relocations_excess(function.relocations, 0)
    }
}

/// What of the functions from `index` on does not fit the format.
pub open spec fn functions_excess(functions: Seq<FunctionView>, index: nat) -> Option<Seq<char>>
    decreases functions.len() - index,
{
    if index >= functions.len() {
        None
    } else {
        match function_excess(functions[index as int]) {
            Some(message) => Some(message),
            None => functions_excess(functions, index + 1),
        }
    }
}

/// What of a data object does not fit the format.
pub open spec fn object_excess(object: DataView) -> Option<Seq<char>> {
    if encode_utf8(object.name).len() > u16::MAX {
        Some("data object name is too long"@)
    } else if object.bytes.len() > u32::MAX {
        Some("data object is too large"@)
    } else if object.relocations.len() > u16::MAX {
        Some("too many relocations for a SIA data object"@)
    } else {
        relocations_excess(object.relocations, 0)
    }
}

/// What of the data objects from `index` on does not fit the format.
pub open spec fn objects_excess(data: Seq<DataView>, index: nat) -> Option<Seq<char>>
    decreases data.len() - index,
{
    if index >= data.len() {
        None
    } else {
        match object_excess(data[index as int]) {
            Some(message) => Some(message),
            None => objects_excess(data, index + 1),
        }
    }
}

/// What of a bundle does not fit the format, if anything.
pub open spec fn excess(artifact: ArtifactView) -> Option<Seq<char>> {
    if artifact.functions.len() > u16::MAX {
        Some("too many functions for a SIA bundle"@)
    } else {
        match functions_excess(artifact.functions, 0) {
            Some(message) => Some(message),
            None => if artifact.data.len() > u16::MAX {
                Some("too many data objects for a SIA bundle"@)
            } else {
                objects_excess(artifact.data, 0)
            },
        }
    }
}

/// The bytes of a bundle that is valid and fits the format.
pub open spec fn encoded(artifact: ArtifactView) -> Result<Seq<u8>, ErrorView> {
    match validated(artifact) {
        Err(error) => Err(error),
        Ok(_) => match excess(artifact) {
            Some(message) => Err(ErrorView::Codegen(message)),
            None => Ok(bundle_bytes(artifact)),
        },
    }
}

/// Appends the low bytes of a number.
pub fn push_number(bytes: &mut Vec<u8>, value: u64, width: usize)
    ensures
        final(bytes)@ == old(bytes)@ + le_bytes(value as nat, width as nat),
{
    let mut rest: u64 = value;
    let mut left: usize = width;
    while left > 0
        invariant
            bytes@ + le_bytes(rest as nat, left as nat) == old(bytes)@ + le_bytes(
                value as nat,
                width as nat,
            ),
        decreases left,
    {
        let ghost before = bytes@;
        bytes.push((rest % 256) as u8);
        assert(bytes@ + le_bytes((rest / 256) as nat, (left - 1) as nat) =~= before + le_bytes(
            rest as nat,
            left as nat,
        ));
        rest = rest / 256;
        left -= 1;
    }
    assert(bytes@ + le_bytes(rest as nat, 0) =~= bytes@);
}

/// Appends bytes.
fn push_bytes(bytes: &mut Vec<u8>, more: &[u8])
    ensures
        final(bytes)@ == old(bytes)@ + more@,
{
    bytes.extend_from_slice(more);
    assert(bytes@ =~= old(bytes)@ + more@);
}

/// Whether a part was written, or what `excess` says does not fit.
pub open spec fn written(excess: Option<Seq<char>>) -> Result<(), ErrorView> {
    match excess {
        Some(message) => Err(ErrorView::Codegen(message)),
        None => Ok(()),
    }
}

/// Appends a text that is known to fit.
fn push_name(bytes: &mut Vec<u8>, name: &String)
    requires
        encode_utf8(name@).len() <= u16::MAX,
    ensures
        final(bytes)@ == old(bytes)@ + name_bytes(name@),
{
    let text = name.as_str().as_bytes();
    push_number(bytes, text.len() as u64, 2);
    push_bytes(bytes, text);
    assert(bytes@ =~= old(bytes)@ + name_bytes(name@));
}

/// Appends the relocations of a function or data object.
fn push_relocations(bytes: &mut Vec<u8>, relocations: &Vec<RelocationArtifact>) -> (result: Result<
    (),
    Error,
>)
    requires
        relocations@.len() <= u16::MAX,
    ensures
        outcome(result) == written(relocations_excess(relocations_view(relocations@), 0)),
        result is Ok ==> final(bytes)@ == old(bytes)@ + relocation_list_bytes(
            relocations_view(relocations@),
        ),
{
    let ghost view = relocations_view(relocations@);
    push_number(bytes, relocations.len() as u64, 2);
    let ghost start = bytes@;
    assert(start + relocations_bytes(view, 0) =~= old(bytes)@ + relocation_list_bytes(view));
    let mut index: usize = 0;
    while index < relocations.len()
        invariant
            index <= relocations@.len(),
            view == relocations_view(relocations@),
            relocations_excess(view, index as nat) == relocations_excess(view, 0),
            bytes@ + relocations_bytes(view, index as nat) == start + relocations_bytes(view, 0),
        decreases relocations@.len() - index,
    {
        let relocation = &relocations[index];
        assert(view[index as int] == relocation@);
        if relocation.target.as_str().as_bytes().len() > 0xffff {
            return Err(codegen("relocation target name is too long"));
        }
        let ghost before = bytes@;
        push_number(bytes, relocation.offset as u64, 4);
        push_number(bytes, #[verifier::truncate] (relocation.addend as u64), 8);
        push_name(bytes, &relocation.target);
        assert(bytes@ =~= before + relocation_bytes(relocation@));
        assert(bytes@ + relocations_bytes(view, index as nat + 1) =~= before + relocations_bytes(
            view,
            index as nat,
        ));
        index += 1;
    }
    assert(bytes@ + relocations_bytes(view, index as nat) =~= bytes@);
    Ok(())
}

/// Appends one function.
fn push_function(bytes: &mut Vec<u8>, function: &FunctionArtifact) -> (result: Result<(), Error>)
    ensures
        outcome(result) == written(function_excess(function@)),
        result is Ok ==> final(bytes)@ == old(bytes)@ + function_bytes(function@),
{
    if function.name.as_str().as_bytes().len() > 0xffff {
        return Err(codegen("function name is too long for a SIA bundle"));
    }
    if function.code.len() as u64 > 0xffff_ffff {
        return Err(codegen("function body is too large for a SIA bundle"));
    }
    push_name(bytes, &function.name);
    push_number(bytes, function.code.len() as u64, 4);
    push_bytes(bytes, function.code.as_slice());
    if function.relocations.len() > 0xffff {
        return Err(codegen("too many relocations for a SIA function"));
    }
    push_relocations(bytes, &function.relocations)?;
    assert(bytes@ =~= old(bytes)@ + function_bytes(function@));
    Ok(())
}

/// Appends one data object.
fn push_object(bytes: &mut Vec<u8>, object: &DataArtifact) -> (result: Result<(), Error>)
    ensures
        outcome(result) == written(object_excess(object@)),
        result is Ok ==> final(bytes)@ == old(bytes)@ + object_bytes(object@),
{
    if object.name.as_str().as_bytes().len() > 0xffff {
        return Err(codegen("data object name is too long"));
    }
    if object.bytes.len() as u64 > 0xffff_ffff {
        return Err(codegen("data object is too large"));
    }
    push_name(bytes, &object.name);
    push_number(bytes, object.align as u64, 4);
    bytes.push(
        if object.read_only {
            1
        } else {
            0
        },
    );
    push_number(bytes, object.bytes.len() as u64, 4);
    push_bytes(bytes, object.bytes.as_slice());
    if object.relocations.len() > 0xffff {
        return Err(codegen("too many relocations for a SIA data object"));
    }
    push_relocations(bytes, &object.relocations)?;
    assert(bytes@ =~= old(bytes)@ + object_bytes(object@));
    Ok(())
}

impl Artifact {
    /// Serialize this artifact to the stable, little-endian `COSMIC-SIA` bundle format.
    pub fn to_bytes(&self) -> (result: Result<Vec<u8>, Error>)
        ensures
            outcome_view(result) == encoded(self@),
    {
        self.validate()?;
        let mut bytes = magic_bytes();
        push_number(&mut bytes, BUNDLE_VERSION as u64, 2);
        if self.functions.len() > 0xffff {
            return Err(codegen("too many functions for a SIA bundle"));
        }
        push_number(&mut bytes, self.functions.len() as u64, 2);
        let ghost functions = functions_view(self.functions@);
        let ghost data = data_view(self.data@);
        let ghost start = bytes@;
        let mut index: usize = 0;
        while index < self.functions.len()
            invariant
                index <= self.functions@.len() <= u16::MAX,
                functions == functions_view(self.functions@),
                validated(self@) is Ok,
                functions_excess(functions, index as nat) == functions_excess(functions, 0),
                bytes@ + functions_bytes(functions, index as nat) == start + functions_bytes(
                    functions,
                    0,
                ),
            decreases self.functions@.len() - index,
        {
            let ghost before = bytes@;
            assert(functions[index as int] == self.functions@[index as int]@);
            push_function(&mut bytes, &self.functions[index])?;
            assert(bytes@ + functions_bytes(functions, index as nat + 1) =~= before
                + functions_bytes(functions, index as nat));
            index += 1;
        }
        assert(bytes@ + functions_bytes(functions, index as nat) =~= bytes@);
        if self.data.len() > 0xffff {
            return Err(codegen("too many data objects for a SIA bundle"));
        }
        push_number(&mut bytes, self.data.len() as u64, 2);
        let ghost middle = bytes@;
        let mut index: usize = 0;
        while index < self.data.len()
            invariant
                index <= self.data@.len() <= u16::MAX,
                self.functions@.len() <= u16::MAX,
                functions == functions_view(self.functions@),
                data == data_view(self.data@),
                validated(self@) is Ok,
                functions_excess(functions, 0) is None,
                objects_excess(data, index as nat) == objects_excess(data, 0),
                bytes@ + objects_bytes(data, index as nat) == middle + objects_bytes(data, 0),
            decreases self.data@.len() - index,
        {
            let ghost before = bytes@;
            assert(data[index as int] == self.data@[index as int]@);
            push_object(&mut bytes, &self.data[index])?;
            assert(bytes@ + objects_bytes(data, index as nat + 1) =~= before + objects_bytes(
                data,
                index as nat,
            ));
            index += 1;
        }
        assert(bytes@ =~= bundle_bytes(self@));
        Ok(bytes)
    }
}

} // verus!
