//! The code bundle: compiled functions, data objects and their relocations.

pub mod call;
pub mod decode;
pub mod encode;
pub mod laws;
pub mod validity_laws;

use crate::error::{codegen, outcome, Error, ErrorView};
use crate::text::{concat2, concat3, decimal, decimal_text, same_text};
use vstd::prelude::*;

verus! {

/// The fixed target accepted by this compiler stage.
pub const TARGET: &'static str = "sia32-unknown-none";

/// The version of the bundle format.
pub const BUNDLE_VERSION: u16 = 3;

/// Raw SIA32 code for one C function.
#[derive(Debug, Clone, PartialEq, Eq)]
pub struct FunctionArtifact {
    /// C linkage name.
    pub name: String,
    /// Native SIA32 instruction bytes.
    pub code: Vec<u8>,
    /// Link-time relocations emitted by the SIA32 backend.
    pub relocations: Vec<RelocationArtifact>,
}

/// One SIA32 link-time relocation.
#[derive(Debug, Clone, PartialEq, Eq)]
pub struct RelocationArtifact {
    pub offset: u32,
    pub target: String,
    pub addend: i64,
}

/// One relocatable data object emitted by Cosmic C.
#[derive(Debug, Clone, PartialEq, Eq)]
pub struct DataArtifact {
    /// Linkage name used by code and data relocations.
    pub name: String,
    /// Initial contents. Uninitialized objects are emitted as zero-filled bytes.
    pub bytes: Vec<u8>,
    /// Required power-of-two byte alignment.
    pub align: u32,
    /// Whether the object should be mapped read-only by the eventual linker or loader.
    pub read_only: bool,
    /// Link-time relocations embedded in this data object.
    pub relocations: Vec<RelocationArtifact>,
}

/// A relocatable SIA code bundle.
///
/// The bundle is intentionally small while the Cosmic object and image writer
/// is being built. It records unrelocated code and data with the relocations
/// that a linker has to apply.
#[derive(Debug, Clone, PartialEq, Eq)]
pub struct Artifact {
    /// Target triple used to build every contained function.
    pub target: &'static str,
    /// Compiled function bodies.
    pub functions: Vec<FunctionArtifact>,
    /// Relocatable global, static and string data objects.
    pub data: Vec<DataArtifact>,
}

/// What a [`RelocationArtifact`] says.
pub struct RelocationView {
    pub offset: u32,
    pub target: Seq<char>,
    pub addend: i64,
}

/// What a [`FunctionArtifact`] holds.
pub struct FunctionView {
    pub name: Seq<char>,
    pub code: Seq<u8>,
    pub relocations: Seq<RelocationView>,
}

/// What a [`DataArtifact`] holds.
pub struct DataView {
    pub name: Seq<char>,
    pub bytes: Seq<u8>,
    pub align: u32,
    pub read_only: bool,
    pub relocations: Seq<RelocationView>,
}

/// What an [`Artifact`] holds.
pub struct ArtifactView {
    pub target: Seq<char>,
    pub functions: Seq<FunctionView>,
    pub data: Seq<DataView>,
}

impl View for RelocationArtifact {
    type V = RelocationView;

    open spec fn view(&self) -> RelocationView {
        RelocationView { offset: self.offset, target: self.target@, addend: self.addend }
    }
}

/// What a list of relocations says.
pub open spec fn relocations_view(relocations: Seq<RelocationArtifact>) -> Seq<RelocationView> {
    Seq::new(relocations.len(), |i: int| relocations[i]@)
}

impl View for FunctionArtifact {
    type V = FunctionView;

    open spec fn view(&self) -> FunctionView {
        FunctionView {
            name: self.name@,
            code: self.code@,
            relocations: relocations_view(self.relocations@),
        }
    }
}

impl View for DataArtifact {
    type V = DataView;

    open spec fn view(&self) -> DataView {
        DataView {
            name: self.name@,
            bytes: self.bytes@,
            align: self.align,
            read_only: self.read_only,
            relocations: relocations_view(self.relocations@),
        }
    }
}

/// What a list of functions holds.
pub open spec fn functions_view(functions: Seq<FunctionArtifact>) -> Seq<FunctionView> {
    Seq::new(functions.len(), |i: int| functions[i]@)
}

/// What a list of data objects holds.
pub open spec fn data_view(data: Seq<DataArtifact>) -> Seq<DataView> {
    Seq::new(data.len(), |i: int| data[i]@)
}

impl View for Artifact {
    type V = ArtifactView;

    open spec fn view(&self) -> ArtifactView {
        ArtifactView {
            target: self.target@,
            functions: functions_view(self.functions@),
            data: data_view(self.data@),
        }
    }
}

/// Whether a number is a power of two.
pub open spec fn power_of_two(value: nat) -> bool
    decreases value,
{
    value == 1 || (value > 1 && value % 2 == 0 && power_of_two(value / 2))
}

/// Whether a number is a power of two.
pub fn is_power_of_two(value: u32) -> (result: bool)
    ensures
        result == power_of_two(value as nat),
{
    let mut rest: u32 = value;
    while rest > 1 && rest % 2 == 0
        invariant
            power_of_two(rest as nat) == power_of_two(value as nat),
        decreases rest,
    {
        rest = rest / 2;
    }
    rest == 1
}

/// The failure of a symbol that is defined twice.
pub open spec fn duplicate_symbol(name: Seq<char>) -> Seq<char> {
    "COSMIC-SIA bundle contains duplicate symbol `"@ + name + "`"@
}

/// Whether one of the first `count` functions has the name.
pub open spec fn function_named(functions: Seq<FunctionView>, name: Seq<char>, count: int) -> bool {
    exists|j: int| 0 <= j < count && j < functions.len() && (#[trigger] functions[j]).name == name
}

/// Whether one of the first `count` data objects has the name.
pub open spec fn object_named(data: Seq<DataView>, name: Seq<char>, count: int) -> bool {
    exists|j: int| 0 <= j < count && j < data.len() && (#[trigger] data[j]).name == name
}

/// What is wrong with the function at `index`, given those before it.
pub open spec fn function_problem(functions: Seq<FunctionView>, index: int) -> Option<Seq<char>> {
    let function = functions[index];
    if function.name.len() == 0 {
        Some("COSMIC-SIA function name must not be empty"@)
    } else if function_named(functions, function.name, index) {
        Some(duplicate_symbol(function.name))
    } else if function.code.len() == 0 || function.code.len() % 2 != 0 {
        Some(
            "COSMIC-SIA function `"@ + function.name
                + "` does not contain whole SIA instruction words"@,
        )
    } else {
        None
    }
}

/// What is wrong first with the functions from `index` on.
pub open spec fn functions_problem(functions: Seq<FunctionView>, index: nat) -> Option<Seq<char>>
    decreases functions.len() - index,
{
    if index >= functions.len() {
        None
    } else {
        match function_problem(functions, index as int) {
            Some(message) => Some(message),
            None => functions_problem(functions, index + 1),
        }
    }
}

/// What is wrong first with the relocations of a data object from `index` on.
pub open spec fn data_relocations_problem(object: DataView, index: nat) -> Option<Seq<char>>
    decreases object.relocations.len() - index,
{
    if index >= object.relocations.len() {
        None
    } else {
        let end = object.relocations[index as int].offset + 4;
        if end > usize::MAX {
            Some("data relocation offset overflows"@)
        } else if end > object.bytes.len() {
            Some(
                "COSMIC-SIA data relocation in `"@ + object.name + "` lies outside the object"@,
            )
        } else {
            data_relocations_problem(object, index + 1)
        }
    }
}

/// What is wrong with the data object at `index`, given all functions and the
/// objects before it.
pub open spec fn object_problem(
    functions: Seq<FunctionView>,
    data: Seq<DataView>,
    index: int,
) -> Option<Seq<char>> {
    let object = data[index];
    if object.name.len() == 0 {
        Some("COSMIC-SIA data object name must not be empty"@)
    } else if function_named(functions, object.name, functions.len() as int) || object_named(
        data,
        object.name,
        index,
    ) {
        Some(duplicate_symbol(object.name))
    } else if !power_of_two(object.align as nat) {
        Some(
            "COSMIC-SIA data object `"@ + object.name + "` has invalid alignment "@ + decimal(
                object.align as nat,
            ),
        )
    } else {
        data_relocations_problem(object, 0)
    }
}

/// What is wrong first with the data objects from `index` on.
pub open spec fn data_problem(
    functions: Seq<FunctionView>,
    data: Seq<DataView>,
    index: nat,
) -> Option<Seq<char>>
    decreases data.len() - index,
{
    if index >= data.len() {
        None
    } else {
        match object_problem(functions, data, index as int) {
            Some(message) => Some(message),
            None => data_problem(functions, data, index + 1),
        }
    }
}

/// What is wrong first with a bundle, if anything.
pub open spec fn problem(artifact: ArtifactView) -> Option<Seq<char>> {
    if artifact.target != TARGET@ {
        Some("COSMIC-SIA bundle target must be `"@ + TARGET@ + "`"@)
    } else if artifact.functions.len() == 0 && artifact.data.len() == 0 {
        Some("COSMIC-SIA bundle contains neither functions nor data"@)
    } else {
        match functions_problem(artifact.functions, 0) {
            Some(message) => Some(message),
            None => data_problem(artifact.functions, artifact.data, 0),
        }
    }
}

/// The outcome of checking a bundle.
pub open spec fn validated(artifact: ArtifactView) -> Result<(), ErrorView> {
    match problem(artifact) {
        Some(message) => Err(ErrorView::Codegen(message)),
        None => Ok(()),
    }
}

/// Whether one of the first `count` functions has the name.
fn has_function(functions: &Vec<FunctionArtifact>, name: &String, count: usize) -> (result: bool)
    requires
        count <= functions@.len(),
    ensures
        result == function_named(functions_view(functions@), name@, count as int),
{
    let ghost view = functions_view(functions@);
    let mut index: usize = 0;
    while index < count
        invariant
            index <= count <= functions@.len(),
            view == functions_view(functions@),
            forall|j: int| 0 <= j < index ==> (#[trigger] view[j]).name != name@,
        decreases count - index,
    {
        if functions[index].name == *name {
            assert(view[index as int].name == name@);
            return true;
        }
        index += 1;
    }
    false
}

/// Whether one of the first `count` data objects has the name.
fn has_object(data: &Vec<DataArtifact>, name: &String, count: usize) -> (result: bool)
    requires
        count <= data@.len(),
    ensures
        result == object_named(data_view(data@), name@, count as int),
{
    let ghost view = data_view(data@);
    let mut index: usize = 0;
    while index < count
        invariant
            index <= count <= data@.len(),
            view == data_view(data@),
            forall|j: int| 0 <= j < index ==> (#[trigger] view[j]).name != name@,
        decreases count - index,
    {
        if data[index].name == *name {
            assert(view[index as int].name == name@);
            return true;
        }
        index += 1;
    }
    false
}

/// Reports the symbol as defined twice.
fn duplicate_error(name: &String) -> (result: Error)
    ensures
        result@ == ErrorView::Codegen(duplicate_symbol(name@)),
{
    codegen(
        concat3("COSMIC-SIA bundle contains duplicate symbol `", name.as_str(), "`").as_str(),
    )
}

/// The outcome of a check that either finds nothing or a problem.
pub open spec fn checked(problem: Option<Seq<char>>) -> Result<(), ErrorView> {
    match problem {
        Some(message) => Err(ErrorView::Codegen(message)),
        None => Ok(()),
    }
}

/// Checks that the relocations of a data object lie inside it.
fn validate_data_relocations(object: &DataArtifact) -> (result: Result<(), Error>)
    ensures
        outcome(result) == checked(data_relocations_problem(object@, 0)),
{
    let mut index: usize = 0;
    while index < object.relocations.len()
        invariant
            index <= object.relocations@.len(),
            data_relocations_problem(object@, index as nat) == data_relocations_problem(
                object@,
                0,
            ),
        decreases object.relocations@.len() - index,
    {
        let offset: u32 = object.relocations[index].offset;
        assert(object@.relocations[index as int].offset == offset);
        match (offset as usize).checked_add(4) {
            None => {
                return Err(codegen("data relocation offset overflows"));
            },
            Some(end) => {
                if end > object.bytes.len() {
                    let message = concat3(
                        "COSMIC-SIA data relocation in `",
                        object.name.as_str(),
                        "` lies outside the object",
                    );
                    return Err(codegen(message.as_str()));
                }
            },
        }
        index += 1;
    }
    Ok(())
}

impl Artifact {
    /// Checks the functions of the bundle.
    fn validate_functions(&self) -> (result: Result<(), Error>)
        ensures
            outcome(result) == checked(functions_problem(self@.functions, 0)),
    {
        let mut index: usize = 0;
        while index < self.functions.len()
            invariant
                index <= self.functions@.len(),
                functions_problem(self@.functions, index as nat) == functions_problem(
                    self@.functions,
                    0,
                ),
            decreases self.functions@.len() - index,
        {
            let function = &self.functions[index];
            assert(self@.functions[index as int] == function@);
            if function.name.as_str().is_empty() {
                return Err(codegen("COSMIC-SIA function name must not be empty"));
            }
            if has_function(&self.functions, &function.name, index) {
                return Err(duplicate_error(&function.name));
            }
            if function.code.len() == 0 || function.code.len() % 2 != 0 {
                let message = concat3(
                    "COSMIC-SIA function `",
                    function.name.as_str(),
                    "` does not contain whole SIA instruction words",
                );
                return Err(codegen(message.as_str()));
            }
            index += 1;
        }
        Ok(())
    }

    /// Checks the data objects of the bundle.
    fn validate_data(&self) -> (result: Result<(), Error>)
        ensures
            outcome(result) == checked(data_problem(self@.functions, self@.data, 0)),
    {
        let mut index: usize = 0;
        while index < self.data.len()
            invariant
                index <= self.data@.len(),
                data_problem(self@.functions, self@.data, index as nat) == data_problem(
                    self@.functions,
                    self@.data,
                    0,
                ),
            decreases self.data@.len() - index,
        {
            let object = &self.data[index];
            assert(self@.data[index as int] == object@);
            if object.name.as_str().is_empty() {
                return Err(codegen("COSMIC-SIA data object name must not be empty"));
            }
            if has_function(&self.functions, &object.name, self.functions.len()) || has_object(
                &self.data,
                &object.name,
                index,
            ) {
                return Err(duplicate_error(&object.name));
            }
            if !is_power_of_two(object.align) {
                let name = concat3(
                    "COSMIC-SIA data object `",
                    object.name.as_str(),
                    "` has invalid alignment ",
                );
                let message = concat2(
                    name.as_str(),
                    decimal_text(object.align as u64).as_str(),
                );
                return Err(codegen(message.as_str()));
            }
            validate_data_relocations(object)?;
            index += 1;
        }
        Ok(())
    }

    /// Checks that the bundle can be written and loaded: the target, symbols
    /// with distinct names that are not empty, whole instruction words,
    /// power-of-two alignments, and data relocations inside their objects.
    pub fn validate(&self) -> (result: Result<(), Error>)
        ensures
            outcome(result) == validated(self@),
    {
        if !same_text(self.target, TARGET) {
            let message = concat3("COSMIC-SIA bundle target must be `", TARGET, "`");
            return Err(codegen(message.as_str()));
        }
        if self.functions.len() == 0 && self.data.len() == 0 {
            return Err(codegen("COSMIC-SIA bundle contains neither functions nor data"));
        }
        self.validate_functions()?;
        self.validate_data()
    }
}

} // verus!
