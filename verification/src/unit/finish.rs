//! Bundles made of what the code generator returns.

use crate::bundle::{
    functions_view, relocations_view, TARGET, Artifact, ArtifactView, FunctionArtifact,
    FunctionView, RelocationArtifact, RelocationView,
};
use crate::error::{codegen, outcome_view, Error, ErrorView};
use crate::lower::state::lookup;
use crate::text::{concat2, concat3, decimal, decimal_text};
use crate::unit::data::lookup_name;
use crate::unit::plan::{Planned, UnitPlan};
use crate::unit::strings::{string_symbol, string_symbol_name};
use crate::unit::symbols::{UnitSymbols, UnitSymbolsView};
use std::collections::HashMap;
use vstd::prelude::*;

verus! {

broadcast use vstd::std_specs::hash::group_hash_axioms;

/// The kind of a relocation that the code generator emits.
pub enum RelocationKind {
    /// Four bytes that hold an address.
    Abs4,
    /// Any other kind, as diagnostics render it.
    Other(String),
}

/// What a relocation that the code generator emits refers to.
pub enum RelocationTarget {
    /// A symbol by its namespace and number.
    User { namespace: u32, index: u32 },
    /// Anything else, as diagnostics render it.
    Other(String),
}

/// A relocation that the code generator emits.
pub struct BackendRelocation {
    pub offset: u32,
    pub kind: RelocationKind,
    pub target: RelocationTarget,
    pub addend: i64,
}

/// What the code generator returns for one function.
pub enum BackendOutcome {
    /// The code and its relocations.
    Compiled { code: Vec<u8>, relocations: Vec<BackendRelocation> },
    /// Why there is no code, and the input of the code generator as text.
    Failed { reason: String, input: String },
}

/// The linkage name of the symbol with a number.
pub open spec fn numbered_symbol(
    numbers: Map<u32, usize>,
    symbols: UnitSymbolsView,
    index: nat,
) -> Option<Seq<char>> {
    if index < symbols.keys.len() {
        let key = symbols.keys[index as int];
        if numbers.contains_key(key) && numbers[key] == index && symbols.names.contains_key(key) {
            Some(symbols.names[key])
        } else {
            None
        }
    } else {
        None
    }
}

/// The linkage name that a namespace and number stand for: functions,
/// objects, string literals.
pub open spec fn target_name(
    symbols: UnitSymbolsView,
    namespace: u32,
    index: nat,
    function: Seq<char>,
) -> Result<Seq<char>, Seq<char>> {
    if namespace == 0 || namespace == 1 {
        let numbers = if namespace == 0 {
            symbols.tables.functions
        } else {
            symbols.tables.globals
        };
        match numbered_symbol(numbers, symbols, index) {
            Some(name) => Ok(name),
            None => Err("SIA32 emitted unknown symbol relocation in "@ + function),
        }
    } else if namespace == 2 {
        if index < symbols.tables.strings.len() {
            Ok(string_symbol(index))
        } else {
            Err("SIA32 emitted unknown string relocation in "@ + function)
        }
    } else {
        Err(
            "SIA32 emitted relocation from unknown namespace "@ + decimal(namespace as nat)
                + " in "@ + function,
        )
    }
}

/// A relocation by the name of its target.
pub open spec fn resolved_spec(
    symbols: UnitSymbolsView,
    relocation: BackendRelocation,
    function: Seq<char>,
) -> Result<RelocationView, ErrorView> {
    match (relocation.kind, relocation.target) {
        (RelocationKind::Other(kind), _) => Err(
            ErrorView::Codegen(
                "SIA32 emitted unsupported relocation "@ + kind@ + " in "@ + function,
            ),
        ),
        (RelocationKind::Abs4, RelocationTarget::Other(target)) => Err(
            ErrorView::Codegen(
                "SIA32 emitted unsupported relocation target "@ + target@ + " in "@ + function,
            ),
        ),
        (RelocationKind::Abs4, RelocationTarget::User { namespace, index }) => match target_name(
            symbols,
            namespace,
            index as nat,
            function,
        ) {
            Err(message) => Err(ErrorView::Codegen(message)),
            Ok(target) => Ok(
                RelocationView {
                    offset: relocation.offset,
                    target,
                    addend: relocation.addend,
                },
            ),
        },
    }
}

/// The relocations from `index` on, after those in `found`.
pub open spec fn resolved_from(
    symbols: UnitSymbolsView,
    relocations: Seq<BackendRelocation>,
    index: nat,
    function: Seq<char>,
    found: Seq<RelocationView>,
) -> Result<Seq<RelocationView>, ErrorView>
    decreases relocations.len() - index,
{
    if index >= relocations.len() {
        Ok(found)
    } else {
        match resolved_spec(symbols, relocations[index as int], function) {
            Err(error) => Err(error),
            Ok(relocation) => resolved_from(
                symbols,
                relocations,
                index + 1,
                function,
                found.push(relocation),
            ),
        }
    }
}

/// The function that the code generator made, if its code is whole
/// instruction words and its relocations are known.
pub open spec fn function_finished(
    symbols: UnitSymbolsView,
    name: Seq<char>,
    outcome: BackendOutcome,
) -> Result<FunctionView, ErrorView> {
    match outcome {
        BackendOutcome::Failed { reason, input } => Err(
            ErrorView::Codegen(
                "SIA32 lowering failed for "@ + name + ": "@ + reason@ + "\nCLIF:\n"@ + input@,
            ),
        ),
        BackendOutcome::Compiled { code, relocations } => match resolved_from(
            symbols,
            relocations@,
            0,
            name,
            Seq::empty(),
        ) {
            Err(error) => Err(error),
            Ok(relocations) => if code@.len() == 0 || code@.len() % 2 != 0 {
                Err(
                    ErrorView::Codegen("SIA32 emitted invalid instruction bytes for "@ + name),
                )
            } else {
                Ok(FunctionView { name, code: code@, relocations })
            },
        },
    }
}

/// The functions from `index` on, after those in `found`.
pub open spec fn functions_finished(
    symbols: UnitSymbolsView,
    planned: Planned,
    outcomes: Seq<BackendOutcome>,
    index: nat,
    found: Seq<FunctionView>,
) -> Result<Seq<FunctionView>, ErrorView>
    decreases planned.functions.len() - index,
{
    if index >= planned.functions.len() {
        Ok(found)
    } else {
        match function_finished(
            symbols,
            planned.functions[index as int].name,
            outcomes[index as int],
        ) {
            Err(error) => Err(error),
            Ok(function) => functions_finished(
                symbols,
                planned,
                outcomes,
                index + 1,
                found.push(function),
            ),
        }
    }
}

/// The bundle of a translation unit, or the first failure on the way to it:
/// of the code generator, of planning, or that there is no function.
pub open spec fn unit_finished(
    symbols: UnitSymbolsView,
    planned: Planned,
    outcomes: Seq<BackendOutcome>,
) -> Result<ArtifactView, ErrorView> {
    match functions_finished(symbols, planned, outcomes, 0, Seq::empty()) {
        Err(error) => Err(error),
        Ok(functions) => match planned.failure {
            Some(error) => Err(error),
            None => if functions.len() == 0 {
                Err(ErrorView::Codegen("the source contains no C function definitions"@))
            } else {
                Ok(ArtifactView { target: TARGET@, functions, data: planned.data })
            },
        },
    }
}

/// The linkage name of the symbol with a number.
fn symbol_with_number(numbers: &HashMap<u32, usize>, symbols: &UnitSymbols, index: usize) -> (result:
    Option<String>)
    ensures
        (match result {
            Some(name) => numbered_symbol(numbers@, symbols@, index as nat) == Some(name@),
            None => numbered_symbol(numbers@, symbols@, index as nat) is None,
        }),
{
    if index >= symbols.keys.len() {
        return None;
    }
    let key: u32 = symbols.keys[index];
    match lookup(numbers, key) {
        Some(number) => {
            if number == index {
                lookup_name(&symbols.names, key)
            } else {
                None
            }
        },
        None => None,
    }
}

/// The linkage name that a namespace and number stand for.
fn relocation_target(symbols: &UnitSymbols, namespace: u32, index: u32, function: &String) -> (result:
    Result<String, Error>)
    ensures
        (match (target_name(symbols@, namespace, index as nat, function@), result) {
            (Ok(expected), Ok(name)) => name@ == expected,
            (Err(expected), Err(error)) => error@ == ErrorView::Codegen(expected),
            _ => false,
        }),
{
    match namespace {
        0 | 1 => {
            let numbers = if namespace == 0 {
                &symbols.tables.functions
            } else {
                &symbols.tables.globals
            };
            match symbol_with_number(numbers, symbols, index as usize) {
                Some(name) => Ok(name),
                None => {
                    let message = concat2(
                        "SIA32 emitted unknown symbol relocation in ",
                        function.as_str(),
                    );
                    Err(codegen(message.as_str()))
                },
            }
        },
        2 => {
            if (index as usize) < symbols.tables.strings.len() {
                Ok(string_symbol_name(index as usize))
            } else {
                let message = concat2(
                    "SIA32 emitted unknown string relocation in ",
                    function.as_str(),
                );
                Err(codegen(message.as_str()))
            }
        },
        _ => {
            let prefix = concat2(
                "SIA32 emitted relocation from unknown namespace ",
                decimal_text(namespace as u64).as_str(),
            );
            let message = concat3(prefix.as_str(), " in ", function.as_str());
            Err(codegen(message.as_str()))
        },
    }
}

/// A relocation by the name of its target.
fn resolve_relocation(symbols: &UnitSymbols, relocation: &BackendRelocation, function: &String) -> (result:
    Result<RelocationArtifact, Error>)
    ensures
        outcome_view(result) == resolved_spec(symbols@, *relocation, function@),
{
    match &relocation.kind {
        RelocationKind::Other(kind) => {
            let prefix = concat2("SIA32 emitted unsupported relocation ", kind.as_str());
            let message = concat3(prefix.as_str(), " in ", function.as_str());
            Err(codegen(message.as_str()))
        },
        RelocationKind::Abs4 => match &relocation.target {
            RelocationTarget::Other(target) => {
                let prefix = concat2(
                    "SIA32 emitted unsupported relocation target ",
                    target.as_str(),
                );
                let message = concat3(prefix.as_str(), " in ", function.as_str());
                Err(codegen(message.as_str()))
            },
            RelocationTarget::User { namespace, index } => {
                let target = relocation_target(symbols, *namespace, *index, function)?;
                Ok(
                    RelocationArtifact {
                        offset: relocation.offset,
                        target,
                        addend: relocation.addend,
                    },
                )
            },
        },
    }
}

/// A list of relocations, by its view.
pub open spec fn relocations_outcome(result: Result<Vec<RelocationArtifact>, Error>) -> Result<
    Seq<RelocationView>,
    ErrorView,
> {
    match result {
        Ok(relocations) => Ok(relocations_view(relocations@)),
        Err(error) => Err(error@),
    }
}

/// The relocations by the names of their targets.
fn resolve_relocations(
    symbols: &UnitSymbols,
    relocations: &Vec<BackendRelocation>,
    function: &String,
) -> (result: Result<Vec<RelocationArtifact>, Error>)
    ensures
        relocations_outcome(result) == resolved_from(
            symbols@,
            relocations@,
            0,
            function@,
            Seq::empty(),
        ),
{
    let mut found: Vec<RelocationArtifact> = Vec::new();
    assert(relocations_view(found@) =~= Seq::empty());
    let mut index: usize = 0;
    while index < relocations.len()
        invariant
            index <= relocations@.len(),
            resolved_from(
                symbols@,
                relocations@,
                index as nat,
                function@,
                relocations_view(found@),
            ) == resolved_from(symbols@, relocations@, 0, function@, Seq::empty()),
        decreases relocations@.len() - index,
    {
        let ghost before = relocations_view(found@);
        let relocation = resolve_relocation(symbols, &relocations[index], function)?;
        found.push(relocation);
        assert(relocations_view(found@) =~= before.push(relocation@));
        index += 1;
    }
    Ok(found)
}

/// Makes a function of what the code generator returned for it.
pub fn finish_function(symbols: &UnitSymbols, name: &String, outcome: &BackendOutcome) -> (result:
    Result<FunctionArtifact, Error>)
    ensures
        outcome_view(result) == function_finished(symbols@, name@, *outcome),
{
    match outcome {
        BackendOutcome::Failed { reason, input } => {
            let prefix = concat3("SIA32 lowering failed for ", name.as_str(), ": ");
            let failure = concat3(prefix.as_str(), reason.as_str(), "\nCLIF:\n");
            let message = concat2(failure.as_str(), input.as_str());
            Err(codegen(message.as_str()))
        },
        BackendOutcome::Compiled { code, relocations } => {
            let relocations = resolve_relocations(symbols, relocations, name)?;
            if code.len() == 0 || code.len() % 2 != 0 {
                let message = concat2(
                    "SIA32 emitted invalid instruction bytes for ",
                    name.as_str(),
                );
                return Err(codegen(message.as_str()));
            }
            let copy = code.clone();
            assert(copy@ =~= code@);
            Ok(FunctionArtifact { name: name.clone(), code: copy, relocations })
        },
    }
}

/// Makes the bundle of a planned translation unit, given what the code
/// generator returned for each of its functions.
pub fn finish_unit(plan: UnitPlan, outcomes: &Vec<BackendOutcome>) -> (result: Result<
    Artifact,
    Error,
>)
    requires
        outcomes@.len() == plan.functions@.len(),
    ensures
        outcome_view(result) == unit_finished(plan.symbols@, plan.planned(), outcomes@),
{
    let ghost planned = plan.planned();
    let ghost symbols = plan.symbols@;
    let mut functions: Vec<FunctionArtifact> = Vec::new();
    assert(functions_view(functions@) =~= Seq::empty());
    let mut index: usize = 0;
    while index < plan.functions.len()
        invariant
            index <= plan.functions@.len() == outcomes@.len(),
            planned == plan.planned(),
            symbols == plan.symbols@,
            functions_finished(
                symbols,
                planned,
                outcomes@,
                index as nat,
                functions_view(functions@),
            ) == functions_finished(symbols, planned, outcomes@, 0, Seq::empty()),
        decreases plan.functions@.len() - index,
    {
        let ghost before = functions_view(functions@);
        assert(planned.functions[index as int] == plan.functions@[index as int]@);
        let function = finish_function(
            &plan.symbols,
            &plan.functions[index].name,
            &outcomes[index],
        )?;
        functions.push(function);
        assert(functions_view(functions@) =~= before.push(function@));
        index += 1;
    }
    if let Some(error) = plan.failure {
        return Err(error);
    }
    if functions.len() == 0 {
        return Err(codegen("the source contains no C function definitions"));
    }
    Ok(Artifact { target: TARGET, functions, data: plan.data })
}

} // verus!
