//! What a valid bundle is, and what a call of one of its functions starts with.

use crate::bundle::call::{call_spec, function_position};
use crate::bundle::{
    data_problem, data_relocations_problem, function_problem, functions_problem, object_problem,
    power_of_two, validated, TARGET, ArtifactView, DataView, FunctionView,
};
use vstd::arithmetic::power2::{lemma_pow2_pos, lemma_pow2_unfold, pow2};
use vstd::prelude::*;

verus! {

/// Whether a function has a name and whole instruction words.
pub open spec fn function_is_whole(function: FunctionView) -> bool {
    &&& function.name.len() > 0
    &&& function.code.len() > 0
    &&& function.code.len() % 2 == 0
}

/// Whether a data object has a name, an alignment that is a power of two, and
/// room for its relocations, of four bytes each.
pub open spec fn object_is_whole(object: DataView) -> bool {
    &&& object.name.len() > 0
    &&& exists|shift: nat| object.align == #[trigger] pow2(shift)
    &&& forall|i: int|
        0 <= i < object.relocations.len() ==> (#[trigger] object.relocations[i]).offset + 4
            <= object.bytes.len()
}

/// Whether no two symbols of a bundle have the same name.
pub open spec fn names_differ(artifact: ArtifactView) -> bool {
    &&& forall|i: int, j: int|
        0 <= i < j < artifact.functions.len() ==> (#[trigger] artifact.functions[i]).name != (
        #[trigger] artifact.functions[j]).name
    &&& forall|i: int, j: int|
        0 <= i < j < artifact.data.len() ==> (#[trigger] artifact.data[i]).name != (
        #[trigger] artifact.data[j]).name
    &&& forall|i: int, j: int|
        0 <= i < artifact.functions.len() && 0 <= j < artifact.data.len() ==> (
        #[trigger] artifact.functions[i]).name != (#[trigger] artifact.data[j]).name
}

/// A number is a power of two if halving it leads to one.
proof fn halving_leads_to_one(value: nat)
    ensures
        power_of_two(value) <==> exists|shift: nat| value == #[trigger] pow2(shift),
    decreases value,
{
    if value == 1 {
        vstd::arithmetic::power2::lemma2_to64();
        assert(value == pow2(0));
    } else if value > 1 {
        halving_leads_to_one(value / 2);
        if power_of_two(value) {
            let shift = choose|shift: nat| value / 2 == #[trigger] pow2(shift);
            lemma_pow2_unfold(shift + 1);
            assert(value == pow2(shift + 1));
        }
        if exists|shift: nat| value == #[trigger] pow2(shift) {
            let shift = choose|shift: nat| value == #[trigger] pow2(shift);
            if shift == 0 {
                vstd::arithmetic::power2::lemma2_to64();
            } else {
                lemma_pow2_unfold(shift);
                assert(value / 2 == pow2((shift - 1) as nat));
            }
        }
    } else {
        assert forall|shift: nat| value != #[trigger] pow2(shift) by {
            lemma_pow2_pos(shift);
        }
    }
}

proof fn functions_without_problem(functions: Seq<FunctionView>, index: nat)
    ensures
        functions_problem(functions, index) is None <==> forall|i: int|
            index <= i < functions.len() ==> (function_is_whole(#[trigger] functions[i])
                && forall|j: int|
                0 <= j < i ==> (#[trigger] functions[j]).name != functions[i].name),
    decreases functions.len() - index,
{
    if index < functions.len() {
        functions_without_problem(functions, index + 1);
        let function = functions[index as int];
        assert(function_problem(functions, index as int) is None <==> (function_is_whole(function)
            && forall|j: int|
            0 <= j < index ==> (#[trigger] functions[j]).name != function.name));
    }
}

proof fn relocations_without_problem(object: DataView, index: nat)
    requires
        object.bytes.len() <= usize::MAX,
    ensures
        data_relocations_problem(object, index) is None <==> forall|i: int|
            index <= i < object.relocations.len() ==> (#[trigger] object.relocations[i]).offset + 4
                <= object.bytes.len(),
    decreases object.relocations.len() - index,
{
    if index < object.relocations.len() {
        relocations_without_problem(object, index + 1);
    }
}

proof fn data_without_problem(functions: Seq<FunctionView>, data: Seq<DataView>, index: nat)
    requires
        forall|i: int| 0 <= i < data.len() ==> (#[trigger] data[i]).bytes.len() <= usize::MAX,
    ensures
        data_problem(functions, data, index) is None <==> forall|i: int|
            index <= i < data.len() ==> {
                &&& object_is_whole(#[trigger] data[i])
                &&& forall|j: int| 0 <= j < i ==> (#[trigger] data[j]).name != data[i].name
                &&& forall|j: int|
                    0 <= j < functions.len() ==> (#[trigger] functions[j]).name != data[i].name
            },
    decreases data.len() - index,
{
    if index < data.len() {
        data_without_problem(functions, data, index + 1);
        let object = data[index as int];
        halving_leads_to_one(object.align as nat);
        relocations_without_problem(object, 0);
        assert(object_problem(functions, data, index as int) is None <==> {
            &&& object_is_whole(object)
            &&& forall|j: int| 0 <= j < index ==> (#[trigger] data[j]).name != object.name
            &&& forall|j: int|
                0 <= j < functions.len() ==> (#[trigger] functions[j]).name != object.name
        });
    }
}

/// A bundle is valid if and only if it is for this target, holds something,
/// and its functions and objects are whole and have names of their own.
pub proof fn a_valid_bundle_is_whole(artifact: ArtifactView)
    requires
        forall|i: int|
            0 <= i < artifact.data.len() ==> (#[trigger] artifact.data[i]).bytes.len()
                <= usize::MAX,
    ensures
        validated(artifact) is Ok <==> {
            &&& artifact.target == TARGET@
            &&& artifact.functions.len() + artifact.data.len() > 0
            &&& forall|i: int|
                0 <= i < artifact.functions.len() ==> function_is_whole(
                    #[trigger] artifact.functions[i],
                )
            &&& forall|i: int|
                0 <= i < artifact.data.len() ==> object_is_whole(#[trigger] artifact.data[i])
            &&& names_differ(artifact)
        },
{
    functions_without_problem(artifact.functions, 0);
    data_without_problem(artifact.functions, artifact.data, 0);
}

proof fn found_by_name(functions: Seq<FunctionView>, name: Seq<char>, from: nat)
    ensures
        function_position(functions, name, from) matches Some(position) ==> from <= position
            < functions.len() && functions[position].name == name,
        function_position(functions, name, from) is None ==> forall|i: int|
            from <= i < functions.len() ==> (#[trigger] functions[i]).name != name,
    decreases functions.len() - from,
{
    if from < functions.len() && functions[from as int].name != name {
        found_by_name(functions, name, from + 1);
    }
}

/// A call runs the code of the function with the name from its entry address
/// on, with its arguments in the registers from the first on, the address after
/// the code in the fourteenth, and nought in every other register.
pub proof fn a_call_starts_with_its_arguments(
    artifact: ArtifactView,
    name: Seq<char>,
    entry_address: u32,
    arguments: Seq<u32>,
)
    ensures
        call_spec(artifact, name, entry_address, arguments) matches Ok(plan) ==> {
            &&& entry_address % 2 == 0
            &&& plan.entry_address == entry_address
            &&& plan.function == name
            &&& exists|i: int|
                0 <= i < artifact.functions.len() && (#[trigger] artifact.functions[i]).name == name
                    && artifact.functions[i].code == plan.code
                    && artifact.functions[i].relocations.len() == 0
            &&& plan.return_address == entry_address + plan.code.len()
            &&& arguments.len() <= 6
            &&& plan.registers.len() == 16
            &&& forall|i: int|
                0 <= i < arguments.len() ==> plan.registers[1 + i] == #[trigger] arguments[i]
            &&& plan.registers[14] == plan.return_address
            &&& forall|i: int|
                (i == 0 || arguments.len() < i < 16) && i != 14 ==> #[trigger] plan.registers[i] == 0
        },
{
    found_by_name(artifact.functions, name, 0);
}

} // verus!
