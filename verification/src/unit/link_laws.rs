//! What a translation unit's functions and objects are linked to.

use crate::bundle::RelocationView;
use crate::hir::{Declaration, Initializer, StorageClass};
use crate::unit::finish::{
    function_finished, resolved_from, resolved_spec, target_name, BackendOutcome, BackendRelocation,
    RelocationTarget,
};
use crate::unit::laws::numbers_lead_back_to_symbols;
use crate::unit::plan::{
    data_object_spec, declaration_planned, declarations_planned, global_limits, static_limits,
    statics_planned, string_objects, unit_planned, ObjectLimits, Planned,
};
use crate::unit::statics::StaticLocalView;
use crate::unit::strings::string_symbol;
use crate::unit::symbols::{symbols_spec, unit_statics, UnitSymbolsView};
use vstd::prelude::*;

verus! {

/// A relocation of the finished code against what the code generator asked
/// for: the same place, the same addend, and the name of the target.
pub open spec fn links(
    symbols: UnitSymbolsView,
    asked: BackendRelocation,
    given: RelocationView,
) -> bool {
    &&& given.offset == asked.offset
    &&& given.addend == asked.addend
    &&& asked.kind is Abs4
    &&& asked.target matches RelocationTarget::User { namespace, index } && {
        &&& namespace == 2 ==> index < symbols.tables.strings.len() && given.target
            == string_symbol(index as nat)
        &&& namespace == 0 || namespace == 1 ==> {
            &&& index < symbols.keys.len()
            &&& symbols.names.contains_key(symbols.keys[index as int])
            &&& given.target == symbols.names[symbols.keys[index as int]]
        }
        &&& namespace <= 2
    }
}

proof fn relocations_link(
    symbols: UnitSymbolsView,
    relocations: Seq<BackendRelocation>,
    index: nat,
    function: Seq<char>,
    found: Seq<RelocationView>,
)
    requires
        found.len() == index <= relocations.len(),
        forall|i: int| 0 <= i < index ==> links(symbols, relocations[i], #[trigger] found[i]),
    ensures
        resolved_from(symbols, relocations, index, function, found) matches Ok(all) ==> {
            &&& all.len() == relocations.len()
            &&& forall|i: int|
                0 <= i < all.len() ==> links(symbols, relocations[i], #[trigger] all[i])
        },
    decreases relocations.len() - index,
{
    if index < relocations.len() {
        if let Ok(relocation) = resolved_spec(symbols, relocations[index as int], function) {
            relocations_link(symbols, relocations, index + 1, function, found.push(relocation));
        }
    }
}

/// A finished function is the code that was generated for it, with every
/// relocation in its place and by the name of its target.
pub proof fn a_finished_function_is_the_generated_code(
    symbols: UnitSymbolsView,
    name: Seq<char>,
    code: Vec<u8>,
    relocations: Vec<BackendRelocation>,
)
    ensures
        function_finished(
            symbols,
            name,
            BackendOutcome::Compiled { code, relocations },
        ) matches Ok(function) ==> {
            &&& function.name == name
            &&& function.code == code@
            &&& function.relocations.len() == relocations@.len()
            &&& forall|i: int|
                0 <= i < relocations@.len() ==> links(
                    symbols,
                    relocations@[i],
                    #[trigger] function.relocations[i],
                )
        },
{
    relocations_link(symbols, relocations@, 0, name, Seq::empty());
}

/// A reference to a function, an object or a string by its number is linked to
/// its name.
pub proof fn a_reference_is_linked_to_its_symbol(
    declarations: Seq<Declaration>,
    key: u32,
    string: nat,
    function: Seq<char>,
)
    requires
        symbols_spec(declarations).keys.len() <= usize::MAX,
        symbols_spec(declarations).names.contains_key(key),
    ensures
        ({
            let symbols = symbols_spec(declarations);
            &&& symbols.tables.functions.contains_key(key) ==> target_name(
                symbols,
                0,
                symbols.tables.functions[key] as nat,
                function,
            ) == Ok::<Seq<char>, Seq<char>>(symbols.names[key])
            &&& symbols.tables.globals.contains_key(key) ==> target_name(
                symbols,
                1,
                symbols.tables.globals[key] as nat,
                function,
            ) == Ok::<Seq<char>, Seq<char>>(symbols.names[key])
            &&& string < symbols.tables.strings.len() ==> target_name(symbols, 2, string, function)
                == Ok::<Seq<char>, Seq<char>>(string_symbol(string))
        }),
{
    numbers_lead_back_to_symbols(declarations, key);
}

/// A data object has the name, the alignment and the access of what was
/// declared.
pub proof fn a_data_object_is_as_declared(
    declaration: Declaration,
    symbols: UnitSymbolsView,
    limits: ObjectLimits,
)
    requires
        data_object_spec(declaration, symbols, limits) is Ok,
        symbols.names.contains_key(declaration.symbol.key),
    ensures
        ({
            let object = data_object_spec(declaration, symbols, limits)->Ok_0;
            let ctype = *declaration.symbol.ctype;
            &&& object.name == symbols.names[declaration.symbol.key]
            &&& object.read_only == declaration.symbol.is_const
            &&& object.align >= 1
            &&& (!(ctype.kind is Array) && ctype.align is Ok && ctype.align->Ok_0 > 0)
                ==> object.align == ctype.align->Ok_0
        }),
{
}

/// What is planned later comes after what is planned already.
pub open spec fn goes_on(before: Planned, after: Planned) -> bool {
    &&& before.data.len() <= after.data.len()
    &&& forall|i: int| 0 <= i < before.data.len() ==> #[trigger] after.data[i] == before.data[i]
    &&& before.functions.len() <= after.functions.len()
    &&& forall|i: int|
        0 <= i < before.functions.len() ==> #[trigger] after.functions[i] == before.functions[i]
    &&& before.failure is Some ==> after.failure is Some
}

/// Whether a declaration defines an object with static storage.
pub open spec fn defines_object(declaration: Declaration) -> bool {
    &&& declaration.symbol.storage_class != StorageClass::Typedef
    &&& !(declaration.symbol.ctype.kind is Function)
    &&& !(declaration.symbol.storage_class == StorageClass::Extern && declaration.init is None)
}

/// Whether a declaration defines a function.
pub open spec fn defines_function(declaration: Declaration) -> bool {
    &&& declaration.symbol.storage_class != StorageClass::Typedef
    &&& declaration.symbol.ctype.kind is Function
    &&& declaration.init matches Some(Initializer::FunctionBody(_))
}

proof fn statics_are_planned(
    locals: Seq<StaticLocalView>,
    ordinal: nat,
    symbols: UnitSymbolsView,
    planned: Planned,
)
    ensures
        ({
            let after = statics_planned(locals, ordinal, symbols, planned);
            &&& goes_on(planned, after)
            &&& after.functions == planned.functions
            &&& after.failure is None ==> forall|i: int|
                ordinal <= i < locals.len() ==> after.data[planned.data.len() + i - ordinal]
                    == data_object_spec(
                    (#[trigger] locals[i]).declaration,
                    symbols,
                    static_limits(),
                )->Ok_0 && planned.data.len() + i - ordinal < after.data.len()
        }),
    decreases locals.len() - ordinal,
{
    if ordinal < locals.len() {
        let object = data_object_spec(locals[ordinal as int].declaration, symbols, static_limits());
        if let Ok(object) = object {
            statics_are_planned(
                locals,
                ordinal + 1,
                symbols,
                Planned { data: planned.data.push(object), ..planned },
            );
        }
    }
}

proof fn declarations_are_planned(
    declarations: Seq<Declaration>,
    index: nat,
    symbols: UnitSymbolsView,
    planned: Planned,
)
    ensures
        ({
            let after = declarations_planned(declarations, index, symbols, planned);
            &&& goes_on(planned, after)
            &&& after.failure is None ==> forall|i: int|
                index <= i < declarations.len() && defines_object(#[trigger] declarations[i])
                    ==> after.data.contains(
                    data_object_spec(declarations[i], symbols, global_limits())->Ok_0,
                )
            &&& after.failure is None ==> forall|i: int|
                index <= i < declarations.len() && defines_function(#[trigger] declarations[i])
                    ==> exists|k: int|
                    0 <= k < after.functions.len() && (#[trigger] after.functions[k]).name
                        == declarations[i].symbol.name@ && after.functions[k].index == i as usize
        }),
    decreases declarations.len() - index,
{
    if planned.failure is None && index < declarations.len() {
        let declaration = declarations[index as int];
        let next = declaration_planned(declaration, index, symbols, planned);
        declarations_are_planned(declarations, index + 1, symbols, next);
        let after = declarations_planned(declarations, index, symbols, planned);
        if after.failure is None {
            if defines_object(declaration) {
                assert(next.data.last() == data_object_spec(
                    declaration,
                    symbols,
                    global_limits(),
                )->Ok_0);
                assert(after.data[next.data.len() - 1] == next.data.last());
            }
            if defines_function(declaration) {
                assert(after.functions[next.functions.len() - 1] == next.functions.last());
            }
        }
    }
}

/// A planned translation unit holds every string literal, every static local,
/// every object it defines and every function it defines.
pub proof fn every_definition_is_planned(declarations: Seq<Declaration>)
    requires
        unit_planned(declarations).failure is None,
    ensures
        ({
            let symbols = symbols_spec(declarations);
            let locals = unit_statics(declarations, 0, Seq::empty());
            let planned = unit_planned(declarations);
            &&& forall|i: int|
                0 <= i < symbols.tables.strings.len() ==> {
                    &&& i < planned.data.len()
                    &&& planned.data[i].name == string_symbol(i as nat)
                    &&& planned.data[i].bytes == #[trigger] symbols.tables.strings[i]
                    &&& planned.data[i].read_only
                    &&& planned.data[i].relocations.len() == 0
                }
            &&& forall|i: int|
                0 <= i < locals.len() ==> planned.data.contains(
                    data_object_spec(
                        (#[trigger] locals[i]).declaration,
                        symbols,
                        static_limits(),
                    )->Ok_0,
                )
            &&& forall|i: int|
                0 <= i < declarations.len() && defines_object(#[trigger] declarations[i])
                    ==> planned.data.contains(
                    data_object_spec(declarations[i], symbols, global_limits())->Ok_0,
                )
            &&& forall|i: int|
                0 <= i < declarations.len() && defines_function(#[trigger] declarations[i])
                    ==> exists|k: int|
                    0 <= k < planned.functions.len() && (#[trigger] planned.functions[k]).name
                        == declarations[i].symbol.name@ && planned.functions[k].index == i as usize
        }),
{
    let symbols = symbols_spec(declarations);
    let locals = unit_statics(declarations, 0, Seq::empty());
    let first = Planned {
        data: string_objects(symbols.tables.strings),
        functions: Seq::empty(),
        failure: None,
    };
    let middle = statics_planned(locals, 0, symbols, first);
    let planned = unit_planned(declarations);
    statics_are_planned(locals, 0, symbols, first);
    declarations_are_planned(declarations, 0, symbols, middle);
    assert forall|i: int| 0 <= i < symbols.tables.strings.len() implies {
        &&& i < planned.data.len()
        &&& planned.data[i] == first.data[i]
    } by {
        assert(middle.data[i] == first.data[i]);
        assert(planned.data[i] == middle.data[i]);
    }
    assert forall|i: int| 0 <= i < locals.len() implies planned.data.contains(
        data_object_spec((#[trigger] locals[i]).declaration, symbols, static_limits())->Ok_0,
    ) by {
        assert(planned.data[first.data.len() + i] == middle.data[first.data.len() + i]);
    }
}

} // verus!
