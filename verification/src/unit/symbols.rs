//! The symbols of a translation unit: their numbers and linkage names.

use crate::hir::{Declaration, Initializer, StorageClass, TypeKind};
use crate::lower::state::{pool_view, SymbolTables, TablesView};
use crate::text::{concat2, concat3, decimal, decimal_text};
use crate::unit::data::names_view;
use crate::unit::statics::{
    collect_static_locals, statics_view, stmts_statics, StaticLocal, StaticLocalView,
};
use crate::unit::strings::{collect_string_literals_declarations, declarations_strings};
use std::collections::HashMap;
use vstd::prelude::*;

verus! {

broadcast use vstd::std_specs::hash::group_hash_axioms;

/// Whether a declaration declares a function.
pub open spec fn declares_function(declaration: Declaration) -> bool {
    declaration.symbol.ctype.kind is Function
}

/// Whether a declaration declares a type.
pub open spec fn declares_type(declaration: Declaration) -> bool {
    declaration.symbol.storage_class == StorageClass::Typedef
}

/// The linkage name of a declaration at the top level. A static object gets a
/// name that no other translation unit can mean.
pub open spec fn unit_symbol(index: nat, declaration: Declaration) -> Seq<char> {
    let symbol = declaration.symbol;
    if !declares_function(declaration) && symbol.storage_class == StorageClass::Static {
        "__cosmic_static_global_"@ + decimal(index) + "_"@ + symbol.name@
    } else {
        symbol.name@
    }
}

/// The linkage name of a static object that a function declares.
pub open spec fn static_symbol(ordinal: nat, local: StaticLocalView) -> Seq<char> {
    "__cosmic_static_local_"@ + decimal(local.function as nat) + "_"@ + decimal(ordinal) + "_"@
        + local.declaration.symbol.name@
}

/// The functions from `index` on numbered by their position.
pub open spec fn function_numbers(
    declarations: Seq<Declaration>,
    index: nat,
    numbers: Map<u32, usize>,
) -> Map<u32, usize>
    decreases declarations.len() - index,
{
    if index >= declarations.len() {
        numbers
    } else {
        let declaration = declarations[index as int];
        function_numbers(
            declarations,
            index + 1,
            if declares_function(declaration) {
                numbers.insert(declaration.symbol.key, index as usize)
            } else {
                numbers
            },
        )
    }
}

/// The objects from `index` on numbered by their position.
pub open spec fn object_numbers(
    declarations: Seq<Declaration>,
    index: nat,
    numbers: Map<u32, usize>,
) -> Map<u32, usize>
    decreases declarations.len() - index,
{
    if index >= declarations.len() {
        numbers
    } else {
        let declaration = declarations[index as int];
        object_numbers(
            declarations,
            index + 1,
            if !declares_function(declaration) && !declares_type(declaration) {
                numbers.insert(declaration.symbol.key, index as usize)
            } else {
                numbers
            },
        )
    }
}

/// The static locals from `ordinal` on numbered from `first` on.
pub open spec fn static_numbers(
    locals: Seq<StaticLocalView>,
    ordinal: nat,
    first: usize,
    numbers: Map<u32, usize>,
) -> Map<u32, usize>
    decreases locals.len() - ordinal,
{
    if ordinal >= locals.len() {
        numbers
    } else {
        static_numbers(
            locals,
            ordinal + 1,
            first,
            numbers.insert(
                locals[ordinal as int].declaration.symbol.key,
                first.wrapping_add(ordinal as usize),
            ),
        )
    }
}

/// The linkage names of the declarations from `index` on.
pub open spec fn unit_names(
    declarations: Seq<Declaration>,
    index: nat,
    names: Map<u32, Seq<char>>,
) -> Map<u32, Seq<char>>
    decreases declarations.len() - index,
{
    if index >= declarations.len() {
        names
    } else {
        let declaration = declarations[index as int];
        unit_names(
            declarations,
            index + 1,
            if declares_type(declaration) {
                names
            } else {
                names.insert(declaration.symbol.key, unit_symbol(index, declaration))
            },
        )
    }
}

/// The linkage names of the static locals from `ordinal` on.
pub open spec fn static_names(
    locals: Seq<StaticLocalView>,
    ordinal: nat,
    names: Map<u32, Seq<char>>,
) -> Map<u32, Seq<char>>
    decreases locals.len() - ordinal,
{
    if ordinal >= locals.len() {
        names
    } else {
        let local = locals[ordinal as int];
        static_names(
            locals,
            ordinal + 1,
            names.insert(local.declaration.symbol.key, static_symbol(ordinal, local)),
        )
    }
}

/// The static locals of the functions from `index` on.
pub open spec fn unit_statics(
    declarations: Seq<Declaration>,
    index: nat,
    found: Seq<StaticLocalView>,
) -> Seq<StaticLocalView>
    decreases declarations.len() - index,
{
    if index >= declarations.len() {
        found
    } else {
        unit_statics(
            declarations,
            index + 1,
            match declarations[index as int].init {
                Some(Initializer::FunctionBody(body)) => stmts_statics(
                    body@,
                    0,
                    index as usize,
                    found,
                ),
                _ => found,
            },
        )
    }
}

/// The keys of the symbols of a translation unit by their numbers: the
/// declarations, then the static locals.
pub open spec fn unit_keys(
    declarations: Seq<Declaration>,
    locals: Seq<StaticLocalView>,
) -> Seq<u32> {
    Seq::new(
        declarations.len() + locals.len(),
        |i: int|
            if i < declarations.len() {
                declarations[i].symbol.key
            } else {
                locals[i - declarations.len()].declaration.symbol.key
            },
    )
}

/// The symbols of a translation unit.
pub struct UnitSymbols {
    /// The numbers of functions and objects, and the string literals.
    pub tables: SymbolTables,
    /// The linkage names, by the key of the declaration.
    pub names: HashMap<u32, String>,
    /// The key of the declaration with each number.
    pub keys: Vec<u32>,
}

/// What [`UnitSymbols`] hold.
pub struct UnitSymbolsView {
    pub tables: TablesView,
    pub names: Map<u32, Seq<char>>,
    pub keys: Seq<u32>,
}

impl View for UnitSymbols {
    type V = UnitSymbolsView;

    open spec fn view(&self) -> UnitSymbolsView {
        UnitSymbolsView {
            tables: self.tables@,
            names: names_view(self.names@),
            keys: self.keys@,
        }
    }
}

/// The symbols of a translation unit.
pub open spec fn symbols_spec(declarations: Seq<Declaration>) -> UnitSymbolsView {
    let locals = unit_statics(declarations, 0, Seq::empty());
    UnitSymbolsView {
        tables: TablesView {
            functions: function_numbers(declarations, 0, Map::empty()),
            globals: static_numbers(
                locals,
                0,
                declarations.len() as usize,
                object_numbers(declarations, 0, Map::empty()),
            ),
            strings: declarations_strings(declarations, 0, Seq::empty()),
        },
        names: static_names(locals, 0, unit_names(declarations, 0, Map::empty())),
        keys: unit_keys(declarations, locals),
    }
}

/// The linkage name of a declaration at the top level.
pub fn translation_unit_symbol_name(index: usize, declaration: &Declaration) -> (result: String)
    ensures
        result@ == unit_symbol(index as nat, *declaration),
{
    let symbol = &declaration.symbol;
    if !matches!(symbol.ctype.kind, TypeKind::Function(_)) && symbol.storage_class
        == StorageClass::Static {
        let prefix = concat3(
            "__cosmic_static_global_",
            decimal_text(index as u64).as_str(),
            "_",
        );
        concat2(prefix.as_str(), symbol.name.as_str())
    } else {
        symbol.name.clone()
    }
}

/// The linkage name of a static object that a function declares.
pub fn static_local_symbol_name(ordinal: usize, local: &StaticLocal<'_>) -> (result: String)
    ensures
        result@ == static_symbol(ordinal as nat, local@),
{
    let function = concat3(
        "__cosmic_static_local_",
        decimal_text(local.function as u64).as_str(),
        "_",
    );
    let prefix = concat3(function.as_str(), decimal_text(ordinal as u64).as_str(), "_");
    concat2(prefix.as_str(), local.declaration.symbol.name.as_str())
}

/// Gives a symbol a linkage name.
fn insert_name(names: &mut HashMap<u32, String>, key: u32, name: String)
    ensures
        names_view(final(names)@) == names_view(old(names)@).insert(key, name@),
{
    names.insert(key, name);
    assert(names_view(names@) =~= names_view(old(names)@).insert(key, name@));
}

/// The static locals of all functions.
pub(crate) fn collect_unit_statics(declarations: &Vec<Declaration>) -> (result: Vec<
    StaticLocal<'_>,
>)
    ensures
        statics_view(result@) == unit_statics(declarations@, 0, Seq::empty()),
{
    let mut found: Vec<StaticLocal<'_>> = Vec::new();
    assert(statics_view(found@) =~= Seq::empty());
    let mut index: usize = 0;
    while index < declarations.len()
        invariant
            index <= declarations@.len(),
            unit_statics(declarations@, index as nat, statics_view(found@)) == unit_statics(
                declarations@,
                0,
                Seq::empty(),
            ),
        decreases declarations@.len() - index,
    {
        if let Some(Initializer::FunctionBody(body)) = &declarations[index].init {
            collect_static_locals(body, index, &mut found);
        }
        index += 1;
    }
    found
}

/// The numbers of the functions.
fn number_functions(declarations: &Vec<Declaration>) -> (result: HashMap<u32, usize>)
    ensures
        result@ == function_numbers(declarations@, 0, Map::empty()),
{
    let mut numbers: HashMap<u32, usize> = HashMap::new();
    let mut index: usize = 0;
    while index < declarations.len()
        invariant
            index <= declarations@.len(),
            function_numbers(declarations@, index as nat, numbers@) == function_numbers(
                declarations@,
                0,
                Map::empty(),
            ),
        decreases declarations@.len() - index,
    {
        let symbol = &declarations[index].symbol;
        if matches!(symbol.ctype.kind, TypeKind::Function(_)) {
            numbers.insert(symbol.key, index);
        }
        index += 1;
    }
    numbers
}

/// The numbers of the objects at the top level.
fn number_objects(declarations: &Vec<Declaration>) -> (result: HashMap<u32, usize>)
    ensures
        result@ == object_numbers(declarations@, 0, Map::empty()),
{
    let mut numbers: HashMap<u32, usize> = HashMap::new();
    let mut index: usize = 0;
    while index < declarations.len()
        invariant
            index <= declarations@.len(),
            object_numbers(declarations@, index as nat, numbers@) == object_numbers(
                declarations@,
                0,
                Map::empty(),
            ),
        decreases declarations@.len() - index,
    {
        let symbol = &declarations[index].symbol;
        if !matches!(symbol.ctype.kind, TypeKind::Function(_)) && symbol.storage_class
            != StorageClass::Typedef {
            numbers.insert(symbol.key, index);
        }
        index += 1;
    }
    numbers
}

/// The linkage names of what is declared at the top level.
fn name_declarations(declarations: &Vec<Declaration>) -> (result: HashMap<u32, String>)
    ensures
        names_view(result@) == unit_names(declarations@, 0, Map::empty()),
{
    let mut names: HashMap<u32, String> = HashMap::new();
    assert(names_view(names@) =~= Map::empty());
    let mut index: usize = 0;
    while index < declarations.len()
        invariant
            index <= declarations@.len(),
            unit_names(declarations@, index as nat, names_view(names@)) == unit_names(
                declarations@,
                0,
                Map::empty(),
            ),
        decreases declarations@.len() - index,
    {
        let declaration = &declarations[index];
        if declaration.symbol.storage_class != StorageClass::Typedef {
            let name = translation_unit_symbol_name(index, declaration);
            insert_name(&mut names, declaration.symbol.key, name);
        }
        index += 1;
    }
    names
}

/// Numbers and names the static locals.
fn add_statics(
    locals: &Vec<StaticLocal<'_>>,
    first: usize,
    numbers: &mut HashMap<u32, usize>,
    names: &mut HashMap<u32, String>,
)
    ensures
        final(numbers)@ == static_numbers(statics_view(locals@), 0, first, old(numbers)@),
        names_view(final(names)@) == static_names(
            statics_view(locals@),
            0,
            names_view(old(names)@),
        ),
{
    let ghost view = statics_view(locals@);
    let mut ordinal: usize = 0;
    while ordinal < locals.len()
        invariant
            ordinal <= locals@.len(),
            view == statics_view(locals@),
            static_numbers(view, ordinal as nat, first, numbers@) == static_numbers(
                view,
                0,
                first,
                old(numbers)@,
            ),
            static_names(view, ordinal as nat, names_view(names@)) == static_names(
                view,
                0,
                names_view(old(names)@),
            ),
        decreases locals@.len() - ordinal,
    {
        let local = &locals[ordinal];
        assert(view[ordinal as int] == local@);
        numbers.insert(local.declaration.symbol.key, first.wrapping_add(ordinal));
        let name = static_local_symbol_name(ordinal, local);
        insert_name(names, local.declaration.symbol.key, name);
        ordinal += 1;
    }
}

/// The keys of the symbols by their numbers.
fn list_keys(declarations: &Vec<Declaration>, locals: &Vec<StaticLocal<'_>>) -> (result: Vec<u32>)
    ensures
        result@ == unit_keys(declarations@, statics_view(locals@)),
{
    let mut keys: Vec<u32> = Vec::new();
    let mut index: usize = 0;
    while index < declarations.len()
        invariant
            index <= declarations@.len(),
            keys@.len() == index,
            forall|i: int| 0 <= i < index ==> keys@[i] == (#[trigger] declarations@[i]).symbol.key,
        decreases declarations@.len() - index,
    {
        keys.push(declarations[index].symbol.key);
        index += 1;
    }
    let ghost view = statics_view(locals@);
    let mut ordinal: usize = 0;
    while ordinal < locals.len()
        invariant
            ordinal <= locals@.len(),
            view == statics_view(locals@),
            keys@.len() == declarations@.len() + ordinal,
            forall|i: int|
                0 <= i < keys@.len() ==> #[trigger] keys@[i] == unit_keys(
                    declarations@,
                    view,
                )[i],
        decreases locals@.len() - ordinal,
    {
        assert(view[ordinal as int] == locals@[ordinal as int]@);
        keys.push(locals[ordinal].declaration.symbol.key);
        ordinal += 1;
    }
    assert(keys@ =~= unit_keys(declarations@, view));
    keys
}

/// The symbols of a translation unit, given its static locals.
pub(crate) fn collect_symbols(
    declarations: &Vec<Declaration>,
    locals: &Vec<StaticLocal<'_>>,
) -> (result: UnitSymbols)
    requires
        statics_view(locals@) == unit_statics(declarations@, 0, Seq::empty()),
    ensures
        result@ == symbols_spec(declarations@),
{
    let mut strings: Vec<Vec<u8>> = Vec::new();
    assert(pool_view(strings@) =~= Seq::empty());
    collect_string_literals_declarations(declarations, &mut strings);
    let functions = number_functions(declarations);
    let mut globals = number_objects(declarations);
    let mut names = name_declarations(declarations);
    add_statics(locals, declarations.len(), &mut globals, &mut names);
    let keys = list_keys(declarations, locals);
    UnitSymbols { tables: SymbolTables { functions, globals, strings }, names, keys }
}

} // verus!
