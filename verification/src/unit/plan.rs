//! What a translation unit compiles to, before code generation.

use crate::bundle::{data_view, DataArtifact, DataView, RelocationArtifact};
use crate::error::{outcome_view, unsupported, unsupported_view, Error, ErrorView};
use crate::hir::{Declaration, Initializer, StorageClass, TypeKind};
use crate::lower::function::{function_plan_spec, plan_function, FunctionPlan, FunctionPlanView};
use crate::lower::state::pool_view;
use crate::types::{
    align_of_object, completed_object_type, completed_spec, object_align, object_size,
    size_of_object,
};
use crate::unit::data::{global_spec, lookup_name, zeros, ObjectState, ObjectWriter, References};
use crate::unit::statics::{statics_view, StaticLocal, StaticLocalView};
use crate::unit::strings::{string_symbol, string_symbol_name};
use crate::unit::symbols::{
    collect_symbols, collect_unit_statics, declares_type, symbols_spec, unit_statics, UnitSymbols,
    UnitSymbolsView,
};
use vstd::prelude::*;

verus! {

/// What the initializers of a translation unit may refer to.
pub open spec fn references_spec(symbols: UnitSymbolsView) -> References {
    References { names: symbols.names, strings: symbols.tables.strings }
}

/// The linkage name of a symbol.
pub open spec fn name_of(symbols: UnitSymbolsView, key: u32) -> Seq<char> {
    if symbols.names.contains_key(key) {
        symbols.names[key]
    } else {
        Seq::empty()
    }
}

/// What is said of an object that the host or the format cannot hold.
pub struct ObjectLimits {
    /// The object is too large.
    pub size: Seq<char>,
    /// Its alignment is too large.
    pub align: Seq<char>,
}

/// The limits of static locals.
pub open spec fn static_limits() -> ObjectLimits {
    ObjectLimits {
        size: "static local is too large"@,
        align: "static local alignment is too large"@,
    }
}

/// The limits of objects at the top level.
pub open spec fn global_limits() -> ObjectLimits {
    ObjectLimits {
        size: "global object is too large for the host compiler"@,
        align: "global object alignment does not fit in u32"@,
    }
}

/// The initial contents of an object: zero but for what its initializer says.
pub open spec fn contents_spec(
    declaration: Declaration,
    symbols: UnitSymbolsView,
    length: Option<u64>,
    size: usize,
) -> Result<ObjectState, ErrorView> {
    let blank = ObjectState { bytes: zeros(size as nat), relocations: Seq::empty() };
    match declaration.init {
        None => Ok(blank),
        Some(initializer) => match global_spec(
            blank,
            references_spec(symbols),
            0,
            *declaration.symbol.ctype,
            length,
            initializer,
            declaration.location,
        ) {
            (_, Err(error)) => Err(error),
            (object, Ok(_)) => Ok(object),
        },
    }
}

/// The data object of a declaration.
pub open spec fn data_object_spec(
    declaration: Declaration,
    symbols: UnitSymbolsView,
    limits: ObjectLimits,
) -> Result<DataView, ErrorView> {
    let ctype = *declaration.symbol.ctype;
    let location = declaration.location;
    match completed_spec(ctype, declaration.init, location) {
        Err(error) => Err(error),
        Ok(length) => match object_size(ctype, length) {
            Err(reason) => Err(unsupported_view(location, reason)),
            Ok(size) => if size > usize::MAX {
                Err(unsupported_view(location, limits.size))
            } else {
                match object_align(ctype, length) {
                    Err(reason) => Err(unsupported_view(location, reason)),
                    Ok(align) => if align > u32::MAX {
                        Err(unsupported_view(location, limits.align))
                    } else {
                        match contents_spec(declaration, symbols, length, size as usize) {
                            Err(error) => Err(error),
                            Ok(object) => Ok(
                                DataView {
                                    name: name_of(symbols, declaration.symbol.key),
                                    bytes: object.bytes,
                                    align: if align == 0 {
                                        1
                                    } else {
                                        align as u32
                                    },
                                    read_only: declaration.symbol.is_const,
                                    relocations: object.relocations,
                                },
                            ),
                        }
                    },
                }
            },
        },
    }
}

/// The data object of a string literal.
pub open spec fn string_object(index: nat, bytes: Seq<u8>) -> DataView {
    DataView {
        name: string_symbol(index),
        bytes,
        align: 1,
        read_only: true,
        relocations: Seq::empty(),
    }
}

/// The data objects of the string literals.
pub open spec fn string_objects(strings: Seq<Seq<u8>>) -> Seq<DataView> {
    Seq::new(strings.len(), |i: int| string_object(i as nat, strings[i]))
}

/// A function to be compiled.
pub struct PlannedFunction {
    /// C linkage name.
    pub name: String,
    /// The number of the function.
    pub index: usize,
    /// What the code generator is told about it.
    pub plan: FunctionPlan,
}

/// What a [`PlannedFunction`] says.
pub struct PlannedFunctionView {
    pub name: Seq<char>,
    pub index: usize,
    pub plan: FunctionPlanView,
}

impl View for PlannedFunction {
    type V = PlannedFunctionView;

    open spec fn view(&self) -> PlannedFunctionView {
        PlannedFunctionView { name: self.name@, index: self.index, plan: self.plan@ }
    }
}

/// What a list of functions to be compiled says.
pub open spec fn planned_view(functions: Seq<PlannedFunction>) -> Seq<PlannedFunctionView> {
    Seq::new(functions.len(), |i: int| functions[i]@)
}

/// The data objects and functions of a translation unit, up to the first
/// declaration that cannot be compiled.
pub struct Planned {
    pub data: Seq<DataView>,
    pub functions: Seq<PlannedFunctionView>,
    /// Why the declaration after these cannot be compiled.
    pub failure: Option<ErrorView>,
}

/// The data objects of the static locals from `ordinal` on, after what is
/// planned already.
pub open spec fn statics_planned(
    locals: Seq<StaticLocalView>,
    ordinal: nat,
    symbols: UnitSymbolsView,
    planned: Planned,
) -> Planned
    decreases locals.len() - ordinal,
{
    if ordinal >= locals.len() {
        planned
    } else {
        match data_object_spec(locals[ordinal as int].declaration, symbols, static_limits()) {
            Err(error) => Planned { failure: Some(error), ..planned },
            Ok(object) => statics_planned(
                locals,
                ordinal + 1,
                symbols,
                Planned { data: planned.data.push(object), ..planned },
            ),
        }
    }
}

/// One declaration at the top level. A type, an object that another unit
/// defines and a function without a body add nothing.
pub open spec fn declaration_planned(
    declaration: Declaration,
    index: nat,
    symbols: UnitSymbolsView,
    planned: Planned,
) -> Planned {
    let symbol = declaration.symbol;
    if declares_type(declaration) {
        planned
    } else {
        match symbol.ctype.kind {
            TypeKind::Function(function) => match declaration.init {
                None => planned,
                Some(Initializer::FunctionBody(body)) => match function_plan_spec(
                    function,
                    body@,
                    declaration.location,
                    symbols.tables,
                ) {
                    Err(error) => Planned { failure: Some(error), ..planned },
                    Ok(plan) => Planned {
                        functions: planned.functions.push(
                            PlannedFunctionView { name: symbol.name@, index: index as usize, plan },
                        ),
                        ..planned
                    },
                },
                Some(_) => Planned {
                    failure: Some(
                        unsupported_view(
                            declaration.location,
                            "a function must have a function body"@,
                        ),
                    ),
                    ..planned
                },
            },
            _ => if symbol.storage_class == StorageClass::Extern && declaration.init is None {
                planned
            } else {
                match data_object_spec(declaration, symbols, global_limits()) {
                    Err(error) => Planned { failure: Some(error), ..planned },
                    Ok(object) => Planned { data: planned.data.push(object), ..planned },
                }
            },
        }
    }
}

/// The declarations from `index` on, after what is planned already.
pub open spec fn declarations_planned(
    declarations: Seq<Declaration>,
    index: nat,
    symbols: UnitSymbolsView,
    planned: Planned,
) -> Planned
    decreases declarations.len() - index,
{
    if planned.failure is Some || index >= declarations.len() {
        planned
    } else {
        declarations_planned(
            declarations,
            index + 1,
            symbols,
            declaration_planned(declarations[index as int], index, symbols, planned),
        )
    }
}

/// What a translation unit compiles to: its string literals, its static
/// locals, then its declarations in order.
pub open spec fn unit_planned(declarations: Seq<Declaration>) -> Planned {
    let symbols = symbols_spec(declarations);
    declarations_planned(
        declarations,
        0,
        symbols,
        statics_planned(
            unit_statics(declarations, 0, Seq::empty()),
            0,
            symbols,
            Planned {
                data: string_objects(symbols.tables.strings),
                functions: Seq::empty(),
                failure: None,
            },
        ),
    )
}

/// What a translation unit compiles to, before code generation.
pub struct UnitPlan {
    pub symbols: UnitSymbols,
    pub data: Vec<DataArtifact>,
    pub functions: Vec<PlannedFunction>,
    /// Why the declaration after these cannot be compiled.
    pub failure: Option<Error>,
}

impl UnitPlan {
    /// What is planned.
    pub open spec fn planned(&self) -> Planned {
        Planned {
            data: data_view(self.data@),
            functions: planned_view(self.functions@),
            failure: match self.failure {
                Some(error) => Some(error@),
                None => None,
            },
        }
    }
}

/// So many zero bytes.
fn zero_bytes(count: usize) -> (result: Vec<u8>)
    ensures
        result@ == zeros(count as nat),
{
    let result: Vec<u8> = vec![0; count];
    assert(result@ =~= zeros(count as nat));
    result
}

/// An object under construction, by its view.
pub open spec fn written_view(result: Result<(Vec<u8>, Vec<RelocationArtifact>), Error>) -> Result<
    ObjectState,
    ErrorView,
> {
    match result {
        Ok((bytes, relocations)) => Ok(
            ObjectState {
                bytes: bytes@,
                relocations: crate::bundle::relocations_view(relocations@),
            },
        ),
        Err(error) => Err(error@),
    }
}

/// The initial contents of an object.
fn object_contents(
    declaration: &Declaration,
    symbols: &UnitSymbols,
    length: Option<u64>,
    size: usize,
) -> (result: Result<(Vec<u8>, Vec<RelocationArtifact>), Error>)
    ensures
        written_view(result) == contents_spec(*declaration, symbols@, length, size),
{
    let mut writer = ObjectWriter {
        bytes: zero_bytes(size),
        relocations: Vec::new(),
        names: &symbols.names,
        strings: &symbols.tables.strings,
    };
    assert(writer@.relocations =~= Seq::empty());
    if let Some(initializer) = &declaration.init {
        writer.write_global_initializer(
            0,
            &declaration.symbol.ctype,
            length,
            initializer,
            declaration.location,
        )?;
    }
    Ok((writer.bytes, writer.relocations))
}

/// The data object of a declaration.
fn plan_object(
    declaration: &Declaration,
    symbols: &UnitSymbols,
    too_large: &str,
    too_aligned: &str,
) -> (result: Result<DataArtifact, Error>)
    ensures
        outcome_view(result) == data_object_spec(
            *declaration,
            symbols@,
            ObjectLimits { size: too_large@, align: too_aligned@ },
        ),
{
    let ctype = &*declaration.symbol.ctype;
    let location = declaration.location;
    let length = completed_object_type(ctype, &declaration.init, location)?;
    let size: u64 = match size_of_object(ctype, length) {
        Ok(size) => size,
        Err(reason) => {
            return Err(unsupported(location, reason.as_str()));
        },
    };
    if size > usize::MAX as u64 {
        return Err(unsupported(location, too_large));
    }
    let align: u64 = match align_of_object(ctype, length) {
        Ok(align) => align,
        Err(reason) => {
            return Err(unsupported(location, reason.as_str()));
        },
    };
    if align > 0xffff_ffff {
        return Err(unsupported(location, too_aligned));
    }
    let (bytes, relocations) = object_contents(declaration, symbols, length, size as usize)?;
    let name = match lookup_name(&symbols.names, declaration.symbol.key) {
        Some(name) => name,
        None => String::new(),
    };
    Ok(
        DataArtifact {
            name,
            bytes,
            align: if align == 0 {
                1
            } else {
                align as u32
            },
            read_only: declaration.symbol.is_const,
            relocations,
        },
    )
}

/// The data objects of the string literals.
fn plan_strings(strings: &Vec<Vec<u8>>) -> (result: Vec<DataArtifact>)
    ensures
        data_view(result@) == string_objects(pool_view(strings@)),
{
    let mut data: Vec<DataArtifact> = Vec::new();
    let ghost objects = string_objects(pool_view(strings@));
    let mut index: usize = 0;
    while index < strings.len()
        invariant
            index <= strings@.len(),
            objects == string_objects(pool_view(strings@)),
            data@.len() == index,
            forall|i: int| 0 <= i < index ==> (#[trigger] data@[i])@ == objects[i],
        decreases strings@.len() - index,
    {
        let bytes = strings[index].clone();
        assert(bytes@ =~= strings@[index as int]@);
        let object = DataArtifact {
            name: string_symbol_name(index),
            bytes,
            align: 1,
            read_only: true,
            relocations: Vec::new(),
        };
        assert(object@.relocations =~= Seq::empty());
        data.push(object);
        index += 1;
    }
    assert(data_view(data@) =~= objects);
    data
}

impl UnitPlan {
    /// Adds a data object, or the reason why there is none.
    fn add_object(&mut self, object: Result<DataArtifact, Error>)
        ensures
            final(self).symbols == old(self).symbols,
            final(self).planned() == (match outcome_view(object) {
                Err(error) => Planned { failure: Some(error), ..old(self).planned() },
                Ok(object) => Planned {
                    data: old(self).planned().data.push(object),
                    ..old(self).planned()
                },
            }),
    {
        match object {
            Ok(object) => {
                let ghost before = self.data@;
                self.data.push(object);
                assert(data_view(self.data@) =~= data_view(before).push(object@));
            },
            Err(error) => {
                self.failure = Some(error);
            },
        }
    }

    /// Adds the data objects of the static locals.
    fn add_statics(&mut self, locals: &Vec<StaticLocal<'_>>)
        requires
            old(self).failure is None,
        ensures
            final(self).symbols == old(self).symbols,
            final(self).planned() == statics_planned(
                statics_view(locals@),
                0,
                old(self).symbols@,
                old(self).planned(),
            ),
    {
        let ghost view = statics_view(locals@);
        let mut ordinal: usize = 0;
        while ordinal < locals.len() && self.failure.is_none()
            invariant
                ordinal <= locals@.len(),
                view == statics_view(locals@),
                self.symbols == old(self).symbols,
                self.failure is None ==> statics_planned(
                    view,
                    ordinal as nat,
                    old(self).symbols@,
                    self.planned(),
                ) == statics_planned(view, 0, old(self).symbols@, old(self).planned()),
                self.failure is Some ==> self.planned() == statics_planned(
                    view,
                    0,
                    old(self).symbols@,
                    old(self).planned(),
                ),
            decreases locals@.len() - ordinal,
        {
            let local = &locals[ordinal];
            assert(view[ordinal as int] == local@);
            let object = plan_object(
                local.declaration,
                &self.symbols,
                "static local is too large",
                "static local alignment is too large",
            );
            self.add_object(object);
            ordinal += 1;
        }
    }

    /// Adds a function, or the reason why there is none.
    fn add_function(&mut self, name: &String, index: usize, plan: Result<FunctionPlan, Error>)
        ensures
            final(self).symbols == old(self).symbols,
            final(self).planned() == (match outcome_view(plan) {
                Err(error) => Planned { failure: Some(error), ..old(self).planned() },
                Ok(plan) => Planned {
                    functions: old(self).planned().functions.push(
                        PlannedFunctionView { name: name@, index, plan },
                    ),
                    ..old(self).planned()
                },
            }),
    {
        match plan {
            Ok(plan) => {
                let ghost before = self.functions@;
                let function = PlannedFunction { name: name.clone(), index, plan };
                self.functions.push(function);
                assert(planned_view(self.functions@) =~= planned_view(before).push(function@));
            },
            Err(error) => {
                self.failure = Some(error);
            },
        }
    }

    /// Adds one declaration at the top level.
    fn add_declaration(&mut self, declaration: &Declaration, index: usize)
        ensures
            final(self).symbols == old(self).symbols,
            final(self).planned() == declaration_planned(
                *declaration,
                index as nat,
                old(self).symbols@,
                old(self).planned(),
            ),
    {
        let symbol = &declaration.symbol;
        if symbol.storage_class == StorageClass::Typedef {
            return;
        }
        if let TypeKind::Function(function) = &symbol.ctype.kind {
            match &declaration.init {
                None => {},
                Some(Initializer::FunctionBody(body)) => {
                    let plan = plan_function(
                        function,
                        body,
                        declaration.location,
                        &self.symbols.tables,
                    );
                    self.add_function(&symbol.name, index, plan);
                },
                Some(_) => {
                    self.failure = Some(
                        unsupported(declaration.location, "a function must have a function body"),
                    );
                },
            }
            return;
        }
        if symbol.storage_class == StorageClass::Extern && declaration.init.is_none() {
            // A declaration of an object that is defined elsewhere takes no
            // storage here.
            return;
        }
        let object = plan_object(
            declaration,
            &self.symbols,
            "global object is too large for the host compiler",
            "global object alignment does not fit in u32",
        );
        self.add_object(object);
    }
}

/// Plans a translation unit: its symbols, its data objects, and what the code
/// generator is told about each of its functions.
///
/// Planning stops at the first declaration that cannot be compiled. The
/// functions before it still go to the code generator, whose failures come
/// first.
pub fn plan_unit(declarations: &Vec<Declaration>) -> (result: UnitPlan)
    ensures
        result.symbols@ == symbols_spec(declarations@),
        result.planned() == unit_planned(declarations@),
{
    let locals = collect_unit_statics(declarations);
    let symbols = collect_symbols(declarations, &locals);
    let data = plan_strings(&symbols.tables.strings);
    let mut plan = UnitPlan { symbols, data, functions: Vec::new(), failure: None };
    assert(plan.planned().functions =~= Seq::empty());
    plan.add_statics(&locals);
    let ghost start = plan.planned();
    let mut index: usize = 0;
    while index < declarations.len() && plan.failure.is_none()
        invariant
            index <= declarations@.len(),
            plan.symbols@ == symbols_spec(declarations@),
            unit_planned(declarations@) == declarations_planned(
                declarations@,
                0,
                symbols_spec(declarations@),
                start,
            ),
            declarations_planned(
                declarations@,
                index as nat,
                symbols_spec(declarations@),
                plan.planned(),
            ) == declarations_planned(declarations@, 0, symbols_spec(declarations@), start),
        decreases declarations@.len() - index,
    {
        plan.add_declaration(&declarations[index], index);
        index += 1;
    }
    plan
}

} // verus!
