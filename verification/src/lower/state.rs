//! What lowering knows while it builds one function.

use crate::error::{outcome, unsupported, unsupported_view, Error, ErrorView, Location};
use crate::hir::Type;
use crate::ir::{IrType, Op, UnaryInst};
use crate::text::same_bytes;
use crate::types::{
    align_of_type, align_spec, is_signed_integer_type, signed_integer, size_of_type, size_spec,
};
use std::collections::HashMap;
use vstd::prelude::*;
use vstd::std_specs::bits::u64_trailing_zeros;

verus! {

broadcast use vstd::std_specs::hash::group_hash_axioms;

/// The symbols of a translation unit, by the key of their declaration.
pub struct SymbolTables {
    /// The functions and their numbers.
    pub functions: HashMap<u32, usize>,
    /// The objects with static storage and their numbers.
    pub globals: HashMap<u32, usize>,
    /// The string literals; a literal's number is its position.
    pub strings: Vec<Vec<u8>>,
}

/// What [`SymbolTables`] hold.
pub struct TablesView {
    pub functions: Map<u32, usize>,
    pub globals: Map<u32, usize>,
    pub strings: Seq<Seq<u8>>,
}

/// The contents of a list of byte strings.
pub open spec fn pool_view(strings: Seq<Vec<u8>>) -> Seq<Seq<u8>> {
    Seq::new(strings.len(), |i: int| strings[i]@)
}

impl View for SymbolTables {
    type V = TablesView;

    open spec fn view(&self) -> TablesView {
        TablesView {
            functions: self.functions@,
            globals: self.globals@,
            strings: pool_view(self.strings@),
        }
    }
}

/// The first position from `from` on at which `bytes` stands in the pool.
pub open spec fn pool_position(pool: Seq<Seq<u8>>, bytes: Seq<u8>, from: nat) -> Option<usize>
    decreases pool.len() - from,
{
    if from >= pool.len() {
        None
    } else if pool[from as int] == bytes {
        Some(from as usize)
    } else {
        pool_position(pool, bytes, from + 1)
    }
}

/// The number of a string literal in the pool.
pub fn find_string(pool: &Vec<Vec<u8>>, bytes: &[u8]) -> (result: Option<usize>)
    ensures
        result == pool_position(pool_view(pool@), bytes@, 0),
{
    let mut index: usize = 0;
    while index < pool.len()
        invariant
            index <= pool@.len(),
            pool_position(pool_view(pool@), bytes@, index as nat) == pool_position(
                pool_view(pool@),
                bytes@,
                0,
            ),
        decreases pool@.len() - index,
    {
        if same_bytes(pool[index].as_slice(), bytes) {
            return Some(index);
        }
        index += 1;
    }
    None
}

/// The blocks that the labels of one `switch` start.
pub struct SwitchTargets {
    /// The block of each case value, in the order in which the values occur.
    pub cases: Vec<(u64, usize)>,
    /// The block of `default`.
    pub default: Option<usize>,
}

/// What [`SwitchTargets`] hold.
pub struct SwitchView {
    pub cases: Seq<(u64, usize)>,
    pub default: Option<usize>,
}

impl View for SwitchTargets {
    type V = SwitchView;

    open spec fn view(&self) -> SwitchView {
        SwitchView { cases: self.cases@, default: self.default }
    }
}

/// The open switches, the innermost last.
pub open spec fn switches_view(switches: Seq<SwitchTargets>) -> Seq<SwitchView> {
    Seq::new(switches.len(), |i: int| switches[i]@)
}

/// The block of `value` among the cases from `from` on.
pub open spec fn case_block(cases: Seq<(u64, usize)>, value: u64, from: nat) -> Option<usize>
    decreases cases.len() - from,
{
    if from >= cases.len() {
        None
    } else if cases[from as int].0 == value {
        Some(cases[from as int].1)
    } else {
        case_block(cases, value, from + 1)
    }
}

/// The block of a case value.
pub fn find_case(cases: &Vec<(u64, usize)>, value: u64) -> (result: Option<usize>)
    ensures
        result == case_block(cases@, value, 0),
{
    let mut index: usize = 0;
    while index < cases.len()
        invariant
            index <= cases@.len(),
            case_block(cases@, value, index as nat) == case_block(cases@, value, 0),
        decreases cases@.len() - index,
    {
        if cases[index].0 == value {
            return Some(cases[index].1);
        }
        index += 1;
    }
    None
}

/// The state of lowering: the steps so far, what stands for each C object,
/// and where control flow statements lead.
pub struct Lowering {
    /// The steps so far.
    pub ops: Seq<Op>,
    /// The variable of each local that is kept in one.
    pub variables: Map<u32, usize>,
    /// The machine type of each local that is kept in a variable.
    pub variable_types: Map<u32, IrType>,
    /// The stack slot of each local that is kept in memory.
    pub stack_locals: Map<u32, usize>,
    /// The variable that holds the address of each array of variable length.
    pub vla_bases: Map<u32, usize>,
    /// The symbols of the translation unit.
    pub tables: TablesView,
    /// Where an object that the function returns is to be written.
    pub aggregate_return_address: Option<usize>,
    /// The machine type that the function returns.
    pub return_type: Option<IrType>,
    /// Where `continue` and the end of each open loop lead, the innermost last.
    pub loop_targets: Seq<(usize, usize)>,
    /// Where `break` leads, the innermost last.
    pub break_targets: Seq<usize>,
    /// The open switches, the innermost last.
    pub switch_cases: Seq<SwitchView>,
    /// The block of each label that was mentioned.
    pub labels: Map<u32, usize>,
    /// Whether the current block has ended.
    pub terminated: bool,
    /// The current block.
    pub block: usize,
}

/// Lowers the body of one C function.
pub struct FunctionLowerer<'c> {
    pub ops: Vec<Op>,
    pub variables: HashMap<u32, usize>,
    pub variable_types: HashMap<u32, IrType>,
    pub stack_locals: HashMap<u32, usize>,
    pub vla_bases: HashMap<u32, usize>,
    pub tables: &'c SymbolTables,
    pub aggregate_return_address: Option<usize>,
    pub return_type: Option<IrType>,
    pub loop_targets: Vec<(usize, usize)>,
    pub break_targets: Vec<usize>,
    pub switch_cases: Vec<SwitchTargets>,
    pub labels: HashMap<u32, usize>,
    pub terminated: bool,
    pub block: usize,
}

impl View for FunctionLowerer<'_> {
    type V = Lowering;

    open spec fn view(&self) -> Lowering {
        Lowering {
            ops: self.ops@,
            variables: self.variables@,
            variable_types: self.variable_types@,
            stack_locals: self.stack_locals@,
            vla_bases: self.vla_bases@,
            tables: self.tables@,
            aggregate_return_address: self.aggregate_return_address,
            return_type: self.return_type,
            loop_targets: self.loop_targets@,
            break_targets: self.break_targets@,
            switch_cases: switches_view(self.switch_cases@),
            labels: self.labels@,
            terminated: self.terminated,
            block: self.block,
        }
    }
}

/// The state before the first statement, with the steps that open the function.
pub open spec fn opened(
    ops: Seq<Op>,
    tables: TablesView,
    aggregate_return_address: Option<usize>,
    return_type: Option<IrType>,
    block: usize,
) -> Lowering {
    Lowering {
        ops,
        variables: Map::empty(),
        variable_types: Map::empty(),
        stack_locals: Map::empty(),
        vla_bases: Map::empty(),
        tables,
        aggregate_return_address,
        return_type,
        loop_targets: Seq::empty(),
        break_targets: Seq::empty(),
        switch_cases: Seq::empty(),
        labels: Map::empty(),
        terminated: false,
        block,
    }
}

/// The state with one more step, and the number of that step.
pub open spec fn emitted(s: Lowering, op: Op) -> (Lowering, usize) {
    (Lowering { ops: s.ops.push(op), ..s }, s.ops.len() as usize)
}

/// The state with one more step.
pub open spec fn did(s: Lowering, op: Op) -> Lowering {
    emitted(s, op).0
}

/// The machine type of a value.
pub open spec fn type_of_value(s: Lowering, value: usize) -> IrType {
    if value < s.ops.len() {
        s.ops[value as int].result_type()
    } else {
        IrType::I32
    }
}

/// The state after going on to build `block`.
pub open spec fn entered(s: Lowering, block: usize) -> Lowering {
    Lowering { block, ..did(s, Op::SwitchToBlock { block }) }
}

/// The state after going on to build `block`, to which no further jump comes.
pub open spec fn entered_sealed(s: Lowering, block: usize) -> Lowering {
    did(entered(s, block), Op::SealBlock { block })
}

/// Which extension widens values of the C type.
pub open spec fn extension(ctype: Type) -> UnaryInst {
    if signed_integer(ctype) {
        UnaryInst::Sextend
    } else {
        UnaryInst::Uextend
    }
}

/// An integer of the C type converted to the machine type. A narrow integer
/// that is to become narrower still is widened to the native width first.
pub open spec fn coerced(s: Lowering, value: usize, target: IrType, source: Type) -> (
    Lowering,
    usize,
) {
    let from = type_of_value(s, value);
    if from == target {
        (s, value)
    } else if from.width() < target.width() {
        emitted(s, Op::Unary { inst: extension(source), ty: target, value })
    } else if from.width() < 32 && target.width() < from.width() {
        let (s, wide) = emitted(s, Op::Unary { inst: extension(source), ty: IrType::I32, value });
        emitted(s, Op::Unary { inst: UnaryInst::Ireduce, ty: target, value: wide })
    } else {
        emitted(s, Op::Unary { inst: UnaryInst::Ireduce, ty: target, value })
    }
}

/// Whether `value` is not zero, as a machine boolean.
pub open spec fn compared_to_zero(s: Lowering, value: usize) -> (Lowering, usize) {
    let (s, zero) = emitted(s, Op::Iconst { ty: type_of_value(s, value), value: 0 });
    emitted(
        s,
        Op::CompareInt { condition: crate::ir::IntCC::NotEqual, left: value, right: zero },
    )
}

/// The address of a symbol of the translation unit: of a function before an
/// object.
pub open spec fn symbol_address_spec(s: Lowering, key: u32, addend: i64, location: Location) -> (
    Lowering,
    Result<usize, ErrorView>,
) {
    if s.tables.functions.contains_key(key) {
        let (s, value) = emitted(
            s,
            Op::SymbolValue { namespace: 0, index: s.tables.functions[key], addend },
        );
        (s, Ok(value))
    } else if s.tables.globals.contains_key(key) {
        let (s, value) = emitted(
            s,
            Op::SymbolValue { namespace: 1, index: s.tables.globals[key], addend },
        );
        (s, Ok(value))
    } else {
        (
            s,
            Err(
                unsupported_view(
                    location,
                    "SIA32 symbol address has no translation-unit declaration"@,
                ),
            ),
        )
    }
}

/// The address of a string literal.
pub open spec fn string_address_spec(s: Lowering, bytes: Seq<u8>, location: Location) -> (
    Lowering,
    Result<usize, ErrorView>,
) {
    match pool_position(s.tables.strings, bytes, 0) {
        Some(index) => {
            let (s, value) = emitted(s, Op::SymbolValue { namespace: 2, index, addend: 0 });
            (s, Ok(value))
        },
        None => (
            s,
            Err(
                unsupported_view(location, "string literal has no translation-unit data object"@),
            ),
        ),
    }
}

/// The exponent of the largest power of two that divides an alignment; 64 for
/// nought.
pub open spec fn align_shift_of(align: u64) -> u8 {
    u64_trailing_zeros(align) as u8
}

/// A fresh stack slot for an object of the type, and its address.
pub open spec fn aggregate_slot_spec(s: Lowering, ctype: Type, location: Location) -> (
    Lowering,
    Result<(usize, usize), ErrorView>,
) {
    match size_spec(ctype, location) {
        Err(error) => (s, Err(error)),
        Ok(size) => if size > u32::MAX {
            (
                s,
                Err(
                    unsupported_view(location, "aggregate ABI object is too large for SIA32"@),
                ),
            )
        } else {
            match align_spec(ctype, location) {
                Err(error) => (s, Err(error)),
                Ok(align) => {
                    let (s, slot) = emitted(
                        s,
                        Op::CreateStackSlot {
                            size: size as u32,
                            align_shift: align_shift_of(align),
                        },
                    );
                    let (s, address) = emitted(s, Op::StackAddr { slot });
                    (s, Ok((slot, address)))
                },
            }
        },
    }
}

/// The bytes from `offset` on copied one by one.
pub open spec fn copied_from(
    s: Lowering,
    destination: usize,
    source: usize,
    offset: i32,
    size: i32,
) -> Lowering
    decreases size - offset,
{
    if 0 <= offset < size {
        let (s, value) = emitted(s, Op::Load { ty: IrType::I8, address: source, offset });
        let s = did(s, Op::Store { value, address: destination, offset });
        copied_from(s, destination, source, (offset + 1) as i32, size)
    } else {
        s
    }
}

/// An object of the type copied byte for byte, padding and all.
pub open spec fn copied(
    s: Lowering,
    destination: usize,
    source: usize,
    ctype: Type,
    location: Location,
) -> (Lowering, Result<(), ErrorView>) {
    match size_spec(ctype, location) {
        Err(error) => (s, Err(error)),
        Ok(size) => if size > i32::MAX {
            (s, Err(unsupported_view(location, "aggregate copy is too large for SIA32"@)))
        } else {
            (copied_from(s, destination, source, 0, size as i32), Ok(()))
        },
    }
}

/// The address of a local. One that lives in a variable is spilled to a stack
/// slot of its size, where it lives from then on.
pub open spec fn local_address_spec(s: Lowering, key: u32, location: Location) -> (
    Lowering,
    Result<usize, ErrorView>,
) {
    if s.stack_locals.contains_key(key) {
        let (s, value) = emitted(s, Op::StackAddr { slot: s.stack_locals[key] });
        (s, Ok(value))
    } else if s.vla_bases.contains_key(key) {
        let (s, value) = used_variable(s, s.vla_bases[key]);
        (s, Ok(value))
    } else if s.variables.contains_key(key) {
        let (s, value) = used_variable(s, s.variables[key]);
        let size = (type_of_value(s, value).width() / 8) as u32;
        let (s, slot) = emitted(
            s,
            Op::CreateStackSlot { size, align_shift: align_shift_of(size as u64) },
        );
        let s = did(s, Op::StackStore { value, slot, offset: 0 });
        let s = Lowering { stack_locals: s.stack_locals.insert(key, slot), ..s };
        let (s, address) = emitted(s, Op::StackAddr { slot });
        (s, Ok(address))
    } else {
        (
            s,
            Err(unsupported_view(location, "SIA32 local address has no local variable mapping"@)),
        )
    }
}

/// The type of a variable.
pub open spec fn variable_type(s: Lowering, variable: usize) -> IrType {
    if variable < s.ops.len() {
        match s.ops[variable as int] {
            Op::DeclareVar { ty } => ty,
            _ => IrType::I32,
        }
    } else {
        IrType::I32
    }
}

/// The value of a variable.
pub open spec fn used_variable(s: Lowering, variable: usize) -> (Lowering, usize) {
    emitted(s, Op::UseVar { variable, ty: variable_type(s, variable) })
}

/// The block of a label, which is made when the label is first mentioned.
pub open spec fn label_block_spec(s: Lowering, label: u32) -> (Lowering, usize) {
    if s.labels.contains_key(label) {
        (s, s.labels[label])
    } else {
        let (s, block) = emitted(s, Op::CreateBlock);
        (Lowering { labels: s.labels.insert(label, block), ..s }, block)
    }
}

/// The lookup of a key, as the value it is bound to.
pub fn lookup(map: &HashMap<u32, usize>, key: u32) -> (result: Option<usize>)
    ensures
        result == (if map@.contains_key(key) { Some(map@[key]) } else { None }),
{
    match map.get(&key) {
        Some(value) => Some(*value),
        None => None,
    }
}

/// The lookup of the machine type of a local.
pub fn lookup_type(map: &HashMap<u32, IrType>, key: u32) -> (result: Option<IrType>)
    ensures
        result == (if map@.contains_key(key) { Some(map@[key]) } else { None }),
{
    match map.get(&key) {
        Some(value) => Some(*value),
        None => None,
    }
}

impl<'c> FunctionLowerer<'c> {
    /// Starts on a function whose entry block is being built.
    pub fn new(
        ops: Vec<Op>,
        tables: &'c SymbolTables,
        aggregate_return_address: Option<usize>,
        return_type: Option<IrType>,
        block: usize,
    ) -> (result: FunctionLowerer<'c>)
        ensures
            result@ == opened(ops@, tables@, aggregate_return_address, return_type, block),
    {
        let result = FunctionLowerer {
            ops,
            variables: HashMap::new(),
            variable_types: HashMap::new(),
            stack_locals: HashMap::new(),
            vla_bases: HashMap::new(),
            tables,
            aggregate_return_address,
            return_type,
            loop_targets: Vec::new(),
            break_targets: Vec::new(),
            switch_cases: Vec::new(),
            labels: HashMap::new(),
            terminated: false,
            block,
        };
        assert(result@.switch_cases =~= Seq::empty());
        result
    }

    /// Records one step.
    pub fn emit(&mut self, op: Op) -> (result: usize)
        ensures
            (final(self)@, result) == emitted(old(self)@, op),
    {
        let result: usize = self.ops.len();
        self.ops.push(op);
        result
    }

    /// The machine type of a value.
    pub fn value_type(&self, value: usize) -> (result: IrType)
        ensures
            result == type_of_value(self@, value),
    {
        if value < self.ops.len() {
            self.ops[value].value_type()
        } else {
            IrType::I32
        }
    }

    /// Goes on in `block`.
    pub fn switch_to_block(&mut self, block: usize)
        ensures
            final(self)@ == entered(old(self)@, block),
    {
        self.emit(Op::SwitchToBlock { block });
        self.block = block;
    }

    /// Goes on in `block`, to which no further jump comes.
    pub fn switch_to_sealed(&mut self, block: usize)
        ensures
            final(self)@ == entered_sealed(old(self)@, block),
    {
        self.switch_to_block(block);
        self.emit(Op::SealBlock { block });
    }

    /// The value of a variable.
    pub fn use_var(&mut self, variable: usize) -> (result: usize)
        ensures
            (final(self)@, result) == used_variable(old(self)@, variable),
    {
        let ty = if variable < self.ops.len() {
            match self.ops[variable] {
                Op::DeclareVar { ty } => ty,
                _ => IrType::I32,
            }
        } else {
            IrType::I32
        };
        self.emit(Op::UseVar { variable, ty })
    }

    /// Converts an integer of the C type to the machine type.
    pub fn coerce_integer_value(
        &mut self,
        value: usize,
        target_ty: IrType,
        source_ctype: &Type,
    ) -> (result: usize)
        ensures
            (final(self)@, result) == coerced(old(self)@, value, target_ty, *source_ctype),
    {
        let source_ty = self.value_type(value);
        if source_ty == target_ty {
            return value;
        }
        let inst = if is_signed_integer_type(source_ctype) {
            UnaryInst::Sextend
        } else {
            UnaryInst::Uextend
        };
        if source_ty.bits() < target_ty.bits() {
            self.emit(Op::Unary { inst, ty: target_ty, value })
        } else if source_ty.bits() < 32 && target_ty.bits() < source_ty.bits() {
            let wide: usize = self.emit(Op::Unary { inst, ty: IrType::I32, value });
            self.emit(Op::Unary { inst: UnaryInst::Ireduce, ty: target_ty, value: wide })
        } else {
            self.emit(Op::Unary { inst: UnaryInst::Ireduce, ty: target_ty, value })
        }
    }

    /// Tests a value for being other than zero.
    pub fn compare_to_zero(&mut self, value: usize) -> (result: usize)
        ensures
            (final(self)@, result) == compared_to_zero(old(self)@, value),
    {
        let ty = self.value_type(value);
        let zero: usize = self.emit(Op::Iconst { ty, value: 0 });
        self.emit(
            Op::CompareInt { condition: crate::ir::IntCC::NotEqual, left: value, right: zero },
        )
    }

    /// The address of a symbol of the translation unit.
    pub fn symbol_address(&mut self, key: u32, addend: i64, location: Location) -> (result: Result<
        usize,
        Error,
    >)
        ensures
            (final(self)@, outcome(result)) == symbol_address_spec(
                old(self)@,
                key,
                addend,
                location,
            ),
    {
        if let Some(index) = lookup(&self.tables.functions, key) {
            Ok(self.emit(Op::SymbolValue { namespace: 0, index, addend }))
        } else if let Some(index) = lookup(&self.tables.globals, key) {
            Ok(self.emit(Op::SymbolValue { namespace: 1, index, addend }))
        } else {
            Err(
                unsupported(location, "SIA32 symbol address has no translation-unit declaration"),
            )
        }
    }

    /// The address of a string literal.
    pub fn string_address(&mut self, bytes: &[u8], location: Location) -> (result: Result<
        usize,
        Error,
    >)
        ensures
            (final(self)@, outcome(result)) == string_address_spec(old(self)@, bytes@, location),
    {
        match find_string(&self.tables.strings, bytes) {
            Some(index) => Ok(self.emit(Op::SymbolValue { namespace: 2, index, addend: 0 })),
            None => Err(
                unsupported(location, "string literal has no translation-unit data object"),
            ),
        }
    }

    /// Makes a stack slot for an object of the type, and takes its address.
    pub fn create_aggregate_slot(&mut self, ctype: &Type, location: Location) -> (result: Result<
        (usize, usize),
        Error,
    >)
        ensures
            (final(self)@, outcome(result)) == aggregate_slot_spec(old(self)@, *ctype, location),
    {
        let size: u64 = size_of_type(ctype, location)?;
        if size > 0xffff_ffff {
            return Err(unsupported(location, "aggregate ABI object is too large for SIA32"));
        }
        let align: u64 = align_of_type(ctype, location)?;
        let align_shift: u8 = align_shift(align);
        let slot: usize = self.emit(Op::CreateStackSlot { size: size as u32, align_shift });
        let address: usize = self.emit(Op::StackAddr { slot });
        Ok((slot, address))
    }

    /// Copies an object of the type byte for byte.
    ///
    /// C struct and union assignment copies the complete object
    /// representation, including padding. Byte-wise copies avoid imposing
    /// stronger alignment than the aggregate itself guarantees and cover
    /// odd-sized objects.
    pub fn copy_aggregate_value(
        &mut self,
        destination: usize,
        source: usize,
        ctype: &Type,
        location: Location,
    ) -> (result: Result<(), Error>)
        ensures
            (final(self)@, outcome(result)) == copied(
                old(self)@,
                destination,
                source,
                *ctype,
                location,
            ),
    {
        let size: u64 = size_of_type(ctype, location)?;
        if size > 0x7fff_ffff {
            return Err(unsupported(location, "aggregate copy is too large for SIA32"));
        }
        let size: i32 = size as i32;
        let mut offset: i32 = 0;
        while offset < size
            invariant
                0 <= offset <= size,
                copied_from(self@, destination, source, offset, size) == copied_from(
                    old(self)@,
                    destination,
                    source,
                    0,
                    size,
                ),
            decreases size - offset,
        {
            let value: usize = self.emit(Op::Load { ty: IrType::I8, address: source, offset });
            self.emit(Op::Store { value, address: destination, offset });
            offset += 1;
        }
        Ok(())
    }

    /// The address of a local.
    pub fn address_of_local(&mut self, key: u32, location: Location) -> (result: Result<
        usize,
        Error,
    >)
        ensures
            (final(self)@, outcome(result)) == local_address_spec(old(self)@, key, location),
    {
        if let Some(slot) = lookup(&self.stack_locals, key) {
            return Ok(self.emit(Op::StackAddr { slot }));
        }
        if let Some(variable) = lookup(&self.vla_bases, key) {
            return Ok(self.use_var(variable));
        }
        match lookup(&self.variables, key) {
            Some(variable) => {
                let value: usize = self.use_var(variable);
                let size: u32 = self.value_type(value).bits() / 8;
                let slot: usize = self.emit(
                    Op::CreateStackSlot { size, align_shift: align_shift(size as u64) },
                );
                self.emit(Op::StackStore { value, slot, offset: 0 });
                self.stack_locals.insert(key, slot);
                Ok(self.emit(Op::StackAddr { slot }))
            },
            None => Err(
                unsupported(location, "SIA32 local address has no local variable mapping"),
            ),
        }
    }

    /// The block of a label.
    pub fn label_block(&mut self, label: u32) -> (result: usize)
        ensures
            (final(self)@, result) == label_block_spec(old(self)@, label),
    {
        match lookup(&self.labels, label) {
            Some(block) => block,
            None => {
                let block: usize = self.emit(Op::CreateBlock);
                self.labels.insert(label, block);
                block
            },
        }
    }
}

/// The exponent of the largest power of two that divides an alignment.
pub fn align_shift(align: u64) -> (result: u8)
    ensures
        result == align_shift_of(align),
{
    let zeros: u32 = align.trailing_zeros();
    zeros as u8
}

} // verus!
