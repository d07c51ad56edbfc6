//! Lowering of whole functions.

use crate::error::{
    outcome, outcome_view, unsupported, unsupported_view, Error, ErrorView, Location,
};
use crate::hir::{FunctionType, Stmt, Symbol, TypeKind};
use crate::ir::{IrType, Op};
use crate::lower::expr::{function_return_type, named_parameter_types};
use crate::lower::expr_model::{named_types_spec, return_type_spec};
use crate::lower::init_model::Done;
use crate::lower::state::{
    aggregate_slot_spec, copied, did, emitted, opened, FunctionLowerer, Lowering, SymbolTables,
    TablesView,
};
use crate::lower::stmt_model::statements_spec;
use crate::types::{
    abi_parameter_spec, abi_parameter_type, by_value_aggregate, function_parameters,
    is_by_value_aggregate, parameters,
};
use vstd::prelude::*;

verus! {

broadcast use vstd::std_specs::hash::group_hash_axioms;

/// What the code generator is told about one function.
#[derive(Debug, PartialEq, Eq)]
pub struct FunctionPlan {
    /// The machine types of what is passed to it.
    pub parameters: Vec<IrType>,
    /// The machine type that it returns.
    pub result_type: Option<IrType>,
    /// The steps that build it.
    pub ops: Vec<Op>,
}

/// What a [`FunctionPlan`] says.
pub struct FunctionPlanView {
    pub parameters: Seq<IrType>,
    pub result_type: Option<IrType>,
    pub ops: Seq<Op>,
}

impl View for FunctionPlan {
    type V = FunctionPlanView;

    open spec fn view(&self) -> FunctionPlanView {
        FunctionPlanView {
            parameters: self.parameters@,
            result_type: self.result_type,
            ops: self.ops@,
        }
    }
}

/// The steps before the parameters of a function: its entry block.
pub open spec fn entry_ops() -> Seq<Op> {
    seq![
        Op::CreateBlock,
        Op::AppendFunctionParams { block: 0 },
        Op::SwitchToBlock { block: 0 },
        Op::SealBlock { block: 0 },
    ]
}

/// The steps that open a function, with one for each parameter from `index` on.
pub open spec fn opening_from(types: Seq<IrType>, index: nat, ops: Seq<Op>) -> Seq<Op>
    decreases types.len() - index,
{
    if index >= types.len() {
        ops
    } else {
        opening_from(
            types,
            index + 1,
            ops.push(Op::FunctionParam { index: index as usize, ty: types[index as int] }),
        )
    }
}

/// The first parameter's value. The entry block takes the steps before it.
pub const FIRST_PARAMETER: usize = 4;

/// One parameter bound to its value: an object is copied to a stack slot of
/// its own, a scalar goes to a variable.
pub open spec fn bound_spec(s: Lowering, parameter: Symbol, value: usize, location: Location) -> Done {
    let ctype = *parameter.ctype;
    if by_value_aggregate(ctype) {
        match aggregate_slot_spec(s, ctype, location) {
            (s, Err(error)) => (s, Err(error)),
            (s, Ok((slot, address))) => match copied(s, address, value, ctype, location) {
                (s, Err(error)) => (s, Err(error)),
                (s, Ok(_)) => (
                    Lowering { stack_locals: s.stack_locals.insert(parameter.key, slot), ..s },
                    Ok(()),
                ),
            },
        }
    } else {
        match abi_parameter_spec(ctype, location) {
            Err(error) => (s, Err(error)),
            Ok(ty) => {
                let (s, variable) = emitted(s, Op::DeclareVar { ty });
                let s = did(s, Op::DefVar { variable, value });
                (
                    Lowering {
                        variables: s.variables.insert(parameter.key, variable),
                        variable_types: s.variable_types.insert(parameter.key, ty),
                        ..s
                    },
                    Ok(()),
                )
            },
        }
    }
}

/// The parameters from `index` on bound to their values, which start at
/// `first`.
pub open spec fn bound_from(
    s: Lowering,
    parameters: Seq<Symbol>,
    index: nat,
    first: usize,
    location: Location,
) -> Done
    decreases parameters.len() - index,
{
    if index >= parameters.len() {
        (s, Ok(()))
    } else {
        match bound_spec(
            s,
            parameters[index as int],
            first.wrapping_add(index as usize),
            location,
        ) {
            (s, Err(error)) => (s, Err(error)),
            (s, Ok(_)) => bound_from(s, parameters, index + 1, first, location),
        }
    }
}

/// The steps after the last statement. A function that returns a value must
/// not run past its end.
pub open spec fn closed_spec(s: Lowering, function: FunctionType, location: Location) -> Result<
    Seq<Op>,
    ErrorView,
> {
    if s.terminated {
        Ok(did(s, Op::SealAllBlocks).ops)
    } else if function.return_type.kind is Void {
        Ok(did(did(s, Op::Return), Op::SealAllBlocks).ops)
    } else {
        Err(
            unsupported_view(
                location,
                "non-void SIA32 functions must end in an explicit return statement"@,
            ),
        )
    }
}

/// The state before the parameters are bound.
pub open spec fn function_opened(
    function: FunctionType,
    types: Seq<IrType>,
    result_type: Option<IrType>,
    tables: TablesView,
) -> Lowering {
    opened(
        opening_from(types, 0, entry_ops()),
        tables,
        if by_value_aggregate(*function.return_type) {
            Some(FIRST_PARAMETER)
        } else {
            None
        },
        result_type,
        0,
    )
}

/// The value of the first named parameter.
pub open spec fn first_named(function: FunctionType) -> usize {
    if by_value_aggregate(*function.return_type) {
        (FIRST_PARAMETER + 1) as usize
    } else {
        FIRST_PARAMETER
    }
}

/// What the code generator is told about a function.
pub open spec fn function_plan_spec(
    function: FunctionType,
    body: Seq<Stmt>,
    location: Location,
    tables: TablesView,
) -> Result<FunctionPlanView, ErrorView> {
    match named_types_spec(function, location) {
        Err(error) => Err(error),
        Ok(types) => match return_type_spec(function, location) {
            Err(error) => Err(error),
            Ok(result_type) => match bound_from(
                function_opened(function, types, result_type, tables),
                parameters(function),
                0,
                first_named(function),
                location,
            ) {
                (_, Err(error)) => Err(error),
                (s, Ok(_)) => match statements_spec(s, body, 0) {
                    (_, Err(error)) => Err(error),
                    (s, Ok(_)) => match closed_spec(s, function, location) {
                        Err(error) => Err(error),
                        Ok(ops) => Ok(FunctionPlanView { parameters: types, result_type, ops }),
                    },
                },
            },
        },
    }
}

/// The steps that open a function.
fn opening(types: &Vec<IrType>) -> (result: Vec<Op>)
    ensures
        result@ == opening_from(types@, 0, entry_ops()),
{
    let mut ops: Vec<Op> = Vec::new();
    ops.push(Op::CreateBlock);
    ops.push(Op::AppendFunctionParams { block: 0 });
    ops.push(Op::SwitchToBlock { block: 0 });
    ops.push(Op::SealBlock { block: 0 });
    assert(ops@ =~= entry_ops());
    let mut index: usize = 0;
    while index < types.len()
        invariant
            index <= types@.len(),
            opening_from(types@, index as nat, ops@) == opening_from(types@, 0, entry_ops()),
        decreases types@.len() - index,
    {
        ops.push(Op::FunctionParam { index, ty: types[index] });
        index += 1;
    }
    ops
}

impl<'c> FunctionLowerer<'c> {
    /// Binds one parameter to its value.
    fn bind_parameter(&mut self, parameter: &Symbol, value: usize, location: Location) -> (result:
        Result<(), Error>)
        ensures
            (final(self)@, outcome(result)) == bound_spec(
                old(self)@,
                *parameter,
                value,
                location,
            ),
    {
        if is_by_value_aggregate(&parameter.ctype) {
            let (slot, address) = self.create_aggregate_slot(&parameter.ctype, location)?;
            self.copy_aggregate_value(address, value, &parameter.ctype, location)?;
            self.stack_locals.insert(parameter.key, slot);
            return Ok(());
        }
        let ty = abi_parameter_type(&parameter.ctype, location)?;
        let variable: usize = self.emit(Op::DeclareVar { ty });
        self.emit(Op::DefVar { variable, value });
        self.variables.insert(parameter.key, variable);
        self.variable_types.insert(parameter.key, ty);
        Ok(())
    }

    /// Binds the parameters to their values.
    fn bind_parameters(&mut self, named: &[Symbol], first: usize, location: Location) -> (result:
        Result<(), Error>)
        ensures
            (final(self)@, outcome(result)) == bound_from(
                old(self)@,
                named@,
                0,
                first,
                location,
            ),
    {
        let mut index: usize = 0;
        while index < named.len()
            invariant
                index <= named@.len(),
                bound_from(self@, named@, index as nat, first, location) == bound_from(
                    old(self)@,
                    named@,
                    0,
                    first,
                    location,
                ),
            decreases named@.len() - index,
        {
            self.bind_parameter(&named[index], first.wrapping_add(index), location)?;
            index += 1;
        }
        Ok(())
    }
}

/// Lowers a function to what the code generator is told about it.
pub fn plan_function(
    function: &FunctionType,
    body: &Vec<Stmt>,
    location: Location,
    tables: &SymbolTables,
) -> (result: Result<FunctionPlan, Error>)
    ensures
        outcome_view(result) == function_plan_spec(*function, body@, location, tables@),
{
    let types = named_parameter_types(function, location)?;
    let result_type = function_return_type(function, location)?;
    let aggregate_return = is_by_value_aggregate(&function.return_type);
    let mut lowerer = FunctionLowerer::new(
        opening(&types),
        tables,
        if aggregate_return {
            Some(FIRST_PARAMETER)
        } else {
            None
        },
        result_type,
        0,
    );
    let first: usize = if aggregate_return {
        FIRST_PARAMETER + 1
    } else {
        FIRST_PARAMETER
    };
    lowerer.bind_parameters(function_parameters(function), first, location)?;
    lowerer.compile_statements(body)?;
    if !lowerer.terminated {
        if matches!(function.return_type.kind, TypeKind::Void) {
            lowerer.emit(Op::Return);
        } else {
            return Err(
                unsupported(
                    location,
                    "non-void SIA32 functions must end in an explicit return statement",
                ),
            );
        }
    }
    // Forward gotos can add jumps to a block after it was first met, so the
    // blocks that are still open are sealed once the whole body is lowered.
    lowerer.emit(Op::SealAllBlocks);
    Ok(FunctionPlan { parameters: types, result_type, ops: lowerer.ops })
}

} // verus!
