//! The steps by which a function body is built for the code generator.
//!
//! Lowering records one [`Op`] for each step. A value, block, variable, stack
//! slot or signature is known by the position of the step that made it.

use vstd::prelude::*;

verus! {

/// A machine value type.
#[derive(Debug, Clone, Copy, PartialEq, Eq, Structural)]
pub enum IrType {
    I8,
    I16,
    I32,
    F32,
    F64,
}

impl IrType {
    /// The width of a value of this type.
    pub open spec fn width(self) -> u32 {
        match self {
            IrType::I8 => 8,
            IrType::I16 => 16,
            IrType::I32 => 32,
            IrType::F32 => 32,
            IrType::F64 => 64,
        }
    }

    /// The number of bits in a value of this type.
    pub fn bits(self) -> (result: u32)
        ensures
            result == self.width(),
    {
        match self {
            IrType::I8 => 8,
            IrType::I16 => 16,
            IrType::I32 => 32,
            IrType::F32 => 32,
            IrType::F64 => 64,
        }
    }

    /// Whether this is a floating-point type.
    pub open spec fn floating(self) -> bool {
        self == IrType::F32 || self == IrType::F64
    }

    /// Whether this is a floating-point type.
    pub fn is_float(self) -> (result: bool)
        ensures
            result == self.floating(),
    {
        matches!(self, IrType::F32 | IrType::F64)
    }
}

/// An instruction on two values of one type.
#[derive(Debug, Clone, Copy, PartialEq, Eq, Structural)]
pub enum BinaryInst {
    Iadd,
    Isub,
    Imul,
    Sdiv,
    Udiv,
    Srem,
    Urem,
    Band,
    Bor,
    Bxor,
    Ishl,
    Sshr,
    Ushr,
    Fadd,
    Fsub,
    Fmul,
    Fdiv,
}

/// An instruction on one value.
#[derive(Debug, Clone, Copy, PartialEq, Eq, Structural)]
pub enum UnaryInst {
    Sextend,
    Uextend,
    Ireduce,
    Fneg,
    Fpromote,
    Fdemote,
    FcvtToSintSat,
    FcvtToUintSat,
    FcvtFromSint,
    FcvtFromUint,
}

/// An integer comparison.
#[derive(Debug, Clone, Copy, PartialEq, Eq, Structural)]
pub enum IntCC {
    Equal,
    NotEqual,
    SignedLessThan,
    SignedGreaterThan,
    SignedLessThanOrEqual,
    SignedGreaterThanOrEqual,
    UnsignedLessThan,
    UnsignedGreaterThan,
    UnsignedLessThanOrEqual,
    UnsignedGreaterThanOrEqual,
}

/// A floating-point comparison.
#[derive(Debug, Clone, Copy, PartialEq, Eq, Structural)]
pub enum FloatCC {
    Equal,
    NotEqual,
    LessThan,
    GreaterThan,
    LessThanOrEqual,
    GreaterThanOrEqual,
}

/// One step in building a function.
#[allow(inconsistent_fields)]
#[derive(Debug, Clone, Copy, PartialEq, Eq, Structural)]
pub enum Op {
    /// Makes a block.
    CreateBlock,
    /// Gives the block one parameter for each parameter of the function.
    AppendFunctionParams { block: usize },
    /// The function's parameter at `index`.
    FunctionParam { index: usize, ty: IrType },
    /// Gives the block one more parameter, which is the value.
    AppendBlockParam { block: usize, ty: IrType },
    /// Lets the following instructions go to the block.
    SwitchToBlock { block: usize },
    /// Declares that every jump to the block has been built.
    SealBlock { block: usize },
    /// Seals every block that is not sealed yet.
    SealAllBlocks,
    /// Makes a variable.
    DeclareVar { ty: IrType },
    /// Gives the variable a value.
    DefVar { variable: usize, value: usize },
    /// The value of the variable.
    UseVar { variable: usize, ty: IrType },
    /// Makes a stack slot of `size` bytes, aligned to two to the `align_shift`.
    CreateStackSlot { size: u32, align_shift: u8 },
    /// The address of the slot.
    StackAddr { slot: usize },
    /// Reads a value from the start of the slot.
    StackLoad { ty: IrType, slot: usize },
    /// Writes the value at `offset` in the slot.
    StackStore { value: usize, slot: usize, offset: i32 },
    /// The address of `bytes` fresh bytes of stack.
    StackAllocDynamic { bytes: usize },
    /// An integer.
    Iconst { ty: IrType, value: i64 },
    /// A single-precision number by its bits.
    F32Const { bits: u32 },
    /// A double-precision number by its bits.
    F64Const { bits: u64 },
    /// An instruction on two values of type `ty`.
    Binary { inst: BinaryInst, ty: IrType, left: usize, right: usize },
    /// An instruction on one value with a result of type `ty`.
    Unary { inst: UnaryInst, ty: IrType, value: usize },
    /// One or zero, as the integers compare.
    CompareInt { condition: IntCC, left: usize, right: usize },
    /// One or zero, as the numbers compare.
    CompareFloat { condition: FloatCC, left: usize, right: usize },
    /// Reads a value of type `ty`, `offset` bytes past the address.
    Load { ty: IrType, address: usize, offset: i32 },
    /// Writes the value `offset` bytes past the address.
    Store { value: usize, address: usize, offset: i32 },
    /// The address of a symbol, plus `addend`.
    SymbolValue { namespace: u32, index: usize, addend: i64 },
    /// Starts a call signature.
    BeginSignature,
    /// Gives the signature one more parameter.
    SignatureParam { ty: IrType },
    /// Gives the signature one more result.
    SignatureReturn { ty: IrType },
    /// Makes the signature that was begun last known to the function.
    ImportSignature,
    /// Makes the function at `index` known under the signature.
    ImportFunction { index: usize, signature: usize },
    /// One more argument of the call that follows.
    CallArgument { value: usize },
    /// Calls the imported function.
    Call { function: usize, result: Option<IrType> },
    /// Calls the function at the address.
    CallIndirect { signature: usize, callee: usize, result: Option<IrType> },
    /// Goes on in the block.
    Jump { block: usize },
    /// Goes on in the block with `value` as its parameter.
    JumpWith { block: usize, value: usize },
    /// Goes on in `yes` where the condition is not zero, else in `no`.
    Branch { condition: usize, yes: usize, no: usize },
    /// Returns without a value.
    Return,
    /// Returns the value.
    ReturnValue { value: usize },
}

impl Op {
    /// The type of the value that this step makes; for a step that makes
    /// none, the native integer type.
    pub open spec fn result_type(self) -> IrType {
        match self {
            Op::FunctionParam { index, ty } => ty,
            Op::AppendBlockParam { block, ty } => ty,
            Op::UseVar { variable, ty } => ty,
            Op::StackLoad { ty, slot } => ty,
            Op::Iconst { ty, value } => ty,
            Op::F32Const { bits } => IrType::F32,
            Op::F64Const { bits } => IrType::F64,
            Op::Binary { inst, ty, left, right } => ty,
            Op::Unary { inst, ty, value } => ty,
            Op::CompareInt { condition, left, right } => IrType::I8,
            Op::CompareFloat { condition, left, right } => IrType::I8,
            Op::Load { ty, address, offset } => ty,
            Op::Call { function, result: Some(ty) } => ty,
            Op::CallIndirect { signature, callee, result: Some(ty) } => ty,
            _ => IrType::I32,
        }
    }

    /// The type of the value that this step makes; for a step that makes
    /// none, the native integer type.
    pub fn value_type(self) -> (result: IrType)
        ensures
            result == self.result_type(),
    {
        match self {
            Op::FunctionParam { index: _, ty } => ty,
            Op::AppendBlockParam { block: _, ty } => ty,
            Op::UseVar { variable: _, ty } => ty,
            Op::StackLoad { ty, slot: _ } => ty,
            Op::Iconst { ty, value: _ } => ty,
            Op::F32Const { bits: _ } => IrType::F32,
            Op::F64Const { bits: _ } => IrType::F64,
            Op::Binary { inst: _, ty, left: _, right: _ } => ty,
            Op::Unary { inst: _, ty, value: _ } => ty,
            Op::CompareInt { condition: _, left: _, right: _ } => IrType::I8,
            Op::CompareFloat { condition: _, left: _, right: _ } => IrType::I8,
            Op::Load { ty, address: _, offset: _ } => ty,
            Op::Call { function: _, result: Some(ty) } => ty,
            Op::CallIndirect { signature: _, callee: _, result: Some(ty) } => ty,
            _ => IrType::I32,
        }
    }
}

} // verus!
