//! What steps do when they run, and what that says of `++` and `--`.

use crate::bundle::decode::le_value;
use crate::bundle::encode::le_bytes;
use crate::error::ErrorView;
use crate::hir::{Declaration, Expr, Initializer, StorageClass};
use crate::ir::{BinaryInst, IntCC, IrType, Op, UnaryInst};
use crate::lower::expr_laws::{expression_is_lowered_soundly, lvalue_is_sound};
use crate::lower::expr_model::{
    expr_spec, increment_spec, local_home, lvalue_spec, object_type, scalar_step_spec, step_inst,
    LocalHome,
};
use crate::lower::init_model::local_spec;
use crate::lower::laws::{extends, locals_are_made, state_sound};
use crate::lower::state::{emitted, variable_type, Lowering};
use crate::types::{floating, ir_type_spec, stored_as_object, stripped};
use vstd::arithmetic::div_mod::{lemma_add_mod_noop_right, lemma_sub_mod_noop_right};
use vstd::arithmetic::power2::pow2;
use vstd::prelude::*;

verus! {

/// A running function: the values that its steps made, what its variables
/// hold, and memory by address.
#[verifier::ext_equal]
pub struct Machine {
    pub values: Map<usize, nat>,
    pub variables: Map<usize, nat>,
    pub memory: spec_fn(int) -> u8,
    /// The address of each stack slot.
    pub slots: Map<usize, nat>,
    /// The address of each symbol, by its namespace and number.
    pub symbols: Map<(u32, usize), nat>,
}

/// How many values a type has.
pub open spec fn modulus(ty: IrType) -> nat {
    match ty {
        IrType::I8 => 0x100,
        IrType::I16 => 0x1_0000,
        IrType::I32 => 0x1_0000_0000,
        IrType::F32 => 0x1_0000_0000,
        IrType::F64 => 0x1_0000_0000_0000_0000,
    }
}

/// How many bytes a value takes in memory.
pub open spec fn bytes_of(ty: IrType) -> nat {
    (ty.width() / 8) as nat
}

/// The number in so many bytes from `address` on.
pub open spec fn object_at(memory: spec_fn(int) -> u8, address: int, count: nat) -> nat {
    le_value(Seq::new(count, |i: int| memory(address + i)))
}

/// Memory with a number in so many bytes from `address` on, and unchanged
/// everywhere else.
pub open spec fn written(
    memory: spec_fn(int) -> u8,
    address: int,
    value: nat,
    count: nat,
) -> spec_fn(int) -> u8 {
    |at: int|
        if address <= at < address + count {
            le_bytes(value, count)[at - address]
        } else {
            memory(at)
        }
}

/// The number that a value of an integer type is where its highest bit is a
/// sign.
pub open spec fn signed_number(value: nat, ty: IrType) -> int {
    if value < modulus(ty) / 2 {
        value as int
    } else {
        value - modulus(ty)
    }
}

/// Whether two values of an integer type compare so.
pub open spec fn numbers_compare(condition: IntCC, left: nat, right: nat, ty: IrType) -> bool {
    let signed_left = signed_number(left, ty);
    let signed_right = signed_number(right, ty);
    match condition {
        IntCC::Equal => left == right,
        IntCC::NotEqual => left != right,
        IntCC::SignedLessThan => signed_left < signed_right,
        IntCC::SignedGreaterThan => signed_left > signed_right,
        IntCC::SignedLessThanOrEqual => signed_left <= signed_right,
        IntCC::SignedGreaterThanOrEqual => signed_left >= signed_right,
        IntCC::UnsignedLessThan => left < right,
        IntCC::UnsignedGreaterThan => left > right,
        IntCC::UnsignedLessThanOrEqual => left <= right,
        IntCC::UnsignedGreaterThanOrEqual => left >= right,
    }
}

/// The quotient of two numbers, rounded toward nought.
pub open spec fn quotient(a: int, b: int) -> int {
    if b == 0 {
        0
    } else if a >= 0 {
        if b > 0 {
            a / b
        } else {
            -(a / -b)
        }
    } else if b > 0 {
        -(-a / b)
    } else {
        -a / -b
    }
}

/// What an instruction on two integers of the type computes. Those on
/// floating-point numbers are left out.
pub open spec fn computed(inst: BinaryInst, left: nat, right: nat, ty: IrType) -> Option<nat> {
    let m = modulus(ty) as int;
    let a = signed_number(left, ty);
    let b = signed_number(right, ty);
    let shift = pow2(right % ty.width() as nat) as int;
    match inst {
        BinaryInst::Iadd => Some((left + right) % modulus(ty)),
        BinaryInst::Isub => Some(((left - right) % m) as nat),
        BinaryInst::Imul => Some((left * right) % modulus(ty)),
        BinaryInst::Sdiv => Some((quotient(a, b) % m) as nat),
        BinaryInst::Udiv => Some(quotient(left as int, right as int) as nat),
        BinaryInst::Srem => Some(((a - b * quotient(a, b)) % m) as nat),
        BinaryInst::Urem => Some((left - right * quotient(left as int, right as int)) as nat),
        BinaryInst::Band => Some((left as u64 & right as u64) as nat),
        BinaryInst::Bor => Some((left as u64 | right as u64) as nat),
        BinaryInst::Bxor => Some((left as u64 ^ right as u64) as nat),
        BinaryInst::Ishl => Some(((left * shift) % m) as nat),
        BinaryInst::Sshr => Some(((a / shift) % m) as nat),
        BinaryInst::Ushr => Some((left as int / shift) as nat),
        _ => None,
    }
}

/// The machine after step `index` made a value.
pub open spec fn made(m: Machine, index: nat, value: nat) -> Machine {
    Machine { values: m.values.insert(index as usize, value), ..m }
}

/// The machine after a value of the type was written to an address.
pub open spec fn stored(m: Machine, address: int, value: usize, ty: IrType) -> Machine {
    Machine { memory: written(m.memory, address, m.values[value], bytes_of(ty)), ..m }
}

/// The machine after step `index` ran. Steps of other kinds than these leave
/// it as it is; those that lead to a block are told apart below.
pub open spec fn executed(m: Machine, ops: Seq<Op>, index: nat) -> Machine {
    match ops[index as int] {
        Op::Iconst { ty, value } => made(m, index, (value as int % modulus(ty) as int) as nat),
        Op::Binary { inst, ty, left, right } => match computed(
            inst,
            m.values[left],
            m.values[right],
            ty,
        ) {
            Some(value) => made(m, index, value),
            None => m,
        },
        Op::Unary { inst: UnaryInst::Uextend, ty, value } => made(m, index, m.values[value]),
        Op::Unary { inst: UnaryInst::Sextend, ty, value } => made(
            m,
            index,
            (signed_number(m.values[value], ops[value as int].result_type())
                % modulus(ty) as int) as nat,
        ),
        Op::Unary { inst: UnaryInst::Ireduce, ty, value } => made(
            m,
            index,
            m.values[value] % modulus(ty),
        ),
        Op::CompareInt { condition, left, right } => made(
            m,
            index,
            if numbers_compare(
                condition,
                m.values[left],
                m.values[right],
                ops[left as int].result_type(),
            ) {
                1
            } else {
                0
            },
        ),
        Op::UseVar { variable, ty } => made(m, index, m.variables[variable]),
        Op::DefVar { variable, value } => Machine {
            variables: m.variables.insert(variable, m.values[value]),
            ..m
        },
        Op::StackAddr { slot } => made(m, index, m.slots[slot]),
        Op::SymbolValue { namespace, index: symbol, addend } => made(
            m,
            index,
            ((m.symbols[(namespace, symbol)] + addend) % modulus(IrType::I32) as int) as nat,
        ),
        Op::StackLoad { ty, slot } => made(
            m,
            index,
            object_at(m.memory, m.slots[slot] as int, bytes_of(ty)),
        ),
        Op::StackStore { value, slot, offset } => stored(
            m,
            m.slots[slot] + offset,
            value,
            ops[value as int].result_type(),
        ),
        Op::Load { ty, address, offset } => made(
            m,
            index,
            object_at(m.memory, m.values[address] + offset, bytes_of(ty)),
        ),
        Op::Store { value, address, offset } => stored(
            m,
            m.values[address] + offset,
            value,
            ops[value as int].result_type(),
        ),
        _ => m,
    }
}

/// The machine after the steps from `from` to `to` ran one after the other.
pub open spec fn run(m: Machine, ops: Seq<Op>, from: nat, to: nat) -> Machine
    decreases to - from,
{
    if from >= to {
        m
    } else {
        run(executed(m, ops, from), ops, from + 1, to)
    }
}

/// Whether a machine is what another was but for values that steps from `at`
/// on made.
pub open spec fn same_but_values(before: Machine, after: Machine, at: nat) -> bool {
    &&& after.memory == before.memory
    &&& after.variables == before.variables
    &&& after.slots == before.slots
    &&& after.symbols == before.symbols
    &&& forall|value: usize| value < at ==> #[trigger] after.values[value] == before.values[value]
}

/// The first step in a block: the one after the first, from `from` on, that
/// goes on in it.
pub open spec fn block_start(ops: Seq<Op>, block: usize, from: nat) -> nat
    decreases ops.len() - from,
{
    if from >= ops.len() {
        ops.len()
    } else if ops[from as int] == (Op::SwitchToBlock { block }) {
        from + 1
    } else {
        block_start(ops, block, from + 1)
    }
}

/// The step, from `from` on, whose value is the parameter of a block.
pub open spec fn block_parameter(ops: Seq<Op>, block: usize, from: nat) -> nat
    decreases ops.len() - from,
{
    if from >= ops.len() {
        ops.len()
    } else {
        match ops[from as int] {
            Op::AppendBlockParam { block: of, ty } if of == block => from,
            _ => block_parameter(ops, block, from + 1),
        }
    }
}

/// A machine and the step that it runs next.
#[verifier::ext_equal]
pub struct Running {
    pub m: Machine,
    pub at: nat,
}

/// The machine after one step. A jump leads to the start of its block, with
/// the value that it brings as the parameter of the block; a branch leads to
/// one of two blocks; any other step leads to the one after it.
pub open spec fn moved_on(r: Running, ops: Seq<Op>) -> Running {
    match ops[r.at as int] {
        Op::Jump { block } => Running { at: block_start(ops, block, 0), ..r },
        Op::JumpWith { block, value } => Running {
            m: made(r.m, block_parameter(ops, block, 0), r.m.values[value]),
            at: block_start(ops, block, 0),
        },
        Op::Branch { condition, yes, no } => Running {
            at: if r.m.values[condition] != 0 {
                block_start(ops, yes, 0)
            } else {
                block_start(ops, no, 0)
            },
            ..r
        },
        _ => Running { m: executed(r.m, ops, r.at), at: r.at + 1 },
    }
}

/// The machine after so many steps.
pub open spec fn after_steps(r: Running, ops: Seq<Op>, count: nat) -> Running
    decreases count,
{
    if count == 0 {
        r
    } else {
        after_steps(moved_on(r, ops), ops, (count - 1) as nat)
    }
}

/// Whether so many steps lead from one point to another, none of them at
/// `low` or after it and before `high`.
pub open spec fn leads(
    ops: Seq<Op>,
    from: Running,
    count: nat,
    to: Running,
    low: nat,
    high: nat,
) -> bool {
    &&& after_steps(from, ops, count) == to
    &&& forall|k: nat| k < count ==> !(low <= (#[trigger] after_steps(from, ops, k)).at < high)
}

/// Whether a machine comes to a place with nothing changed but values that
/// steps from where it was on made.
#[verifier::opaque]
pub open spec fn comes_to(ops: Seq<Op>, from: Running, at: nat) -> bool {
    exists|count: nat|
        {
            let to = #[trigger] after_steps(from, ops, count);
            to.at == at && same_but_values(from.m, to.m, from.at)
        }
}

/// What `++` or `--` makes of a number: one step up or down, modulo what the
/// type can hold.
pub open spec fn changed(value: nat, step: i64, increment: bool, ty: IrType) -> nat {
    if increment {
        ((value + step) % modulus(ty) as int) as nat
    } else {
        ((value - step) % modulus(ty) as int) as nat
    }
}

/// The four steps of an increment: the value before, the amount, the value
/// after, and the write.
spec fn increment_steps(
    ops: Seq<Op>,
    at: nat,
    ty: IrType,
    step: i64,
    increment: bool,
) -> bool {
    &&& ops.len() == at + 4
    &&& ops.len() <= usize::MAX
    &&& ops[at as int].result_type() == ty
    &&& ops[at as int + 1] == (Op::Iconst { ty, value: step })
    &&& !ty.floating()
    &&& ops[at as int + 2] == (Op::Binary {
        inst: step_inst(ty, increment),
        ty,
        left: at as usize,
        right: (at + 1) as usize,
    })
}

/// The middle of an increment computes the changed value.
proof fn increment_is_computed(
    m: Machine,
    ops: Seq<Op>,
    at: nat,
    ty: IrType,
    step: i64,
    increment: bool,
)
    requires
        increment_steps(ops, at, ty, step, increment),
    ensures
        ({
            let m1 = executed(m, ops, at);
            let m2 = executed(m1, ops, at + 1);
            let m3 = executed(m2, ops, at + 2);
            &&& run(m, ops, at, ops.len()) == executed(m3, ops, at + 3)
            &&& m3.values == m1.values.insert((at + 1) as usize, m2.values[(at + 1) as usize])
                .insert((at + 2) as usize, m3.values[(at + 2) as usize])
            &&& m3.values[(at + 2) as usize] == changed(
                m1.values[at as usize],
                step,
                increment,
                ty,
            )
            &&& m3.variables == m1.variables
            &&& m3.memory == m1.memory
            &&& m3.slots == m1.slots
        }),
{
    reveal_with_fuel(run, 6);
    let m1 = executed(m, ops, at);
    let value = m1.values[at as usize] as int;
    lemma_add_mod_noop_right(value, step as int, modulus(ty) as int);
    lemma_sub_mod_noop_right(value, step as int, modulus(ty) as int);
}

/// `++` and `--` change an integer or pointer in memory by one step. The steps after
/// those that compute its address, once, give the number that it held, and
/// leave in it that number one step on, modulo what its type can hold. No
/// other byte of memory and no variable changes.
pub proof fn an_increment_steps_the_object(s: Lowering, e: Expr, m: Machine)
    requires
        state_sound(s),
        e.expr is PostIncrement,
        !floating(object_type(*e.expr->PostIncrement_0)),
        local_home(s, stripped(*e.expr->PostIncrement_0)) is None,
        expr_spec(s, e).1 is Ok,
        expr_spec(s, e).0.ops.len() <= usize::MAX,
    ensures
        ({
            let value = *e.expr->PostIncrement_0;
            let increment = e.expr->PostIncrement_1;
            let (reached, address) = lvalue_spec(s, stripped(value));
            let (after, before) = expr_spec(s, e);
            let (ty, step) = scalar_step_spec(object_type(value), e.location)->Ok_0;
            let end = run(m, after.ops, reached.ops.len(), after.ops.len());
            let place = m.values[address->Ok_0] as int;
            let number = object_at(m.memory, place, bytes_of(ty));
            &&& address is Ok
            &&& extends(reached.ops, after.ops)
            &&& after.ops.len() == reached.ops.len() + 4
            &&& end.values[before->Ok_0] == number
            &&& end.memory == written(
                m.memory,
                place,
                changed(number, step, increment, ty),
                bytes_of(ty),
            )
            &&& end.variables == m.variables
        }),
{
    let value = *e.expr->PostIncrement_0;
    let increment = e.expr->PostIncrement_1;
    assert(expr_spec(s, e) == increment_spec(s, value, increment, e.location));
    let (reached, address) = lvalue_spec(s, stripped(value));
    let (after, _) = expr_spec(s, e);
    let (ty, step) = scalar_step_spec(object_type(value), e.location)->Ok_0;
    lvalue_is_sound(s, stripped(value));
    let at = reached.ops.len();
    assert(after.ops[at as int] == (Op::Load { ty, address: address->Ok_0, offset: 0 }));
    increment_is_computed(m, after.ops, at, ty, step, increment);
}

/// `++` and `--` change an integer or pointer in a variable by one step: they
/// give the number that the variable held, and leave in it that number one
/// step on, modulo what its type can hold. No other variable and no memory
/// changes.
pub proof fn an_increment_steps_the_variable(s: Lowering, e: Expr, variable: usize, m: Machine)
    requires
        state_sound(s),
        e.expr is PostIncrement,
        !variable_type(s, variable).floating(),
        local_home(s, stripped(*e.expr->PostIncrement_0)) == Some(LocalHome::Variable(variable)),
        expr_spec(s, e).1 is Ok,
        expr_spec(s, e).0.ops.len() <= usize::MAX,
    ensures
        ({
            let value = *e.expr->PostIncrement_0;
            let increment = e.expr->PostIncrement_1;
            let (after, before) = expr_spec(s, e);
            let (_, step) = scalar_step_spec(object_type(value), e.location)->Ok_0;
            let end = run(m, after.ops, s.ops.len(), after.ops.len());
            let number = m.variables[variable];
            &&& extends(s.ops, after.ops)
            &&& end.values[before->Ok_0] == number
            &&& end.variables == m.variables.insert(
                variable,
                changed(number, step, increment, variable_type(s, variable)),
            )
            &&& end.memory == m.memory
        }),
{
    let value = *e.expr->PostIncrement_0;
    let increment = e.expr->PostIncrement_1;
    assert(expr_spec(s, e) == increment_spec(s, value, increment, e.location));
    let (after, _) = expr_spec(s, e);
    let (_, step) = scalar_step_spec(object_type(value), e.location)->Ok_0;
    let ty = variable_type(s, variable);
    let at = s.ops.len();
    locals_are_made(s, stripped(value).expr->Id_0.key);
    assert(after.ops[at as int] == (Op::UseVar { variable, ty }));
    increment_is_computed(m, after.ops, at, ty, step, increment);
}

/// `++` and `--` change a local in a stack slot by one step, as they change
/// any other object in memory.
pub proof fn an_increment_steps_the_slot(s: Lowering, e: Expr, slot: usize, m: Machine)
    requires
        e.expr is PostIncrement,
        !floating(object_type(*e.expr->PostIncrement_0)),
        local_home(s, stripped(*e.expr->PostIncrement_0)) == Some(LocalHome::Slot(slot)),
        expr_spec(s, e).1 is Ok,
        expr_spec(s, e).0.ops.len() <= usize::MAX,
    ensures
        ({
            let value = *e.expr->PostIncrement_0;
            let increment = e.expr->PostIncrement_1;
            let (after, before) = expr_spec(s, e);
            let (ty, step) = scalar_step_spec(object_type(value), e.location)->Ok_0;
            let end = run(m, after.ops, s.ops.len(), after.ops.len());
            let number = object_at(m.memory, m.slots[slot] as int, bytes_of(ty));
            &&& extends(s.ops, after.ops)
            &&& end.values[before->Ok_0] == number
            &&& end.memory == written(
                m.memory,
                m.slots[slot] as int,
                changed(number, step, increment, ty),
                bytes_of(ty),
            )
            &&& end.variables == m.variables
        }),
{
    let value = *e.expr->PostIncrement_0;
    let increment = e.expr->PostIncrement_1;
    assert(expr_spec(s, e) == increment_spec(s, value, increment, e.location));
    let (after, _) = expr_spec(s, e);
    let (ty, step) = scalar_step_spec(object_type(value), e.location)->Ok_0;
    let at = s.ops.len();
    assert(after.ops[at as int] == (Op::StackLoad { ty, slot }));
    increment_is_computed(m, after.ops, at, ty, step, increment);
}

/// `++` and `--` of an object with static storage change the object that its
/// symbol names, and give the number that it held.
pub proof fn an_increment_steps_the_global(s: Lowering, e: Expr, m: Machine)
    requires
        state_sound(s),
        e.expr is PostIncrement,
        !floating(object_type(*e.expr->PostIncrement_0)),
        stripped(*e.expr->PostIncrement_0).expr is Id,
        ({
            let key = stripped(*e.expr->PostIncrement_0).expr->Id_0.key;
            &&& !s.variables.contains_key(key)
            &&& !s.stack_locals.contains_key(key)
            &&& !s.vla_bases.contains_key(key)
            &&& !s.tables.functions.contains_key(key)
            &&& s.tables.globals.contains_key(key)
            &&& m.symbols[(1, s.tables.globals[key])] < modulus(IrType::I32)
        }),
        expr_spec(s, e).1 is Ok,
        expr_spec(s, e).0.ops.len() <= usize::MAX,
    ensures
        ({
            let value = *e.expr->PostIncrement_0;
            let increment = e.expr->PostIncrement_1;
            let (after, before) = expr_spec(s, e);
            let (ty, step) = scalar_step_spec(object_type(value), e.location)->Ok_0;
            let end = run(m, after.ops, s.ops.len(), after.ops.len());
            let place = m.symbols[(1, s.tables.globals[stripped(value).expr->Id_0.key])] as int;
            let number = object_at(m.memory, place, bytes_of(ty));
            &&& end.values[before->Ok_0] == number
            &&& end.memory == written(
                m.memory,
                place,
                changed(number, step, increment, ty),
                bytes_of(ty),
            )
            &&& end.variables == m.variables
        }),
{
    let value = *e.expr->PostIncrement_0;
    let increment = e.expr->PostIncrement_1;
    assert(expr_spec(s, e) == increment_spec(s, value, increment, e.location));
    let (after, _) = expr_spec(s, e);
    let at = s.ops.len();
    let index = s.tables.globals[stripped(value).expr->Id_0.key];
    assert(after.ops[at as int] == (Op::SymbolValue { namespace: 1, index, addend: 0 }));
    an_increment_steps_the_object(s, e, executed(m, after.ops, at));
}

/// A scalar local lives in a variable of its declared machine type, so that
/// what it holds is a number of that type.
pub proof fn a_local_has_its_declared_type(s: Lowering, declaration: Declaration)
    requires
        declaration.symbol.storage_class == StorageClass::Auto,
        !stored_as_object(*declaration.symbol.ctype),
        local_spec(s, declaration).1 is Ok,
    ensures
        ({
            let after = local_spec(s, declaration).0;
            let key = declaration.symbol.key;
            &&& after.variables.contains_key(key)
            &&& after.variable_types.contains_key(key)
            &&& ir_type_spec(*declaration.symbol.ctype, declaration.location) == Ok::<
                IrType,
                ErrorView,
            >(after.variable_types[key])
        }),
{
    let key = declaration.symbol.key;
    let ty = ir_type_spec(*declaration.symbol.ctype, declaration.location)->Ok_0;
    let (s1, variable) = emitted(s, Op::DeclareVar { ty });
    let s2 = Lowering {
        variables: s1.variables.insert(key, variable),
        variable_types: s1.variable_types.insert(key, ty),
        ..s1
    };
    if let Some(Initializer::Scalar(scalar)) = declaration.init {
        expression_is_lowered_soundly(s2, scalar.expression);
    }
}

} // verus!
