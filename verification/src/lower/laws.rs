//! What lowering keeps: steps are only added, and every step names earlier
//! steps of the right kind.

use crate::ir::{IrType, Op};
use crate::lower::expr_model::Lowered;
use crate::lower::init_model::Done;
use crate::lower::state::{did, emitted, entered, label_block_spec, Lowering, SwitchView};
use crate::lower::stmt_model::{
    ended, loop_closed, loop_opened, reachable, switch_closed, switch_opened,
};
use vstd::prelude::*;

verus! {

/// Whether a step makes a value.
pub open spec fn makes_value(op: Op) -> bool {
    match op {
        Op::FunctionParam { index, ty } => true,
        Op::AppendBlockParam { block, ty } => true,
        Op::UseVar { variable, ty } => true,
        Op::StackAddr { slot } => true,
        Op::StackLoad { ty, slot } => true,
        Op::StackAllocDynamic { bytes } => true,
        Op::Iconst { ty, value } => true,
        Op::F32Const { bits } => true,
        Op::F64Const { bits } => true,
        Op::Binary { inst, ty, left, right } => true,
        Op::Unary { inst, ty, value } => true,
        Op::CompareInt { condition, left, right } => true,
        Op::CompareFloat { condition, left, right } => true,
        Op::Load { ty, address, offset } => true,
        Op::SymbolValue { namespace, index, addend } => true,
        Op::Call { function, result } => result is Some,
        Op::CallIndirect { signature, callee, result } => result is Some,
        _ => false,
    }
}

/// Whether a value was made before step `limit`.
pub open spec fn value_before(ops: Seq<Op>, limit: int, value: usize) -> bool {
    value < limit && value < ops.len() && makes_value(ops[value as int])
}

/// Whether a block was made before step `limit`.
pub open spec fn block_before(ops: Seq<Op>, limit: int, block: usize) -> bool {
    block < limit && block < ops.len() && ops[block as int] is CreateBlock
}

/// Whether a variable was made before step `limit`.
pub open spec fn variable_before(ops: Seq<Op>, limit: int, variable: usize) -> bool {
    variable < limit && variable < ops.len() && ops[variable as int] is DeclareVar
}

/// Whether the value and the variable are of one type.
pub open spec fn same_type(ops: Seq<Op>, variable: usize, value: usize) -> bool {
    ops[variable as int] == (Op::DeclareVar { ty: ops[value as int].result_type() })
}

/// Whether a stack slot was made before step `limit`.
pub open spec fn slot_before(ops: Seq<Op>, limit: int, slot: usize) -> bool {
    slot < limit && slot < ops.len() && ops[slot as int] is CreateStackSlot
}

/// Whether everything that a step names was made before step `limit`, and is
/// of the right kind. A variable is given values of its own type.
pub open spec fn names_earlier(ops: Seq<Op>, limit: int, op: Op) -> bool {
    match op {
        Op::AppendFunctionParams { block } => block_before(ops, limit, block),
        Op::AppendBlockParam { block, ty } => block_before(ops, limit, block),
        Op::SwitchToBlock { block } => block_before(ops, limit, block),
        Op::SealBlock { block } => block_before(ops, limit, block),
        Op::DefVar { variable, value } => variable_before(ops, limit, variable) && value_before(
            ops,
            limit,
            value,
        ) && same_type(ops, variable, value),
        Op::UseVar { variable, ty } => variable_before(ops, limit, variable),
        Op::StackAddr { slot } => slot_before(ops, limit, slot),
        Op::StackLoad { ty, slot } => slot_before(ops, limit, slot),
        Op::StackStore { value, slot, offset } => value_before(ops, limit, value) && slot_before(
            ops,
            limit,
            slot,
        ),
        Op::StackAllocDynamic { bytes } => value_before(ops, limit, bytes),
        Op::Binary { inst, ty, left, right } => value_before(ops, limit, left) && value_before(
            ops,
            limit,
            right,
        ),
        Op::Unary { inst, ty, value } => value_before(ops, limit, value),
        Op::CompareInt { condition, left, right } => value_before(ops, limit, left)
            && value_before(ops, limit, right),
        Op::CompareFloat { condition, left, right } => value_before(ops, limit, left)
            && value_before(ops, limit, right),
        Op::Load { ty, address, offset } => value_before(ops, limit, address),
        Op::Store { value, address, offset } => value_before(ops, limit, value) && value_before(
            ops,
            limit,
            address,
        ),
        Op::ImportFunction { index, signature } => signature < limit && signature < ops.len()
            && ops[signature as int] is ImportSignature,
        Op::CallArgument { value } => value_before(ops, limit, value),
        Op::Call { function, result } => function < limit && function < ops.len()
            && ops[function as int] is ImportFunction,
        Op::CallIndirect { signature, callee, result } => signature < limit && signature
            < ops.len() && ops[signature as int] is ImportSignature && value_before(
            ops,
            limit,
            callee,
        ),
        Op::Jump { block } => block_before(ops, limit, block),
        Op::JumpWith { block, value } => block_before(ops, limit, block) && value_before(
            ops,
            limit,
            value,
        ),
        Op::Branch { condition, yes, no } => value_before(ops, limit, condition) && block_before(
            ops,
            limit,
            yes,
        ) && block_before(ops, limit, no),
        Op::ReturnValue { value } => value_before(ops, limit, value),
        _ => true,
    }
}

/// Whether every step names only earlier steps of the right kind.
pub open spec fn steps_sound(ops: Seq<Op>) -> bool {
    forall|i: int| 0 <= i < ops.len() ==> names_earlier(ops, i, #[trigger] ops[i])
}

/// Whether every variable is given values of its own type only.
pub open spec fn definitions_typed(ops: Seq<Op>) -> bool {
    forall|i: int|
        0 <= i < ops.len() ==> (#[trigger] ops[i] matches Op::DefVar { variable, value } ==> {
            &&& variable < i
            &&& value < i
            &&& same_type(ops, variable, value)
        })
}

/// Whether the value was made.
pub open spec fn value_made(s: Lowering, value: usize) -> bool {
    value_before(s.ops, s.ops.len() as int, value)
}

/// Whether the block was made.
pub open spec fn block_made(s: Lowering, block: usize) -> bool {
    block_before(s.ops, s.ops.len() as int, block)
}

/// Whether the values, variables, slots and blocks that the state speaks of
/// were all made, by steps that name only earlier ones.
#[verifier::opaque]
pub open spec fn state_sound(s: Lowering) -> bool {
    let end = s.ops.len() as int;
    &&& steps_sound(s.ops)
    &&& block_made(s, s.block)
    &&& forall|key: u32| #[trigger]
        s.variables.contains_key(key) ==> variable_before(s.ops, end, s.variables[key])
            && s.variable_types.contains_key(key) && s.ops[s.variables[key] as int] == (
        Op::DeclareVar { ty: s.variable_types[key] })
    &&& forall|key: u32| #[trigger]
        s.stack_locals.contains_key(key) ==> slot_before(s.ops, end, s.stack_locals[key])
    &&& forall|key: u32| #[trigger]
        s.vla_bases.contains_key(key) ==> variable_before(s.ops, end, s.vla_bases[key])
    &&& forall|label: u32| #[trigger]
        s.labels.contains_key(label) ==> block_made(s, s.labels[label])
    &&& s.aggregate_return_address matches Some(address) ==> value_made(s, address)
    &&& forall|i: int|
        0 <= i < s.loop_targets.len() ==> block_made(s, (#[trigger] s.loop_targets[i]).0)
            && block_made(s, s.loop_targets[i].1)
    &&& forall|i: int|
        0 <= i < s.break_targets.len() ==> block_made(s, #[trigger] s.break_targets[i])
    &&& forall|i: int| 0 <= i < s.switch_cases.len() ==> targets_made(s, #[trigger] s.switch_cases[i])
}

/// Whether the blocks of a switch were all made.
pub open spec fn targets_made(s: Lowering, targets: SwitchView) -> bool {
    &&& forall|i: int| 0 <= i < targets.cases.len() ==> block_made(s, (#[trigger] targets.cases[i]).1)
    &&& targets.default matches Some(block) ==> block_made(s, block)
}

/// Whether the second list of steps continues the first.
pub open spec fn extends(before: Seq<Op>, after: Seq<Op>) -> bool {
    before.len() <= after.len() && forall|i: int|
        0 <= i < before.len() ==> #[trigger] after[i] == before[i]
}

/// Whether the steps that the second list adds go on only in blocks from
/// `floor` on, unless there are more steps than the machine can number.
pub open spec fn enters_from(floor: nat, before: Seq<Op>, after: Seq<Op>) -> bool {
    after.len() <= usize::MAX ==> forall|i: int|
        before.len() <= i < after.len() ==> (#[trigger] after[i] matches Op::SwitchToBlock {
            block,
        } ==> floor <= block)
}

/// What lowering an expression keeps, and that it goes on only in blocks that
/// it made itself.
pub open spec fn kept(before: Lowering, after: Lowering) -> bool {
    kept_from(before.ops.len(), before, after)
}

/// What lowering a part of an expression keeps. It goes on only in blocks from
/// `floor` on.
pub open spec fn kept_from(floor: nat, before: Lowering, after: Lowering) -> bool {
    &&& held(before, after)
    &&& enters_from(floor, before.ops, after.ops)
    &&& stands_from(floor, before, after)
}

/// Whether the current block is the same or one from `floor` on, unless there
/// are more steps than the machine can number.
pub open spec fn stands_from(floor: nat, before: Lowering, after: Lowering) -> bool {
    after.ops.len() <= usize::MAX ==> after.block == before.block || floor <= after.block
}

/// What every step of an expression keeps: the steps so far, the variables, the
/// symbols, and where control flow statements lead. A local may have moved
/// from its variable to a stack slot.
pub open spec fn held(before: Lowering, after: Lowering) -> bool {
    &&& extends(before.ops, after.ops)
    &&& after.variables == before.variables
    &&& after.variable_types == before.variable_types
    &&& after.vla_bases == before.vla_bases
    &&& after.tables == before.tables
    &&& after.aggregate_return_address == before.aggregate_return_address
    &&& after.return_type == before.return_type
    &&& after.loop_targets == before.loop_targets
    &&& after.break_targets == before.break_targets
    &&& after.switch_cases == before.switch_cases
    &&& after.labels == before.labels
    &&& after.terminated == before.terminated
    &&& forall|key: u32| #[trigger]
        before.stack_locals.contains_key(key) ==> after.stack_locals.contains_key(key)
            && after.stack_locals[key] == before.stack_locals[key]
    &&& forall|key: u32| #[trigger]
        after.stack_locals.contains_key(key) ==> before.stack_locals.contains_key(key)
            || before.variables.contains_key(key)
}

/// Whether lowering led from a sound state to a sound state and a value that
/// was made, unless there are more steps than the machine can number.
pub open spec fn lowered_soundly(s: Lowering, given: bool, lowered: Lowered) -> bool {
    lowered_from(s.ops.len(), s, given, lowered)
}

/// The same of a part that goes on only in blocks from `floor` on.
pub open spec fn lowered_from(floor: nat, s: Lowering, given: bool, lowered: Lowered) -> bool {
    &&& kept_from(floor, s, lowered.0)
    &&& state_sound(s) && given && lowered.0.ops.len() <= usize::MAX ==> {
        &&& state_sound(lowered.0)
        &&& lowered.1 matches Ok(value) ==> value_made(lowered.0, value)
    }
}

/// The same of a step that cannot fail.
pub open spec fn made_soundly(s: Lowering, given: bool, made: (Lowering, usize)) -> bool {
    &&& kept(s, made.0)
    &&& state_sound(s) && given && made.0.ops.len() <= usize::MAX ==> state_sound(made.0)
        && value_made(made.0, made.1)
}

/// One more step that names only what was made keeps the state sound.
pub broadcast proof fn step_is_sound(s: Lowering, op: Op)
    ensures
        state_sound(s) && names_earlier(s.ops, s.ops.len() as int, op) ==> state_sound(
            (#[trigger] emitted(s, op)).0,
        ),
{
    reveal(state_sound);
    let after = emitted(s, op).0;
    if state_sound(s) && names_earlier(s.ops, s.ops.len() as int, op) {
        assert forall|i: int| 0 <= i < after.ops.len() implies names_earlier(
            after.ops,
            i,
            #[trigger] after.ops[i],
        ) by {
            if i < s.ops.len() {
                assert(after.ops[i] == s.ops[i]);
            }
        }
        assert forall|i: int| 0 <= i < s.switch_cases.len() implies targets_made(
            after,
            #[trigger] after.switch_cases[i],
        ) by {
            assert(targets_made(s, s.switch_cases[i]));
        }
    }
}

/// Going on in a block that was made keeps the state sound.
pub broadcast proof fn entry_is_sound(s: Lowering, block: usize)
    ensures
        state_sound(s) && block_made(s, block) ==> state_sound(#[trigger] entered(s, block)),
{
    reveal(state_sound);
    step_is_sound(s, Op::SwitchToBlock { block });
    let after = entered(s, block);
    let emitted = did(s, Op::SwitchToBlock { block });
    if state_sound(s) && block_made(s, block) {
        assert(steps_sound(after.ops));
        assert forall|i: int| 0 <= i < s.switch_cases.len() implies targets_made(
            after,
            #[trigger] after.switch_cases[i],
        ) by {
            assert(targets_made(emitted, emitted.switch_cases[i]));
        }
    }
}

/// A local that is kept in a variable or in memory was made.
pub proof fn locals_are_made(s: Lowering, key: u32)
    requires
        state_sound(s),
    ensures
        s.variables.contains_key(key) ==> variable_before(
            s.ops,
            s.ops.len() as int,
            s.variables[key],
        ) && s.variable_types.contains_key(key) && s.ops[s.variables[key] as int] == (
        Op::DeclareVar { ty: s.variable_types[key] }),
        s.stack_locals.contains_key(key) ==> slot_before(
            s.ops,
            s.ops.len() as int,
            s.stack_locals[key],
        ),
        s.vla_bases.contains_key(key) ==> variable_before(
            s.ops,
            s.ops.len() as int,
            s.vla_bases[key],
        ),
{
    reveal(state_sound);
}

/// Recording the slot of a local keeps the state sound.
pub proof fn slot_is_recorded(s: Lowering, key: u32, slot: usize)
    ensures
        state_sound(s) && slot_before(s.ops, s.ops.len() as int, slot) ==> state_sound(
            Lowering { stack_locals: s.stack_locals.insert(key, slot), ..s },
        ),
{
    reveal(state_sound);
    let after = Lowering { stack_locals: s.stack_locals.insert(key, slot), ..s };
    if state_sound(s) {
        assert forall|i: int| 0 <= i < s.switch_cases.len() implies targets_made(
            after,
            #[trigger] after.switch_cases[i],
        ) by {
            assert(targets_made(s, s.switch_cases[i]));
        }
    }
}

/// A switch whose blocks were made stays so while steps are added.
proof fn targets_stay_made(s: Lowering, after: Lowering)
    requires
        extends(s.ops, after.ops),
        forall|i: int|
            0 <= i < s.switch_cases.len() ==> targets_made(s, #[trigger] s.switch_cases[i]),
    ensures
        forall|i: int|
            0 <= i < s.switch_cases.len() ==> targets_made(after, #[trigger] s.switch_cases[i]),
{
    assert forall|i: int| 0 <= i < s.switch_cases.len() implies targets_made(
        after,
        #[trigger] s.switch_cases[i],
    ) by {
        assert(targets_made(s, s.switch_cases[i]));
    }
}

/// Recording the variable of a local keeps the state sound.
pub proof fn variable_is_recorded(s: Lowering, key: u32, variable: usize, ty: IrType)
    ensures
        state_sound(s) && variable_before(s.ops, s.ops.len() as int, variable)
            && s.ops[variable as int] == (Op::DeclareVar { ty }) ==> state_sound(
            Lowering {
                variables: s.variables.insert(key, variable),
                variable_types: s.variable_types.insert(key, ty),
                ..s
            },
        ),
{
    reveal(state_sound);
    let after = Lowering {
        variables: s.variables.insert(key, variable),
        variable_types: s.variable_types.insert(key, ty),
        ..s
    };
    if state_sound(s) {
        targets_stay_made(s, after);
    }
}

/// Recording the variable of an array of variable length keeps the state
/// sound.
pub proof fn base_is_recorded(s: Lowering, key: u32, variable: usize)
    ensures
        state_sound(s) && variable_before(s.ops, s.ops.len() as int, variable) ==> state_sound(
            Lowering { vla_bases: s.vla_bases.insert(key, variable), ..s },
        ),
{
    reveal(state_sound);
    let after = Lowering { vla_bases: s.vla_bases.insert(key, variable), ..s };
    if state_sound(s) {
        targets_stay_made(s, after);
    }
}

/// The block of a label was made, and mentioning it keeps the state sound.
pub proof fn label_is_sound(s: Lowering, label: u32)
    ensures
        ({
            let (after, block) = label_block_spec(s, label);
            &&& extends(s.ops, after.ops)
            &&& state_sound(s) && after.ops.len() <= usize::MAX ==> state_sound(after)
                && block_made(after, block)
        }),
{
    reveal(state_sound);
    let (after, block) = label_block_spec(s, label);
    step_is_sound(s, Op::CreateBlock);
    let made = emitted(s, Op::CreateBlock).0;
    if state_sound(s) && after.ops.len() <= usize::MAX && !s.labels.contains_key(label) {
        targets_stay_made(made, after);
    }
}

/// Reachability does not bear on soundness.
pub proof fn reachability_is_free(s: Lowering, terminated: bool)
    ensures
        state_sound(s) ==> state_sound(Lowering { terminated, ..s }),
{
    reveal(state_sound);
    let after = Lowering { terminated, ..s };
    if state_sound(s) {
        targets_stay_made(s, after);
    }
}

/// Where `break` and `continue` lead was made.
pub proof fn targets_were_made(s: Lowering)
    requires
        state_sound(s),
    ensures
        s.break_targets.len() > 0 ==> block_made(s, s.break_targets.last()),
        s.loop_targets.len() > 0 ==> block_made(s, s.loop_targets.last().0),
        s.switch_cases.len() > 0 ==> targets_made(s, s.switch_cases.last()),
        s.aggregate_return_address matches Some(address) ==> value_made(s, address),
        block_made(s, s.block),
{
    reveal(state_sound);
    if s.switch_cases.len() > 0 {
        assert(targets_made(s, s.switch_cases[s.switch_cases.len() - 1]));
    }
}

/// Opening a loop whose blocks were made keeps the state sound.
pub proof fn loop_is_opened(s: Lowering, next: usize, exit: usize)
    ensures
        state_sound(s) && block_made(s, next) && block_made(s, exit) ==> state_sound(
            loop_opened(s, next, exit),
        ),
{
    reveal(state_sound);
    let after = loop_opened(s, next, exit);
    if state_sound(s) && block_made(s, next) && block_made(s, exit) {
        targets_stay_made(s, after);
        assert forall|i: int| 0 <= i < after.loop_targets.len() implies block_made(
            after,
            (#[trigger] after.loop_targets[i]).0,
        ) && block_made(after, after.loop_targets[i].1) by {
            if i < s.loop_targets.len() {
                assert(after.loop_targets[i] == s.loop_targets[i]);
            }
        }
        assert forall|i: int| 0 <= i < after.break_targets.len() implies block_made(
            after,
            #[trigger] after.break_targets[i],
        ) by {
            if i < s.break_targets.len() {
                assert(after.break_targets[i] == s.break_targets[i]);
            }
        }
    }
}

/// Closing a loop keeps the state sound.
pub proof fn loop_is_closed(s: Lowering)
    ensures
        state_sound(s) ==> state_sound(loop_closed(s)),
{
    reveal(state_sound);
    let after = loop_closed(s);
    if state_sound(s) {
        targets_stay_made(s, after);
        assert forall|i: int| 0 <= i < after.loop_targets.len() implies block_made(
            after,
            (#[trigger] after.loop_targets[i]).0,
        ) && block_made(after, after.loop_targets[i].1) by {
            assert(after.loop_targets[i] == s.loop_targets[i]);
        }
        assert forall|i: int| 0 <= i < after.break_targets.len() implies block_made(
            after,
            #[trigger] after.break_targets[i],
        ) by {
            assert(after.break_targets[i] == s.break_targets[i]);
        }
    }
}

/// Opening a switch whose blocks were made keeps the state sound.
pub proof fn switch_is_opened(s: Lowering, targets: SwitchView, exit: usize)
    ensures
        state_sound(s) && targets_made(s, targets) && block_made(s, exit) ==> state_sound(
            switch_opened(s, targets, exit),
        ),
{
    reveal(state_sound);
    let after = switch_opened(s, targets, exit);
    if state_sound(s) && targets_made(s, targets) && block_made(s, exit) {
        targets_stay_made(s, after);
        assert forall|i: int| 0 <= i < after.switch_cases.len() implies targets_made(
            after,
            #[trigger] after.switch_cases[i],
        ) by {
            if i < s.switch_cases.len() {
                assert(after.switch_cases[i] == s.switch_cases[i]);
            } else {
                assert(targets_made(s, targets));
            }
        }
        assert forall|i: int| 0 <= i < after.break_targets.len() implies block_made(
            after,
            #[trigger] after.break_targets[i],
        ) by {
            if i < s.break_targets.len() {
                assert(after.break_targets[i] == s.break_targets[i]);
            }
        }
    }
}

/// Closing a switch keeps the state sound.
pub proof fn switch_is_closed(s: Lowering)
    ensures
        state_sound(s) ==> state_sound(switch_closed(s)),
{
    reveal(state_sound);
    let after = switch_closed(s);
    if state_sound(s) {
        targets_stay_made(s, after);
        assert forall|i: int| 0 <= i < after.switch_cases.len() implies targets_made(
            after,
            #[trigger] after.switch_cases[i],
        ) by {
            assert(after.switch_cases[i] == s.switch_cases[i]);
        }
        assert forall|i: int| 0 <= i < after.break_targets.len() implies block_made(
            after,
            #[trigger] after.break_targets[i],
        ) by {
            assert(after.break_targets[i] == s.break_targets[i]);
        }
    }
}

/// What every statement keeps, lowered or not: the steps so far, the labels
/// and the symbols.
pub open spec fn grown(before: Lowering, after: Lowering) -> bool {
    &&& extends(before.ops, after.ops)
    &&& after.tables == before.tables
    &&& after.aggregate_return_address == before.aggregate_return_address
    &&& after.return_type == before.return_type
    &&& forall|label: u32| #[trigger]
        before.labels.contains_key(label) ==> after.labels.contains_key(label)
            && after.labels[label] == before.labels[label]
}

/// Whether the same loops and switches are open.
pub open spec fn same_targets(before: Lowering, after: Lowering) -> bool {
    &&& after.loop_targets == before.loop_targets
    &&& after.break_targets == before.break_targets
    &&& after.switch_cases == before.switch_cases
}

/// What a statement keeps: the steps so far, the labels, the symbols, and,
/// where it was lowered, the open loops and switches.
pub open spec fn continued(before: Lowering, done: Done) -> bool {
    &&& grown(before, done.0)
    &&& done.1 is Ok ==> same_targets(before, done.0)
}

/// Whether lowering led from a sound state to a sound state, unless it failed
/// or there are more steps than the machine can number.
pub open spec fn done_soundly(s: Lowering, given: bool, done: Done) -> bool {
    &&& continued(s, done)
    &&& state_sound(s) && given && done.1 is Ok && done.0.ops.len() <= usize::MAX
        ==> state_sound(done.0)
}

/// Whether no label of a switch starts the block.
pub open spec fn targets_avoid(targets: SwitchView, block: usize) -> bool {
    &&& forall|i: int| 0 <= i < targets.cases.len() ==> (#[trigger] targets.cases[i]).1 != block
    &&& targets.default != Some(block)
}

/// Whether lowering has not gone on in the block so far, and no label or case
/// leads to it.
#[verifier::opaque]
pub open spec fn untouched(block: usize, s: Lowering) -> bool {
    &&& block < s.ops.len()
    &&& s.block != block
    &&& forall|i: int|
        0 <= i < s.ops.len() ==> #[trigger] s.ops[i] != (Op::SwitchToBlock { block })
    &&& forall|label: u32| #[trigger] s.labels.contains_key(label) ==> s.labels[label] != block
    &&& forall|i: int|
        0 <= i < s.switch_cases.len() ==> targets_avoid(#[trigger] s.switch_cases[i], block)
}

/// A step that does not go on in the block leaves it untouched.
pub broadcast proof fn steps_leave_untouched(block: usize, s: Lowering, op: Op)
    ensures
        untouched(block, s) && op != (Op::SwitchToBlock { block }) ==> #[trigger] untouched(
            block,
            emitted(s, op).0,
        ),
{
    reveal(untouched);
}

/// Going on in another block leaves the block untouched.
pub broadcast proof fn entries_leave_untouched(block: usize, s: Lowering, other: usize)
    ensures
        untouched(block, s) && other != block ==> #[trigger] untouched(block, entered(s, other)),
{
    reveal(untouched);
}

/// What else a state holds does not bear on its blocks.
pub proof fn other_parts_do_not_bear(block: usize, s: Lowering, t: Lowering)
    requires
        t.ops == s.ops,
        t.block == s.block,
        t.labels == s.labels,
        t.switch_cases == s.switch_cases,
    ensures
        untouched(block, t) == untouched(block, s),
{
    reveal(untouched);
}

/// Reachability does not bear on the blocks.
pub broadcast proof fn reaching_leaves_untouched(block: usize, s: Lowering)
    ensures
        #[trigger] untouched(block, reachable(s)) == untouched(block, s),
{
    other_parts_do_not_bear(block, s, reachable(s));
}

/// The end of a block does not bear on the blocks.
pub broadcast proof fn ending_leaves_untouched(block: usize, s: Lowering)
    ensures
        #[trigger] untouched(block, ended(s)) == untouched(block, s),
{
    other_parts_do_not_bear(block, s, ended(s));
}

} // verus!
