//! What the operators that choose between operands do when they run.

use crate::error::ErrorView;
use crate::hir::{BinaryOp, Expr};
use crate::ir::{IntCC, IrType, Op, UnaryInst};
use crate::lower::expr_laws::{
    condition_is_sound, expression_is_lowered_soundly, fork_is_sound, forked, kept_is_transitive,
    operand_is_sound, shortcut, shortcut_is_sound, ternary_is_sound, Fork,
};
use crate::lower::expr_model::{
    coerced_operand, condition_spec, expr_spec, logical_spec, ternary_spec, value_type_spec,
};
use crate::lower::laws::{extends, state_sound, steps_sound, value_made};
use crate::lower::machine::{
    after_steps, block_parameter, block_start, leads, made, moved_on, same_but_values, Machine,
    Running,
};
use crate::lower::state::{compared_to_zero, did, entered_sealed, type_of_value, Lowering};
use vstd::prelude::*;

verus! {

pub proof fn block_starts_at(ops: Seq<Op>, block: usize, at: nat, from: nat)
    requires
        from <= at < ops.len(),
        ops[at as int] == (Op::SwitchToBlock { block }),
        forall|i: int| from <= i < at ==> #[trigger] ops[i] != (Op::SwitchToBlock { block }),
    ensures
        block_start(ops, block, from) == at + 1,
    decreases at - from,
{
    if from < at {
        assert(ops[from as int] != (Op::SwitchToBlock { block }));
        block_starts_at(ops, block, at, from + 1);
    }
}

proof fn block_parameter_is_at(ops: Seq<Op>, block: usize, ty: IrType, at: nat, from: nat)
    requires
        from <= at < ops.len(),
        ops[at as int] == (Op::AppendBlockParam { block, ty }),
        forall|i: int|
            from <= i < at ==> !(#[trigger] ops[i] matches Op::AppendBlockParam { block: of, ty }
                && of == block),
    ensures
        block_parameter(ops, block, from) == at,
    decreases at - from,
{
    if from < at {
        let op = ops[from as int];
        assert(!(op matches Op::AppendBlockParam { block: of, ty } && of == block));
        block_parameter_is_at(ops, block, ty, at, from + 1);
    }
}

/// The state in which the right operand of `&&` or `||` is lowered, after the
/// left one was.
pub open spec fn right_opened(left: Lowering, value: usize, both: bool) -> Lowering {
    let (tested, truth) = compared_to_zero(left, value);
    let (split, fork) = forked(tested, IrType::I32);
    shortcut(split, both, truth, fork)
}

/// The test of a value in a list of steps, from `at` on, and the blocks of
/// what follows from it.
spec fn test_of(ops: Seq<Op>, at: int, value: usize, ty: IrType, result_ty: IrType) -> bool {
    &&& at + 6 < ops.len() <= usize::MAX
    &&& value < at
    &&& ops[at] == (Op::Iconst { ty, value: 0 })
    &&& ops[at + 1] == (Op::CompareInt {
        condition: IntCC::NotEqual,
        left: value,
        right: at as usize,
    })
    &&& ops[at + 2] == Op::CreateBlock
    &&& ops[at + 3] == Op::CreateBlock
    &&& ops[at + 4] == Op::CreateBlock
    &&& ops[at + 5] == (Op::AppendBlockParam { block: (at + 4) as usize, ty: result_ty })
}

/// The head of `&&` or `||` in a list of steps, from `at` on.
spec fn logical_head(ops: Seq<Op>, at: int, value: usize, ty: IrType, both: bool) -> bool {
    let rhs_block = (at + 2) as usize;
    let short_block = (at + 3) as usize;
    let merge_block = (at + 4) as usize;
    &&& at + 13 <= ops.len()
    &&& test_of(ops, at, value, ty, IrType::I32)
    &&& ops[at + 6] == (Op::Branch {
        condition: (at + 1) as usize,
        yes: if both {
            rhs_block
        } else {
            short_block
        },
        no: if both {
            short_block
        } else {
            rhs_block
        },
    })
    &&& ops[at + 7] == (Op::SealBlock { block: short_block })
    &&& ops[at + 8] == (Op::SwitchToBlock { block: short_block })
    &&& ops[at + 9] == (Op::Iconst {
        ty: IrType::I32,
        value: if both {
            0
        } else {
            1
        },
    })
    &&& ops[at + 10] == (Op::JumpWith { block: merge_block, value: (at + 9) as usize })
    &&& ops[at + 11] == (Op::SealBlock { block: rhs_block })
    &&& ops[at + 12] == (Op::SwitchToBlock { block: rhs_block })
}

/// Whether the steps before `at` name no block from `at` on.
spec fn older_blocks(ops: Seq<Op>, at: int) -> bool {
    forall|i: int|
        0 <= i < at && i < ops.len() ==> match #[trigger] ops[i] {
            Op::SwitchToBlock { block } => block < at,
            Op::AppendBlockParam { block, ty } => block < at,
            _ => true,
        }
}

proof fn older_steps_name_older_blocks(ops: Seq<Op>, at: int)
    requires
        steps_sound(ops),
    ensures
        older_blocks(ops, at),
{
}

/// Where the blocks of `&&` or `||` start.
proof fn logical_blocks(ops: Seq<Op>, at: int, value: usize, ty: IrType, both: bool)
    requires
        0 <= at,
        logical_head(ops, at, value, ty, both),
        older_blocks(ops, at),
    ensures
        block_start(ops, (at + 3) as usize, 0) == at + 9,
        block_start(ops, (at + 2) as usize, 0) == at + 13,
        block_parameter(ops, (at + 4) as usize, 0) == at + 5,
{
    let rhs_block = (at + 2) as usize;
    let short_block = (at + 3) as usize;
    let merge_block = (at + 4) as usize;
    assert forall|i: int| 0 <= i < at + 8 implies #[trigger] ops[i] != (Op::SwitchToBlock {
        block: short_block,
    }) by {
        if i >= at {
            let k = i - at;
            assert(k == 0 || k == 1 || k == 2 || k == 3 || k == 4 || k == 5 || k == 6 || k == 7);
        }
    }
    block_starts_at(ops, short_block, (at + 8) as nat, 0);
    assert forall|i: int| 0 <= i < at + 12 implies #[trigger] ops[i] != (Op::SwitchToBlock {
        block: rhs_block,
    }) by {
        if i >= at {
            let k = i - at;
            assert(k == 0 || k == 1 || k == 2 || k == 3 || k == 4 || k == 5 || k == 6 || k == 7 || k
                == 8 || k == 9 || k == 10 || k == 11);
        }
    }
    block_starts_at(ops, rhs_block, (at + 12) as nat, 0);
    assert forall|i: int| 0 <= i < at + 5 implies !(#[trigger] ops[i] matches Op::AppendBlockParam {
        block: of,
        ty,
    } && of == merge_block) by {
        if i >= at {
            let k = i - at;
            assert(k == 0 || k == 1 || k == 2 || k == 3 || k == 4);
        }
    }
    block_parameter_is_at(ops, merge_block, IrType::I32, (at + 5) as nat, 0);
}

/// The test of a value and the making of three blocks, run.
proof fn test_runs(
    ops: Seq<Op>,
    at: nat,
    value: usize,
    ty: IrType,
    result_ty: IrType,
    m: Machine,
)
    requires
        test_of(ops, at as int, value, ty, result_ty),
    ensures
        ({
            let begin = Running { m, at };
            let tested = after_steps(begin, ops, 6);
            &&& tested.at == at + 6
            &&& same_but_values(m, tested.m, at)
            &&& tested.m.values[(at + 1) as usize] == if m.values[value] != 0 {
                1nat
            } else {
                0nat
            }
            &&& forall|k: nat| k < 6 ==> (#[trigger] after_steps(begin, ops, k)).at == at + k
        }),
{
    let begin = Running { m, at };
    let r1 = moved_on(begin, ops);
    let r2 = moved_on(r1, ops);
    let r3 = moved_on(r2, ops);
    let r4 = moved_on(r3, ops);
    let r5 = moved_on(r4, ops);
    let r6 = moved_on(r5, ops);
    assert(r1.m.values[at as usize] == 0);
    reveal_with_fuel(after_steps, 7);
    assert(after_steps(begin, ops, 6) == r6);
    assert forall|k: nat| k < 6 implies (#[trigger] after_steps(begin, ops, k)).at == at + k by {
        assert(k == 0 || k == 1 || k == 2 || k == 3 || k == 4 || k == 5);
    }
}

/// More steps after some steps.
proof fn steps_add_up(r: Running, ops: Seq<Op>, first: nat, second: nat)
    ensures
        after_steps(r, ops, first + second) == after_steps(
            after_steps(r, ops, first),
            ops,
            second,
        ),
    decreases first,
{
    if first > 0 {
        steps_add_up(moved_on(r, ops), ops, (first - 1) as nat, second);
    }
}

/// The head of `&&` or `||` run: either to the right operand, or past it.
proof fn logical_head_runs(
    ops: Seq<Op>,
    at: nat,
    value: usize,
    ty: IrType,
    both: bool,
    m: Machine,
    end: nat,
)
    requires
        logical_head(ops, at as int, value, ty, both),
        older_blocks(ops, at as int),
        block_start(ops, (at + 4) as usize, 0) == end,
        at + 13 <= end,
    ensures
        ({
            let begin = Running { m, at };
            let decided = (m.values[value] != 0) != both;
            &&& decided ==> {
                let last = after_steps(begin, ops, 9);
                &&& leads(ops, begin, 9, last, at + 13, end)
                &&& last.at == end
                &&& same_but_values(m, last.m, at)
                &&& last.m.values[(at + 5) as usize] == if both {
                    0nat
                } else {
                    1nat
                }
            }
            &&& !decided ==> {
                let last = after_steps(begin, ops, 7);
                &&& leads(ops, begin, 7, last, at + 13, end)
                &&& last.at == at + 13
                &&& same_but_values(m, last.m, at)
            }
        }),
{
    let begin = Running { m, at };
    let decided = (m.values[value] != 0) != both;
    logical_blocks(ops, at as int, value, ty, both);
    test_runs(ops, at, value, ty, IrType::I32, m);
    let tested = after_steps(begin, ops, 6);
    steps_add_up(begin, ops, 6, 1);
    steps_add_up(begin, ops, 6, 2);
    steps_add_up(begin, ops, 6, 3);
    reveal_with_fuel(after_steps, 4);
    let r7 = moved_on(tested, ops);
    let r8 = moved_on(r7, ops);
    let r9 = moved_on(r8, ops);
    assert(after_steps(begin, ops, 7) == r7);
    assert(after_steps(begin, ops, 8) == r8);
    assert(after_steps(begin, ops, 9) == r9);
    if decided {
        assert(r7.at == at + 9);
        assert(r8.at == at + 10);
        assert forall|k: nat| k < 9 implies !(at + 13 <= (#[trigger] after_steps(
            begin,
            ops,
            k,
        )).at < end) by {
            if k >= 6 {
                assert(k == 6 || k == 7 || k == 8);
            }
        }
    } else {
        assert(r7.at == at + 13);
        assert forall|k: nat| k < 7 implies !(at + 13 <= (#[trigger] after_steps(
            begin,
            ops,
            k,
        )).at < end) by {
            if k >= 6 {
                assert(k == 6);
            }
        }
    }
}

/// The end of `&&` or `||` in a list of steps, from `at` on: the value of the
/// right operand as nought or one goes to where the ways meet.
spec fn logical_tail(ops: Seq<Op>, at: int, value: usize, ty: IrType, merge_block: usize) -> bool {
    &&& ops.len() == at + 6
    &&& ops.len() <= usize::MAX
    &&& value < at
    &&& ops[at] == (Op::Iconst { ty, value: 0 })
    &&& ops[at + 1] == (Op::CompareInt {
        condition: IntCC::NotEqual,
        left: value,
        right: at as usize,
    })
    &&& ops[at + 2] == (Op::Unary {
        inst: UnaryInst::Uextend,
        ty: IrType::I32,
        value: (at + 1) as usize,
    })
    &&& ops[at + 3] == (Op::JumpWith { block: merge_block, value: (at + 2) as usize })
    &&& ops[at + 4] == (Op::SealBlock { block: merge_block })
    &&& ops[at + 5] == (Op::SwitchToBlock { block: merge_block })
}

/// The end of `&&` or `||` run.
proof fn logical_tail_runs(
    ops: Seq<Op>,
    at: nat,
    value: usize,
    ty: IrType,
    merge_block: usize,
    parameter: nat,
    m: Machine,
)
    requires
        logical_tail(ops, at as int, value, ty, merge_block),
        block_start(ops, merge_block, 0) == ops.len(),
        block_parameter(ops, merge_block, 0) == parameter,
        parameter < at,
    ensures
        ({
            let last = after_steps(Running { m, at }, ops, 4);
            &&& last.at == ops.len()
            &&& last.m.memory == m.memory
            &&& last.m.variables == m.variables
            &&& last.m.values[parameter as usize] == if m.values[value] != 0 {
                1nat
            } else {
                0nat
            }
        }),
{
    let begin = Running { m, at };
    let r1 = moved_on(begin, ops);
    let r2 = moved_on(r1, ops);
    let r3 = moved_on(r2, ops);
    let r4 = moved_on(r3, ops);
    assert(r1.m.values[at as usize] == 0);
    reveal_with_fuel(after_steps, 5);
    assert(after_steps(begin, ops, 4) == r4);
}

/// Where the two ways through `&&` or `||` meet.
proof fn logical_ways_meet(
    ops: Seq<Op>,
    head: int,
    left: usize,
    left_ty: IrType,
    both: bool,
    tail: int,
    right: usize,
    right_ty: IrType,
)
    requires
        0 <= head,
        head + 13 <= tail,
        logical_head(ops, head, left, left_ty, both),
        older_blocks(ops, head),
        logical_tail(ops, tail, right, right_ty, (head + 4) as usize),
        forall|i: int|
            head + 13 <= i < tail ==> (#[trigger] ops[i] matches Op::SwitchToBlock { block }
                ==> head + 13 <= block),
    ensures
        block_start(ops, (head + 4) as usize, 0) == ops.len(),
{
    let merge_block = (head + 4) as usize;
    assert forall|i: int| 0 <= i < tail + 5 implies #[trigger] ops[i] != (Op::SwitchToBlock {
        block: merge_block,
    }) by {
        if head <= i < head + 13 {
            let k = i - head;
            assert(k == 0 || k == 1 || k == 2 || k == 3 || k == 4 || k == 5 || k == 6 || k == 7 || k
                == 8 || k == 9 || k == 10 || k == 11 || k == 12);
        }
        if tail <= i {
            let k = i - tail;
            assert(k == 0 || k == 1 || k == 2 || k == 3 || k == 4);
        }
    }
    block_starts_at(ops, merge_block, (tail + 5) as nat, 0);
}

/// `&&` and `||` run their right operand only where the left one does not
/// decide, and give nought or one.
///
/// `m` is the machine after the steps of the left operand. Where the left
/// operand decides (it is nought for `&&`, anything else for `||`), the
/// machine comes to the end of the expression without a step of the right
/// operand, and the value is nought for `&&`, one for `||`. Where it does not,
/// the machine comes to the first step of the right operand. `n` is a machine
/// after the steps of the right operand: from there it comes to the end of the
/// expression, and the value is one if the right operand is other than nought.
pub proof fn a_logical_operator_runs_what_it_needs(s: Lowering, e: Expr, m: Machine, n: Machine)
    requires
        state_sound(s),
        e.expr is Binary,
        e.expr->Binary_0 == BinaryOp::LogicalAnd || e.expr->Binary_0 == BinaryOp::LogicalOr,
        expr_spec(s, e).1 is Ok,
        expr_spec(s, e).0.ops.len() <= usize::MAX,
    ensures
        ({
            let both = e.expr->Binary_0 == BinaryOp::LogicalAnd;
            let (after, result) = expr_spec(s, e);
            let (left, left_value) = expr_spec(s, *e.expr->Binary_1);
            let opened = right_opened(left, left_value->Ok_0, both);
            let (right, right_value) = expr_spec(opened, *e.expr->Binary_2);
            let begin = Running { m, at: left.ops.len() };
            let decided = (m.values[left_value->Ok_0] != 0) != both;
            &&& decided ==> exists|count: nat, last: Running|
                {
                    &&& #[trigger] leads(
                        after.ops,
                        begin,
                        count,
                        last,
                        opened.ops.len(),
                        right.ops.len(),
                    )
                    &&& last.at == after.ops.len()
                    &&& same_but_values(m, last.m, left.ops.len())
                    &&& last.m.values[result->Ok_0] == if both {
                        0nat
                    } else {
                        1nat
                    }
                }
            &&& !decided ==> exists|count: nat, last: Running|
                {
                    &&& #[trigger] leads(
                        after.ops,
                        begin,
                        count,
                        last,
                        opened.ops.len(),
                        right.ops.len(),
                    )
                    &&& last.at == opened.ops.len()
                    &&& same_but_values(m, last.m, left.ops.len())
                }
            &&& exists|count: nat|
                {
                    let last = #[trigger] after_steps(
                        Running { m: n, at: right.ops.len() },
                        after.ops,
                        count,
                    );
                    &&& last.at == after.ops.len()
                    &&& last.m.memory == n.memory
                    &&& last.m.variables == n.variables
                    &&& last.m.values[result->Ok_0] == if n.values[right_value->Ok_0] != 0 {
                        1nat
                    } else {
                        0nat
                    }
                }
        }),
{
    let both = e.expr->Binary_0 == BinaryOp::LogicalAnd;
    let (after, result) = expr_spec(s, e);
    assert(expr_spec(s, e) == logical_spec(s, e));
    let (left, left_value) = expr_spec(s, *e.expr->Binary_1);
    let value = left_value->Ok_0;
    let opened = right_opened(left, value, both);
    let (right, right_value) = expr_spec(opened, *e.expr->Binary_2);
    let other = right_value->Ok_0;
    logical_steps(s, e);
    expression_is_lowered_soundly(s, e);
    reveal(state_sound);
    older_steps_name_older_blocks(after.ops, left.ops.len() as int);
    let head = left.ops.len();
    let tail = right.ops.len();
    let left_ty = type_of_value(left, value);
    let right_ty = type_of_value(right, other);
    logical_ways_meet(
        after.ops,
        head as int,
        value,
        left_ty,
        both,
        tail as int,
        other,
        right_ty,
    );
    logical_blocks(after.ops, head as int, value, left_ty, both);
    logical_head_runs(after.ops, head, value, left_ty, both, m, after.ops.len());
    logical_tail_runs(
        after.ops,
        tail,
        other,
        right_ty,
        (head + 4) as usize,
        head + 5,
        n,
    );
    let begin = Running { m, at: head };
    let short = after_steps(begin, after.ops, 9);
    let long = after_steps(begin, after.ops, 7);
    if (m.values[value] != 0) != both {
        assert(leads(after.ops, begin, 9, short, opened.ops.len(), right.ops.len()));
    } else {
        assert(leads(after.ops, begin, 7, long, opened.ops.len(), right.ops.len()));
    }
    let ending = after_steps(Running { m: n, at: tail }, after.ops, 4);
    assert(ending.at == after.ops.len());
}

/// The steps of `&&` or `||` around those of its operands.
proof fn logical_steps(s: Lowering, e: Expr)
    requires
        state_sound(s),
        e.expr is Binary,
        e.expr->Binary_0 == BinaryOp::LogicalAnd || e.expr->Binary_0 == BinaryOp::LogicalOr,
        logical_spec(s, e).1 is Ok,
        logical_spec(s, e).0.ops.len() <= usize::MAX,
    ensures
        ({
            let both = e.expr->Binary_0 == BinaryOp::LogicalAnd;
            let (after, result) = logical_spec(s, e);
            let (left, left_value) = expr_spec(s, *e.expr->Binary_1);
            let value = left_value->Ok_0;
            let opened = right_opened(left, value, both);
            let (right, right_value) = expr_spec(opened, *e.expr->Binary_2);
            let other = right_value->Ok_0;
            let head = left.ops.len() as int;
            let tail = right.ops.len() as int;
            &&& left_value is Ok
            &&& right_value is Ok
            &&& opened.ops.len() == head + 13
            &&& head + 13 <= tail
            &&& result->Ok_0 == head + 5
            &&& logical_head(after.ops, head, value, type_of_value(left, value), both)
            &&& logical_tail(
                after.ops,
                tail,
                other,
                type_of_value(right, other),
                (head + 4) as usize,
            )
            &&& forall|i: int|
                head + 13 <= i < tail ==> (#[trigger] after.ops[i] matches Op::SwitchToBlock {
                    block,
                } ==> head + 13 <= block)
        }),
{
    let both = e.expr->Binary_0 == BinaryOp::LogicalAnd;
    let (after, result) = logical_spec(s, e);
    let (left, left_value) = expr_spec(s, *e.expr->Binary_1);
    let value = left_value->Ok_0;
    let opened = right_opened(left, value, both);
    let (right, right_value) = expr_spec(opened, *e.expr->Binary_2);
    expression_is_lowered_soundly(s, *e.expr->Binary_1);
    condition_is_sound(s, *e.expr->Binary_1);
    let (tested, truth) = compared_to_zero(left, value);
    assert(condition_spec(s, *e.expr->Binary_1) == (tested, Ok::<usize, ErrorView>(truth)));
    fork_is_sound(tested, IrType::I32);
    let (split, fork) = forked(tested, IrType::I32);
    shortcut_is_sound(tested.ops.len(), split, both, truth, fork);
    assert(opened == shortcut(split, both, truth, fork));
    expression_is_lowered_soundly(opened, *e.expr->Binary_2);
    assert(extends(opened.ops, right.ops));
    let (right_tested, right_truth) = compared_to_zero(right, right_value->Ok_0);
    assert(condition_spec(opened, *e.expr->Binary_2) == (
        right_tested,
        Ok::<usize, ErrorView>(right_truth),
    ));
    assert(right_tested.ops.len() == right.ops.len() + 2);
    assert(after.ops.len() == right.ops.len() + 6);
    assert(state_sound(tested));
    assert(state_sound(opened));
    assert(value_made(right, right_value->Ok_0));
    assert(extends(right.ops, after.ops));
    assert forall|i: int| 0 <= i < opened.ops.len() implies after.ops[i] == opened.ops[i] by {
        assert(right.ops[i] == opened.ops[i]);
    }
}

/// The state after the branch of a conditional on the value of its condition,
/// and the blocks that it leads to.
pub open spec fn split_opened(condition: Lowering, value: usize, ty: IrType) -> (Lowering, Fork) {
    let (tested, truth) = compared_to_zero(condition, value);
    let (split, fork) = forked(tested, ty);
    (did(split, Op::Branch { condition: truth, yes: fork.yes_block, no: fork.no_block }), fork)
}

/// The state after an operand of a conditional, and its value in the machine
/// type of the whole.
pub open spec fn operand_lowered(s: Lowering, operand: Expr, ty: IrType) -> (Lowering, usize) {
    let (lowered, value) = expr_spec(s, operand);
    coerced_operand(lowered, value->Ok_0, ty, operand.ctype)
}

/// The state in which the second operand of a conditional is lowered, after
/// the first one was.
pub open spec fn second_opened(first: Lowering, value: usize, fork: Fork) -> Lowering {
    entered_sealed(did(first, Op::JumpWith { block: fork.merge_block, value }), fork.no_block)
}

/// The places in the steps of a conditional: the test of its condition, the
/// jump after its first operand, and the jump after its second one.
struct Places {
    test: int,
    first_jump: int,
    second_jump: int,
}

/// The steps of a conditional around those of its operands.
spec fn conditional_steps(
    ops: Seq<Op>,
    at: Places,
    value: usize,
    value_ty: IrType,
    ty: IrType,
    first: usize,
    second: usize,
) -> bool {
    let yes_block = (at.test + 2) as usize;
    let no_block = (at.test + 3) as usize;
    let merge_block = (at.test + 4) as usize;
    &&& 0 <= at.test
    &&& at.test + 9 <= at.first_jump
    &&& at.first_jump + 3 <= at.second_jump
    &&& ops.len() == at.second_jump + 3
    &&& test_of(ops, at.test, value, value_ty, ty)
    &&& older_blocks(ops, at.test)
    &&& ops[at.test + 6] == (Op::Branch {
        condition: (at.test + 1) as usize,
        yes: yes_block,
        no: no_block,
    })
    &&& ops[at.test + 7] == (Op::SwitchToBlock { block: yes_block })
    &&& ops[at.test + 8] == (Op::SealBlock { block: yes_block })
    &&& ops[at.first_jump] == (Op::JumpWith { block: merge_block, value: first })
    &&& ops[at.first_jump + 1] == (Op::SwitchToBlock { block: no_block })
    &&& ops[at.first_jump + 2] == (Op::SealBlock { block: no_block })
    &&& ops[at.second_jump] == (Op::JumpWith { block: merge_block, value: second })
    &&& ops[at.second_jump + 1] == (Op::SealBlock { block: merge_block })
    &&& ops[at.second_jump + 2] == (Op::SwitchToBlock { block: merge_block })
    &&& forall|i: int|
        at.test + 9 <= i < at.first_jump || at.first_jump + 3 <= i < at.second_jump ==> (
        #[trigger] ops[i] matches Op::SwitchToBlock { block } ==> at.test + 9 <= block)
}

/// Where the blocks of a conditional start.
proof fn conditional_blocks(
    ops: Seq<Op>,
    at: Places,
    value: usize,
    value_ty: IrType,
    ty: IrType,
    first: usize,
    second: usize,
)
    requires
        conditional_steps(ops, at, value, value_ty, ty, first, second),
    ensures
        block_start(ops, (at.test + 2) as usize, 0) == at.test + 8,
        block_start(ops, (at.test + 3) as usize, 0) == at.first_jump + 2,
        block_start(ops, (at.test + 4) as usize, 0) == ops.len(),
        block_parameter(ops, (at.test + 4) as usize, 0) == at.test + 5,
{
    let yes_block = (at.test + 2) as usize;
    let no_block = (at.test + 3) as usize;
    let merge_block = (at.test + 4) as usize;
    assert forall|i: int| 0 <= i < ops.len() implies (#[trigger] ops[i] matches Op::SwitchToBlock {
        block,
    } ==> {
        &&& block == yes_block ==> i == at.test + 7
        &&& block == no_block ==> i == at.first_jump + 1
        &&& block == merge_block ==> i == at.second_jump + 2
    }) by {
        if at.test <= i < at.test + 9 {
            let k = i - at.test;
            assert(k == 0 || k == 1 || k == 2 || k == 3 || k == 4 || k == 5 || k == 6 || k == 7 || k
                == 8);
        } else if at.first_jump <= i < at.first_jump + 3 {
            let k = i - at.first_jump;
            assert(k == 0 || k == 1 || k == 2);
        } else if at.second_jump <= i {
            let k = i - at.second_jump;
            assert(k == 0 || k == 1 || k == 2);
        }
    }
    block_starts_at(ops, yes_block, (at.test + 7) as nat, 0);
    block_starts_at(ops, no_block, (at.first_jump + 1) as nat, 0);
    block_starts_at(ops, merge_block, (at.second_jump + 2) as nat, 0);
    assert forall|i: int| 0 <= i < at.test + 5 implies !(
    #[trigger] ops[i] matches Op::AppendBlockParam { block: of, ty } && of == merge_block) by {
        if i >= at.test {
            let k = i - at.test;
            assert(k == 0 || k == 1 || k == 2 || k == 3 || k == 4);
        }
    }
    block_parameter_is_at(ops, merge_block, ty, (at.test + 5) as nat, 0);
}

/// The head of a conditional run: to one operand or to the other.
proof fn conditional_head_runs(
    ops: Seq<Op>,
    at: Places,
    value: usize,
    value_ty: IrType,
    ty: IrType,
    first: usize,
    second: usize,
    m: Machine,
)
    requires
        conditional_steps(ops, at, value, value_ty, ty, first, second),
    ensures
        ({
            let test = at.test as nat;
            let first_jump = at.first_jump as nat;
            let second_jump = at.second_jump as nat;
            let begin = Running { m, at: test };
            let last = after_steps(begin, ops, 8);
            &&& same_but_values(m, last.m, test)
            &&& m.values[value] != 0 ==> leads(
                ops,
                begin,
                8,
                last,
                first_jump + 3,
                second_jump + 1,
            ) && last.at == test + 9
            &&& m.values[value] == 0 ==> leads(ops, begin, 8, last, test + 9, first_jump + 1)
                && last.at == first_jump + 3
        }),
{
    let test = at.test as nat;
    let begin = Running { m, at: test };
    conditional_blocks(ops, at, value, value_ty, ty, first, second);
    test_runs(ops, test, value, value_ty, ty, m);
    let tested = after_steps(begin, ops, 6);
    steps_add_up(begin, ops, 6, 1);
    steps_add_up(begin, ops, 6, 2);
    reveal_with_fuel(after_steps, 3);
    let r7 = moved_on(tested, ops);
    let r8 = moved_on(r7, ops);
    assert(after_steps(begin, ops, 7) == r7);
    assert(after_steps(begin, ops, 8) == r8);
    assert forall|k: nat| k < 8 implies (#[trigger] after_steps(begin, ops, k)).at == (if k < 7 {
        test + k
    } else {
        r7.at
    }) by {
        if k >= 6 {
            assert(k == 6 || k == 7);
        }
    }
}

/// The steps of a conditional are those.
#[verifier::rlimit(60)]
proof fn conditional_is_so(s: Lowering, e: Expr, ty: IrType)
    requires
        state_sound(s),
        e.expr is Ternary,
        ternary_spec(s, e, ty).1 is Ok,
        ternary_spec(s, e, ty).0.ops.len() <= usize::MAX,
    ensures
        ({
            let (after, result) = ternary_spec(s, e, ty);
            let (tested, value) = expr_spec(s, *e.expr->Ternary_0);
            let (split, fork) = split_opened(tested, value->Ok_0, ty);
            let yes_opened = entered_sealed(split, fork.yes_block);
            let (yes, first) = operand_lowered(yes_opened, *e.expr->Ternary_1, ty);
            let no_opened = second_opened(yes, first, fork);
            let (no, second) = operand_lowered(no_opened, *e.expr->Ternary_2, ty);
            let at = Places {
                test: tested.ops.len() as int,
                first_jump: yes.ops.len() as int,
                second_jump: no.ops.len() as int,
            };
            &&& value is Ok
            &&& result->Ok_0 == at.test + 5
            &&& yes_opened.ops.len() == at.test + 9
            &&& no_opened.ops.len() == at.first_jump + 3
            &&& conditional_steps(
                after.ops,
                at,
                value->Ok_0,
                type_of_value(tested, value->Ok_0),
                ty,
                first,
                second,
            )
        }),
{
    let (after, result) = ternary_spec(s, e, ty);
    let (tested, value) = expr_spec(s, *e.expr->Ternary_0);
    let (split, fork) = split_opened(tested, value->Ok_0, ty);
    let yes_opened = entered_sealed(split, fork.yes_block);
    let (yes, first) = operand_lowered(yes_opened, *e.expr->Ternary_1, ty);
    let no_opened = second_opened(yes, first, fork);
    let (no, second) = operand_lowered(no_opened, *e.expr->Ternary_2, ty);
    expression_is_lowered_soundly(s, *e.expr->Ternary_0);
    let (compared, truth) = compared_to_zero(tested, value->Ok_0);
    assert(condition_spec(s, *e.expr->Ternary_0) == (compared, Ok::<usize, ErrorView>(truth)));
    let (yes_value, yes_result) = expr_spec(yes_opened, *e.expr->Ternary_1);
    let (no_value, no_result) = expr_spec(no_opened, *e.expr->Ternary_2);
    expression_is_lowered_soundly(yes_opened, *e.expr->Ternary_1);
    expression_is_lowered_soundly(no_opened, *e.expr->Ternary_2);
    operand_is_sound(yes_value, yes_result->Ok_0, ty, e.expr->Ternary_1.ctype);
    operand_is_sound(no_value, no_result->Ok_0, ty, e.expr->Ternary_2.ctype);
    kept_is_transitive(yes_opened, yes_value, yes);
    kept_is_transitive(no_opened, no_value, no);
    assert(after.ops.len() == no.ops.len() + 3);
    assert(after.ops == no.ops.push(
        Op::JumpWith { block: fork.merge_block, value: second },
    ).push(Op::SealBlock { block: fork.merge_block }).push(
        Op::SwitchToBlock { block: fork.merge_block },
    ));
    assert(extends(no.ops, after.ops));
    assert forall|i: int| 0 <= i < no_opened.ops.len() implies after.ops[i] == no_opened.ops[i] by {
        assert(no.ops[i] == no_opened.ops[i]);
    }
    assert(extends(yes.ops, no_opened.ops));
    assert forall|i: int| 0 <= i < yes_opened.ops.len() implies after.ops[i]
        == yes_opened.ops[i] by {
        assert(yes.ops[i] == yes_opened.ops[i]);
        assert(no_opened.ops[i] == yes.ops[i]);
    }
    ternary_is_sound(s, e, ty);
    reveal(state_sound);
    older_steps_name_older_blocks(after.ops, tested.ops.len() as int);
}

/// A conditional runs one of its two operands, and its value is that of the
/// one that ran.
///
/// `m` is the machine after the steps of the condition. It comes to the first
/// step of the first operand where the condition is other than nought, else
/// to that of the second operand, each time without a step of the other one.
/// `n` is a machine after the steps of an operand, its value being in the
/// machine type of the whole: from there it comes to the end of the
/// expression, without a step of the other operand, and the value is that of
/// the operand.
pub proof fn a_conditional_runs_one_operand(s: Lowering, e: Expr, m: Machine, n: Machine)
    requires
        state_sound(s),
        e.expr is Ternary,
        expr_spec(s, e).1 is Ok,
        expr_spec(s, e).0.ops.len() <= usize::MAX,
    ensures
        ({
            let ty = value_type_spec(e)->Ok_0;
            let (after, result) = expr_spec(s, e);
            let (tested, value) = expr_spec(s, *e.expr->Ternary_0);
            let (split, fork) = split_opened(tested, value->Ok_0, ty);
            let yes_opened = entered_sealed(split, fork.yes_block);
            let (yes, first) = operand_lowered(yes_opened, *e.expr->Ternary_1, ty);
            let no_opened = second_opened(yes, first, fork);
            let (no, second) = operand_lowered(no_opened, *e.expr->Ternary_2, ty);
            let begin = Running { m, at: tested.ops.len() };
            &&& m.values[value->Ok_0] != 0 ==> exists|count: nat, last: Running|
                {
                    &&& #[trigger] leads(
                        after.ops,
                        begin,
                        count,
                        last,
                        no_opened.ops.len(),
                        no.ops.len() + 1,
                    )
                    &&& last.at == yes_opened.ops.len()
                    &&& same_but_values(m, last.m, tested.ops.len())
                }
            &&& m.values[value->Ok_0] == 0 ==> exists|count: nat, last: Running|
                {
                    &&& #[trigger] leads(
                        after.ops,
                        begin,
                        count,
                        last,
                        yes_opened.ops.len(),
                        yes.ops.len() + 1,
                    )
                    &&& last.at == no_opened.ops.len()
                    &&& same_but_values(m, last.m, tested.ops.len())
                }
            &&& exists|count: nat, last: Running|
                {
                    &&& #[trigger] leads(
                        after.ops,
                        Running { m: n, at: yes.ops.len() },
                        count,
                        last,
                        no_opened.ops.len(),
                        no.ops.len() + 1,
                    )
                    &&& last.at == after.ops.len()
                    &&& last.m == made(n, result->Ok_0 as nat, n.values[first])
                }
            &&& exists|count: nat, last: Running|
                {
                    &&& #[trigger] leads(
                        after.ops,
                        Running { m: n, at: no.ops.len() },
                        count,
                        last,
                        yes_opened.ops.len(),
                        yes.ops.len() + 1,
                    )
                    &&& last.at == after.ops.len()
                    &&& last.m == made(n, result->Ok_0 as nat, n.values[second])
                }
        }),
{
    let ty = value_type_spec(e)->Ok_0;
    let (after, result) = expr_spec(s, e);
    assert(expr_spec(s, e) == ternary_spec(s, e, ty));
    let (tested, value) = expr_spec(s, *e.expr->Ternary_0);
    let (split, fork) = split_opened(tested, value->Ok_0, ty);
    let yes_opened = entered_sealed(split, fork.yes_block);
    let (yes, first) = operand_lowered(yes_opened, *e.expr->Ternary_1, ty);
    let no_opened = second_opened(yes, first, fork);
    let (no, second) = operand_lowered(no_opened, *e.expr->Ternary_2, ty);
    let at = Places {
        test: tested.ops.len() as int,
        first_jump: yes.ops.len() as int,
        second_jump: no.ops.len() as int,
    };
    let value_ty = type_of_value(tested, value->Ok_0);
    conditional_is_so(s, e, ty);
    conditional_blocks(after.ops, at, value->Ok_0, value_ty, ty, first, second);
    conditional_head_runs(after.ops, at, value->Ok_0, value_ty, ty, first, second, m);
    let begin = Running { m, at: tested.ops.len() };
    let last = after_steps(begin, after.ops, 8);
    if m.values[value->Ok_0] != 0 {
        assert(leads(
            after.ops,
            begin,
            8,
            last,
            no_opened.ops.len(),
            no.ops.len() + 1,
        ));
    } else {
        assert(leads(
            after.ops,
            begin,
            8,
            last,
            yes_opened.ops.len(),
            yes.ops.len() + 1,
        ));
    }
    reveal_with_fuel(after_steps, 2);
    let first_end = Running { m: n, at: yes.ops.len() };
    let second_end = Running { m: n, at: no.ops.len() };
    let after_first = moved_on(first_end, after.ops);
    let after_second = moved_on(second_end, after.ops);
    assert(leads(
        after.ops,
        first_end,
        1,
        after_first,
        no_opened.ops.len(),
        no.ops.len() + 1,
    ));
    assert(leads(
        after.ops,
        second_end,
        1,
        after_second,
        yes_opened.ops.len(),
        yes.ops.len() + 1,
    ));
}

} // verus!
