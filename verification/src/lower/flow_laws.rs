//! Where control goes when the steps of statements run.

use crate::hir::Stmt;
use crate::ir::{IntCC, IrType, Op};
use crate::lower::block_laws::{
    expressions_leave_untouched, loops_leave_untouched, statements_leave_untouched,
};
use crate::lower::branch_laws::block_starts_at;
use crate::lower::expr_laws::expression_is_lowered_soundly;
use crate::lower::expr_model::{condition_spec, expr_spec};
use crate::lower::laws::{
    ending_leaves_untouched, entries_leave_untouched, extends, reaching_leaves_untouched,
    state_sound, steps_leave_untouched, targets_avoid, targets_made, untouched,
};
use crate::lower::machine::{
    after_steps, block_start, comes_to, moved_on, same_but_values, Machine, Running,
};
use crate::lower::state::{did, emitted, entered_sealed, type_of_value, Lowering};
use crate::lower::stmt_laws::{
    condition_follows, expression_follows, for_from_head, for_head_is_sound, for_opened,
    for_opening_is_sound, for_rest, for_rest_is_sound, if_rest, if_rest_is_sound,
    loop_body_is_sound, looped, statement_is_lowered_soundly,
};
use crate::lower::stmt_model::{
    fallen, for_head_spec, for_spec, if_spec, loop_closed, loop_opened, reachable, stmt_spec,
};
use vstd::prelude::*;

verus! {

broadcast use {
    steps_leave_untouched,
    entries_leave_untouched,
    reaching_leaves_untouched,
    ending_leaves_untouched,
};

/// A block that was just made is untouched.
pub proof fn a_new_block_is_untouched(s: Lowering, t: Lowering, block: usize)
    requires
        state_sound(s),
        extends(s.ops, t.ops),
        t.ops.len() <= usize::MAX,
        s.ops.len() <= block < t.ops.len(),
        forall|i: int| s.ops.len() <= i < t.ops.len() ==> #[trigger] t.ops[i] == Op::CreateBlock,
        t.block == s.block,
        t.labels == s.labels,
        t.switch_cases == s.switch_cases,
    ensures
        untouched(block, t),
{
    reveal(untouched);
    reveal(state_sound);
    assert forall|i: int| 0 <= i < t.ops.len() implies #[trigger] t.ops[i] != (Op::SwitchToBlock {
        block,
    }) by {
        if i < s.ops.len() {
            assert(t.ops[i] == s.ops[i]);
        }
    }
    assert forall|i: int| 0 <= i < t.switch_cases.len() implies targets_avoid(
        #[trigger] t.switch_cases[i],
        block,
    ) by {
        assert(targets_made(s, s.switch_cases[i]));
    }
}

/// A block that lowering goes on in for the first time starts there.
pub proof fn an_untouched_block_starts_here(block: usize, t: Lowering, ops: Seq<Op>)
    requires
        untouched(block, t),
        extends(t.ops, ops),
        t.ops.len() < ops.len(),
        ops[t.ops.len() as int] == (Op::SwitchToBlock { block }),
    ensures
        block_start(ops, block, 0) == t.ops.len() + 1,
{
    reveal(untouched);
    assert forall|i: int| 0 <= i < t.ops.len() implies #[trigger] ops[i] != (Op::SwitchToBlock {
        block,
    }) by {
        assert(ops[i] == t.ops[i]);
    }
    block_starts_at(ops, block, t.ops.len(), 0);
}

/// The test of a value, run.
proof fn a_test_runs(ops: Seq<Op>, at: nat, value: usize, ty: IrType, m: Machine)
    requires
        at + 2 <= ops.len() <= usize::MAX,
        value < at,
        ops[at as int] == (Op::Iconst { ty, value: 0 }),
        ops[at as int + 1] == (Op::CompareInt {
            condition: IntCC::NotEqual,
            left: value,
            right: at as usize,
        }),
    ensures
        ({
            let tested = after_steps(Running { m, at }, ops, 2);
            &&& tested.at == at + 2
            &&& same_but_values(m, tested.m, at)
            &&& tested.m.values[(at + 1) as usize] == if m.values[value] != 0 {
                1nat
            } else {
                0nat
            }
        }),
{
    reveal_with_fuel(after_steps, 3);
    let r1 = moved_on(Running { m, at }, ops);
    assert(r1.m.values[at as usize] == 0);
}

/// More steps after some steps.
pub proof fn steps_add_up(r: Running, ops: Seq<Op>, first: nat, second: nat)
    ensures
        after_steps(r, ops, first + second) == after_steps(
            after_steps(r, ops, first),
            ops,
            second,
        ),
    decreases first,
{
    if first > 0 {
        steps_add_up(moved_on(r, ops), ops, (first - 1) as nat, second);
    }
}

/// Whether a step changes nothing when it runs and leads to the one after it.
pub open spec fn idle(op: Op) -> bool {
    op is CreateBlock || op is SealBlock || op is SwitchToBlock
}

/// A jump to a block comes to its first step, and past a step that seals it.
pub proof fn a_jump_arrives(ops: Seq<Op>, at: nat, block: usize, m: Machine)
    requires
        at < ops.len(),
        ops[at as int] == (Op::Jump { block }),
    ensures
        comes_to(ops, Running { m, at }, block_start(ops, block, 0)),
        block_start(ops, block, 0) < ops.len() && ops[block_start(ops, block, 0) as int] is SealBlock
            ==> comes_to(ops, Running { m, at }, block_start(ops, block, 0) + 1),
{
    let begin = Running { m, at };
    reveal(comes_to);
    reveal_with_fuel(after_steps, 3);
    assert(after_steps(begin, ops, 1).at == block_start(ops, block, 0));
    assert(after_steps(begin, ops, 2) == moved_on(moved_on(begin, ops), ops));
    assert(same_but_values(m, after_steps(begin, ops, 1).m, at));
    if ops[block_start(ops, block, 0) as int] is SealBlock {
        assert(same_but_values(m, after_steps(begin, ops, 2).m, at));
        assert(after_steps(begin, ops, 2).at == block_start(ops, block, 0) + 1);
    }
}

/// Steps that change nothing, run.
pub proof fn idle_steps_run(ops: Seq<Op>, at: nat, count: nat, m: Machine)
    requires
        at + count <= ops.len(),
        forall|i: int| at <= i < at + count ==> idle(#[trigger] ops[i]),
    ensures
        after_steps(Running { m, at }, ops, count) == (Running { m, at: at + count }),
    decreases count,
{
    if count > 0 {
        assert(idle(ops[at as int]));
        idle_steps_run(ops, at + 1, (count - 1) as nat, m);
    }
}

/// A test and a branch on it, with steps between them that change nothing,
/// run: to the one block where the value is other than nought, else to the
/// other one, and past a step that seals it.
pub proof fn a_tested_branch_arrives(
    ops: Seq<Op>,
    at: nat,
    value: usize,
    ty: IrType,
    gap: nat,
    yes: usize,
    no: usize,
    m: Machine,
)
    requires
        at + gap + 3 <= ops.len() <= usize::MAX,
        value < at,
        ops[at as int] == (Op::Iconst { ty, value: 0 }),
        ops[at as int + 1] == (Op::CompareInt {
            condition: IntCC::NotEqual,
            left: value,
            right: at as usize,
        }),
        forall|i: int| at + 2 <= i < at + 2 + gap ==> idle(#[trigger] ops[i]),
        ops[at + 2 + gap as int] == (Op::Branch { condition: (at + 1) as usize, yes, no }),
    ensures
        ({
            let block = if m.values[value] != 0 {
                yes
            } else {
                no
            };
            let start = block_start(ops, block, 0);
            &&& comes_to(ops, Running { m, at }, start)
            &&& start < ops.len() && ops[start as int] is SealBlock ==> comes_to(
                ops,
                Running { m, at },
                start + 1,
            )
        }),
{
    let begin = Running { m, at };
    reveal(comes_to);
    a_test_runs(ops, at, value, ty, m);
    let tested = after_steps(begin, ops, 2);
    idle_steps_run(ops, at + 2, gap, tested.m);
    steps_add_up(begin, ops, 2, gap);
    let ready = after_steps(begin, ops, 2 + gap);
    steps_add_up(begin, ops, 2 + gap, 1);
    steps_add_up(begin, ops, 2 + gap, 2);
    reveal_with_fuel(after_steps, 3);
    let r3 = moved_on(ready, ops);
    let r4 = moved_on(r3, ops);
    assert(after_steps(begin, ops, 2 + gap + 1) == r3);
    assert(after_steps(begin, ops, 2 + gap + 2) == r4);
    assert(same_but_values(m, after_steps(begin, ops, 2 + gap + 1).m, at));
    if ops[r3.at as int] is SealBlock {
        assert(same_but_values(m, after_steps(begin, ops, 2 + gap + 2).m, at));
    }
}

/// Steps that change nothing and a jump to a block, run.
pub proof fn an_idle_jump_arrives(ops: Seq<Op>, at: nat, gap: nat, block: usize, m: Machine)
    requires
        at + gap < ops.len(),
        forall|i: int| at <= i < at + gap ==> idle(#[trigger] ops[i]),
        ops[at + gap as int] == (Op::Jump { block }),
    ensures
        comes_to(ops, Running { m, at }, block_start(ops, block, 0)),
{
    let begin = Running { m, at };
    reveal(comes_to);
    idle_steps_run(ops, at, gap, m);
    steps_add_up(begin, ops, gap, 1);
    reveal_with_fuel(after_steps, 2);
    assert(same_but_values(m, after_steps(begin, ops, gap + 1).m, at));
}

/// The state at the head of a `for` loop: its start is lowered, and its blocks
/// are made.
#[verifier::opaque]
pub open spec fn for_head(s: Lowering, statement: Stmt) -> Lowering {
    for_opened(stmt_spec(s, *statement.data->For_0).0).0
}

/// The state in which the body of a `for` loop is lowered.
#[verifier::opaque]
pub open spec fn for_body(s: Lowering, statement: Stmt) -> Lowering {
    let (head, _, body_block, step_block, exit) = for_opened(stmt_spec(s, *statement.data->For_0).0);
    let after_head = for_head_spec(head, statement.data->For_1, body_block, exit).0;
    loop_opened(entered_sealed(after_head, body_block), step_block, exit)
}

/// The state after the body of a `for` loop.
#[verifier::opaque]
pub open spec fn for_body_end(s: Lowering, statement: Stmt) -> Lowering {
    stmt_spec(for_body(s, statement), *statement.data->For_3).0
}

/// The state in which the step of a `for` loop is lowered.
#[verifier::opaque]
pub open spec fn for_step(s: Lowering, statement: Stmt) -> Lowering {
    let (_, _, _, step_block, _) = for_opened(stmt_spec(s, *statement.data->For_0).0);
    reachable(
        entered_sealed(fallen(loop_closed(for_body_end(s, statement)), step_block), step_block),
    )
}

/// The state after the step of a `for` loop.
#[verifier::opaque]
pub open spec fn for_step_end(s: Lowering, statement: Stmt) -> Lowering {
    match statement.data->For_2 {
        Some(step) => expr_spec(for_step(s, statement), *step).0,
        None => for_step(s, statement),
    }
}

/// Whether the steps of a `for` loop and its blocks are where they belong.
spec fn for_is_laid_out(s: Lowering, statement: Stmt, start: nat, ops: Seq<Op>) -> bool {
    let header = start as usize;
    let body_block = (start + 1) as usize;
    let step_block = (start + 2) as usize;
    let exit = (start + 3) as usize;
    let body_end = for_body_end(s, statement);
    let step = for_step(s, statement).ops.len();
    let step_end = for_step_end(s, statement).ops.len();
    &&& ops.len() == step_end + 4
    &&& step <= step_end
    &&& ops[start as int + 4] == (Op::Jump { block: header })
    &&& for_head(s, statement).ops.len() == start + 6
    &&& for_body(s, statement).loop_targets.last() == (step_block, exit)
    &&& for_body(s, statement).break_targets.last() == exit
    &&& block_start(ops, header, 0) == start + 6
    &&& block_start(ops, body_block, 0) + 1 == for_body(s, statement).ops.len()
    &&& ops[for_body(s, statement).ops.len() - 1] is SealBlock
    &&& body_end.ops.len() < ops.len()
    &&& !body_end.terminated ==> ops[body_end.ops.len() as int] == (Op::Jump {
        block: step_block,
    })
    &&& block_start(ops, step_block, 0) + 1 == step
    &&& ops[step - 1] is SealBlock
    &&& ops[step_end as int] == (Op::Jump { block: header })
    &&& block_start(ops, exit, 0) + 1 == ops.len()
    &&& ops[ops.len() - 1] is SealBlock
    &&& extends(for_body(s, statement).ops, ops)
}

proof fn a_for_loop_is_laid_out(s: Lowering, statement: Stmt)
    requires
        state_sound(s),
        statement.data is For,
        for_spec(s, statement).1 is Ok,
        for_spec(s, statement).0.ops.len() <= usize::MAX,
        !stmt_spec(s, *statement.data->For_0).0.terminated,
    ensures
        for_is_laid_out(
            s,
            statement,
            stmt_spec(s, *statement.data->For_0).0.ops.len(),
            for_spec(s, statement).0.ops,
        ),
{
    reveal(for_head);
    reveal(for_body);
    reveal(for_body_end);
    reveal(for_step);
    reveal(for_step_end);
    let init = *statement.data->For_0;
    let condition = statement.data->For_1;
    let body = *statement.data->For_3;
    let step = statement.data->For_2;
    let after = for_spec(s, statement).0;
    let s1 = stmt_spec(s, init).0;
    statement_is_lowered_soundly(s, init);
    let (s2, header, body_block, step_block, exit) = for_opened(s1);
    for_opening_is_sound(s1);
    assert(for_spec(s, statement) == for_from_head(
        s2,
        statement,
        header,
        body_block,
        step_block,
        exit,
    ));
    let s3 = for_head_spec(s2, condition, body_block, exit).0;
    for_head_is_sound(s2, condition, body_block, exit);
    let s4 = entered_sealed(s3, body_block);
    let opened = loop_opened(s4, step_block, exit);
    let ended = stmt_spec(opened, body).0;
    statement_is_lowered_soundly(opened, body);
    loop_body_is_sound(s4, body, step_block, exit);
    let s5 = fallen(loop_closed(ended), step_block);
    assert(looped(s4, body, step_block, exit).0 == s5);
    for_rest_is_sound(s5, step, header, step_block, exit);
    let s6 = reachable(entered_sealed(s5, step_block));
    let s7 = for_step_end(s, statement);
    if let Some(step) = step {
        expression_follows(s6, *step);
    }
    assert(after == for_rest(s5, step, header, step_block, exit).0);
    assert(after.ops.len() == s7.ops.len() + 4);
    assert(extends(s7.ops, after.ops));
    assert(extends(s6.ops, s7.ops));
    assert(extends(s6.ops, after.ops));
    assert(extends(s5.ops, after.ops));
    assert(extends(ended.ops, after.ops));
    assert(extends(opened.ops, after.ops));
    assert(extends(s3.ops, after.ops));
    assert(extends(s2.ops, after.ops));
    assert(state_sound(s1));
    for_blocks_start(s, statement);
}

/// Where the blocks of a `for` loop start.
proof fn for_blocks_start(s: Lowering, statement: Stmt)
    requires
        state_sound(s),
        statement.data is For,
        for_spec(s, statement).1 is Ok,
        for_spec(s, statement).0.ops.len() <= usize::MAX,
        !stmt_spec(s, *statement.data->For_0).0.terminated,
    ensures
        ({
            let start = stmt_spec(s, *statement.data->For_0).0.ops.len();
            let ops = for_spec(s, statement).0.ops;
            &&& block_start(ops, start as usize, 0) == start + 6
            &&& block_start(ops, (start + 1) as usize, 0) + 1 == for_body(s, statement).ops.len()
            &&& block_start(ops, (start + 2) as usize, 0) + 1 == for_step(s, statement).ops.len()
            &&& block_start(ops, (start + 3) as usize, 0) + 1 == ops.len()
        }),
{
    reveal(for_head);
    reveal(for_body);
    reveal(for_body_end);
    reveal(for_step);
    reveal(for_step_end);
    let init = *statement.data->For_0;
    let condition = statement.data->For_1;
    let body = *statement.data->For_3;
    let step = statement.data->For_2;
    let after = for_spec(s, statement).0;
    let s1 = stmt_spec(s, init).0;
    statement_is_lowered_soundly(s, init);
    let (s2, header, body_block, step_block, exit) = for_opened(s1);
    for_opening_is_sound(s1);
    assert(for_spec(s, statement) == for_from_head(
        s2,
        statement,
        header,
        body_block,
        step_block,
        exit,
    ));
    let (t1, _) = emitted(s1, Op::CreateBlock);
    let (t2, _) = emitted(t1, Op::CreateBlock);
    let (t3, _) = emitted(t2, Op::CreateBlock);
    let (t4, _) = emitted(t3, Op::CreateBlock);
    let s3 = for_head_spec(s2, condition, body_block, exit).0;
    for_head_is_sound(s2, condition, body_block, exit);
    let s4 = entered_sealed(s3, body_block);
    loop_body_is_sound(s4, body, step_block, exit);
    let s5 = looped(s4, body, step_block, exit).0;
    for_rest_is_sound(s5, step, header, step_block, exit);
    let s6 = reachable(entered_sealed(s5, step_block));
    let s7 = for_step_end(s, statement);
    if let Some(step) = step {
        expression_follows(s6, *step);
    }
    let t5 = did(t4, Op::Jump { block: header });
    let t7 = did(did(s7, Op::Jump { block: header }), Op::SealBlock { block: header });
    assert(after.ops == entered_sealed(t7, exit).ops);
    assert(extends(t7.ops, after.ops));
    assert(extends(s7.ops, after.ops));
    assert(extends(s6.ops, after.ops));
    assert(extends(s5.ops, after.ops));
    assert(extends(s4.ops, after.ops));
    assert(extends(s3.ops, after.ops));
    assert(extends(t5.ops, after.ops));
    a_new_block_is_untouched(s1, t4, header);
    a_new_block_is_untouched(s1, t4, body_block);
    a_new_block_is_untouched(s1, t4, step_block);
    a_new_block_is_untouched(s1, t4, exit);
    an_untouched_block_starts_here(header, t5, after.ops);
    if let Some(condition) = condition {
        expressions_leave_untouched(body_block, s2, *condition);
        expressions_leave_untouched(step_block, s2, *condition);
        expressions_leave_untouched(exit, s2, *condition);
    }
    assert(untouched(body_block, s2));
    assert(untouched(body_block, s3));
    an_untouched_block_starts_here(body_block, s3, after.ops);
    loops_leave_untouched(step_block, s4, body, step_block, exit);
    loops_leave_untouched(exit, s4, body, step_block, exit);
    assert(untouched(step_block, s3));
    assert(untouched(step_block, s5));
    an_untouched_block_starts_here(step_block, s5, after.ops);
    assert(untouched(exit, s3));
    assert(untouched(exit, s5));
    if let Some(step) = step {
        expressions_leave_untouched(exit, s6, *step);
    }
    assert(untouched(exit, s7));
    an_untouched_block_starts_here(exit, t7, after.ops);
}

/// A `for` loop runs as C asks.
///
/// The start leads to the head. At the head of a loop without a condition, the
/// machine comes to the first step of the body; with a condition, `m` being the
/// machine after its steps, it comes there where the condition is other than
/// nought, and else to the first step after the loop. After the body it comes
/// to the step, and after the step to the head again. Inside the body,
/// `continue` leads to the step and `break` to the first step after the loop.
pub proof fn a_for_loop_runs(s: Lowering, statement: Stmt, m: Machine, jump: nat)
    requires
        state_sound(s),
        statement.data is For,
        for_spec(s, statement).1 is Ok,
        for_spec(s, statement).0.ops.len() <= usize::MAX,
        !stmt_spec(s, *statement.data->For_0).0.terminated,
        jump < for_spec(s, statement).0.ops.len(),
    ensures
        ({
            let ops = for_spec(s, statement).0.ops;
            let start = stmt_spec(s, *statement.data->For_0).0.ops.len();
            let head = for_head(s, statement);
            let body = for_body(s, statement);
            let body_end = for_body_end(s, statement);
            let step = for_step(s, statement);
            let step_end = for_step_end(s, statement);
            &&& comes_to(ops, Running { m, at: start }, head.ops.len())
            &&& match statement.data->For_1 {
                None => comes_to(ops, Running { m, at: head.ops.len() }, body.ops.len()),
                Some(condition) => {
                    let (tested, value) = expr_spec(head, *condition);
                    comes_to(
                        ops,
                        Running { m, at: tested.ops.len() },
                        if m.values[value->Ok_0] != 0 {
                            body.ops.len()
                        } else {
                            ops.len()
                        },
                    )
                },
            }
            &&& !body_end.terminated ==> comes_to(
                ops,
                Running { m, at: body_end.ops.len() },
                step.ops.len(),
            )
            &&& comes_to(ops, Running { m, at: step_end.ops.len() }, head.ops.len())
            &&& ops[jump as int] == (Op::Jump { block: body.loop_targets.last().0 }) ==> comes_to(
                ops,
                Running { m, at: jump },
                step.ops.len(),
            )
            &&& ops[jump as int] == (Op::Jump { block: body.break_targets.last() }) ==> comes_to(
                ops,
                Running { m, at: jump },
                ops.len(),
            )
        }),
{
    a_for_loop_is_laid_out(s, statement);
    for_start_runs(s, statement, m);
    for_head_runs(s, statement, m);
    let start = stmt_spec(s, *statement.data->For_0).0.ops.len();
    for_turns(s, statement, start, for_spec(s, statement).0.ops, m, jump);
}

proof fn for_turns(
    s: Lowering,
    statement: Stmt,
    start: nat,
    ops: Seq<Op>,
    m: Machine,
    jump: nat,
)
    requires
        for_is_laid_out(s, statement, start, ops),
        jump < ops.len(),
    ensures
        ({
            let head = for_head(s, statement);
            let body = for_body(s, statement);
            let body_end = for_body_end(s, statement);
            let step = for_step(s, statement);
            let step_end = for_step_end(s, statement);
            &&& !body_end.terminated ==> comes_to(
                ops,
                Running { m, at: body_end.ops.len() },
                step.ops.len(),
            )
            &&& comes_to(ops, Running { m, at: step_end.ops.len() }, head.ops.len())
            &&& ops[jump as int] == (Op::Jump { block: body.loop_targets.last().0 }) ==> comes_to(
                ops,
                Running { m, at: jump },
                step.ops.len(),
            )
            &&& ops[jump as int] == (Op::Jump { block: body.break_targets.last() }) ==> comes_to(
                ops,
                Running { m, at: jump },
                ops.len(),
            )
        }),
{
    jumps_of_a_loop_arrive(
        ops,
        for_body_end(s, statement).ops.len(),
        for_body_end(s, statement).terminated,
        for_step_end(s, statement).ops.len(),
        jump,
        (start + 2) as usize,
        start as usize,
        (start + 3) as usize,
        m,
    );
}

/// The jumps of a loop: after its body to `next`, after its step to the head,
/// and wherever the body goes on to the next round or leaves.
proof fn jumps_of_a_loop_arrive(
    ops: Seq<Op>,
    body_end: nat,
    body_ended: bool,
    step_end: nat,
    jump: nat,
    next: usize,
    header: usize,
    exit: usize,
    m: Machine,
)
    requires
        body_end < ops.len(),
        step_end < ops.len(),
        jump < ops.len(),
        !body_ended ==> ops[body_end as int] == (Op::Jump { block: next }),
        ops[step_end as int] == (Op::Jump { block: header }),
        block_start(ops, next, 0) < ops.len(),
        ops[block_start(ops, next, 0) as int] is SealBlock,
        block_start(ops, exit, 0) < ops.len(),
        ops[block_start(ops, exit, 0) as int] is SealBlock,
    ensures
        !body_ended ==> comes_to(
            ops,
            Running { m, at: body_end },
            block_start(ops, next, 0) + 1,
        ),
        comes_to(ops, Running { m, at: step_end }, block_start(ops, header, 0)),
        ops[jump as int] == (Op::Jump { block: next }) ==> comes_to(
            ops,
            Running { m, at: jump },
            block_start(ops, next, 0) + 1,
        ),
        ops[jump as int] == (Op::Jump { block: exit }) ==> comes_to(
            ops,
            Running { m, at: jump },
            block_start(ops, exit, 0) + 1,
        ),
{
    if !body_ended {
        a_jump_arrives(ops, body_end, next, m);
    }
    a_jump_arrives(ops, step_end, header, m);
    if ops[jump as int] == (Op::Jump { block: next }) {
        a_jump_arrives(ops, jump, next, m);
    }
    if ops[jump as int] == (Op::Jump { block: exit }) {
        a_jump_arrives(ops, jump, exit, m);
    }
}

proof fn for_start_runs(s: Lowering, statement: Stmt, m: Machine)
    requires
        state_sound(s),
        statement.data is For,
        for_spec(s, statement).1 is Ok,
        for_spec(s, statement).0.ops.len() <= usize::MAX,
        !stmt_spec(s, *statement.data->For_0).0.terminated,
        for_is_laid_out(
            s,
            statement,
            stmt_spec(s, *statement.data->For_0).0.ops.len(),
            for_spec(s, statement).0.ops,
        ),
    ensures
        comes_to(
            for_spec(s, statement).0.ops,
            Running { m, at: stmt_spec(s, *statement.data->For_0).0.ops.len() },
            for_head(s, statement).ops.len(),
        ),
{
    reveal(for_head);
    reveal(for_body);
    reveal(for_body_end);
    reveal(for_step);
    reveal(for_step_end);
    let ops = for_spec(s, statement).0.ops;
    let start = stmt_spec(s, *statement.data->For_0).0.ops.len();
    let (s2, _, body_block, _, exit) = for_opened(stmt_spec(s, *statement.data->For_0).0);
    for_head_is_sound(s2, statement.data->For_1, body_block, exit);
    let opened = for_body(s, statement);
    assert forall|i: int| start <= i < start + 4 implies ops[i] == Op::CreateBlock by {
        assert(s2.ops[i] == Op::CreateBlock);
        assert(opened.ops[i] == s2.ops[i]);
    }
    an_idle_jump_arrives(ops, start, 4, start as usize, m);
}

proof fn for_head_runs(s: Lowering, statement: Stmt, m: Machine)
    requires
        state_sound(s),
        statement.data is For,
        for_spec(s, statement).1 is Ok,
        for_spec(s, statement).0.ops.len() <= usize::MAX,
        !stmt_spec(s, *statement.data->For_0).0.terminated,
        for_is_laid_out(
            s,
            statement,
            stmt_spec(s, *statement.data->For_0).0.ops.len(),
            for_spec(s, statement).0.ops,
        ),
    ensures
        ({
            let ops = for_spec(s, statement).0.ops;
            let head = for_head(s, statement);
            let body = for_body(s, statement);
            match statement.data->For_1 {
                None => comes_to(ops, Running { m, at: head.ops.len() }, body.ops.len()),
                Some(condition) => {
                    let (tested, value) = expr_spec(head, *condition);
                    comes_to(
                        ops,
                        Running { m, at: tested.ops.len() },
                        if m.values[value->Ok_0] != 0 {
                            body.ops.len()
                        } else {
                            ops.len()
                        },
                    )
                },
            }
        }),
{
    reveal(for_head);
    reveal(for_body);
    reveal(for_body_end);
    reveal(for_step);
    reveal(for_step_end);
    let ops = for_spec(s, statement).0.ops;
    let init = *statement.data->For_0;
    let (head, header, body_block, step_block, exit) = for_opened(stmt_spec(s, init).0);
    statement_is_lowered_soundly(s, init);
    for_opening_is_sound(stmt_spec(s, init).0);
    let s3 = for_head_spec(head, statement.data->For_1, body_block, exit).0;
    let body = for_body(s, statement);
    assert(extends(s3.ops, body.ops));
    match statement.data->For_1 {
        None => {
            let at = head.ops.len();
            assert(s3.ops[at as int] == (Op::Jump { block: body_block }));
            assert(body.ops[at as int] == s3.ops[at as int]);
            a_jump_arrives(ops, at, body_block, m);
        },
        Some(condition) => {
            let (tested, value) = expr_spec(head, *condition);
            expression_is_lowered_soundly(head, *condition);
            let at = tested.ops.len();
            assert(s3.ops.len() == at + 3);
            assert(body.ops[at as int] == s3.ops[at as int]);
            assert(body.ops[at as int + 1] == s3.ops[at as int + 1]);
            assert(body.ops[at as int + 2] == s3.ops[at as int + 2]);
            a_tested_branch_arrives(
                ops,
                at,
                value->Ok_0,
                type_of_value(tested, value->Ok_0),
                0,
                body_block,
                exit,
                m,
            );
        },
    }
}

/// The state in which the first branch of an `if` is lowered.
#[verifier::opaque]
pub open spec fn if_yes(s: Lowering, statement: Stmt) -> Lowering {
    let (s1, condition) = condition_spec(s, *statement.data->If_0);
    let (s2, yes_block) = emitted(s1, Op::CreateBlock);
    let (s3, no_block) = emitted(s2, Op::CreateBlock);
    let (s4, merge_block) = emitted(s3, Op::CreateBlock);
    let s5 = did(s4, Op::Branch { condition: condition->Ok_0, yes: yes_block, no: no_block });
    reachable(entered_sealed(s5, yes_block))
}

/// The state after the first branch of an `if`.
#[verifier::opaque]
pub open spec fn if_yes_end(s: Lowering, statement: Stmt) -> Lowering {
    stmt_spec(if_yes(s, statement), *statement.data->If_1).0
}

/// The state in which the second branch of an `if` is lowered.
#[verifier::opaque]
pub open spec fn if_no(s: Lowering, statement: Stmt) -> Lowering {
    let at = condition_spec(s, *statement.data->If_0).0.ops.len();
    let merge_block = (at + 2) as usize;
    let no_block = (at + 1) as usize;
    reachable(entered_sealed(fallen(if_yes_end(s, statement), merge_block), no_block))
}

/// The state after the second branch of an `if`.
#[verifier::opaque]
pub open spec fn if_no_end(s: Lowering, statement: Stmt) -> Lowering {
    match statement.data->If_2 {
        Some(no) => stmt_spec(if_no(s, statement), *no).0,
        None => if_no(s, statement),
    }
}

/// Whether the steps of an `if` and its blocks are where they belong; `tested`
/// is the number of steps up to its test.
spec fn if_is_laid_out(s: Lowering, statement: Stmt, tested: nat, ops: Seq<Op>) -> bool {
    let yes_block = (tested + 2) as usize;
    let no_block = (tested + 3) as usize;
    let merge_block = (tested + 4) as usize;
    let yes = if_yes(s, statement).ops.len();
    let yes_end = if_yes_end(s, statement);
    let no = if_no(s, statement).ops.len();
    let no_end = if_no_end(s, statement);
    let met = !(yes_end.terminated && no_end.terminated);
    &&& yes == tested + 8
    &&& yes <= yes_end.ops.len() < no <= no_end.ops.len() <= ops.len() <= usize::MAX
    &&& ops[tested as int + 2] == Op::CreateBlock
    &&& ops[tested as int + 3] == Op::CreateBlock
    &&& ops[tested as int + 4] == Op::CreateBlock
    &&& ops[tested as int + 5] == (Op::Branch {
        condition: (tested + 1) as usize,
        yes: yes_block,
        no: no_block,
    })
    &&& block_start(ops, yes_block, 0) + 1 == yes
    &&& ops[yes - 1] is SealBlock
    &&& block_start(ops, no_block, 0) + 1 == no
    &&& ops[no - 1] is SealBlock
    &&& met ==> block_start(ops, merge_block, 0) + 1 == ops.len() && ops[ops.len() - 1] is SealBlock
    &&& !yes_end.terminated ==> ops[yes_end.ops.len() as int] == (Op::Jump { block: merge_block })
    &&& !no_end.terminated ==> no_end.ops.len() < ops.len() && ops[no_end.ops.len() as int] == (
    Op::Jump { block: merge_block })
}

/// The states of an `if` follow each other.
#[verifier::rlimit(60)]
proof fn if_states_follow(s: Lowering, statement: Stmt)
    requires
        state_sound(s),
        statement.data is If,
        if_spec(s, statement).1 is Ok,
        if_spec(s, statement).0.ops.len() <= usize::MAX,
    ensures
        ({
            let ops = if_spec(s, statement).0.ops;
            let merge_block = (condition_spec(s, *statement.data->If_0).0.ops.len() + 2) as usize;
            let yes_end = if_yes_end(s, statement);
            let no_end = if_no_end(s, statement);
            &&& extends(if_yes(s, statement).ops, yes_end.ops)
            &&& extends(yes_end.ops, if_no(s, statement).ops)
            &&& extends(if_no(s, statement).ops, no_end.ops)
            &&& extends(no_end.ops, ops)
            &&& yes_end.ops.len() + 2 <= if_no(s, statement).ops.len()
            &&& if_no(s, statement).ops.last() is SealBlock
            &&& !yes_end.terminated ==> if_no(s, statement).ops[yes_end.ops.len() as int] == (
            Op::Jump { block: merge_block })
            &&& !no_end.terminated ==> no_end.ops.len() < ops.len() && ops[no_end.ops.len() as int]
                == (Op::Jump { block: merge_block })
            &&& !(yes_end.terminated && no_end.terminated) ==> ops.last() is SealBlock
        }),
{
    reveal(if_yes);
    reveal(if_yes_end);
    reveal(if_no);
    reveal(if_no_end);
    let yes = *statement.data->If_1;
    let no = statement.data->If_2;
    let (s1, condition) = condition_spec(s, *statement.data->If_0);
    let (s2, yes_block) = emitted(s1, Op::CreateBlock);
    let (s3, no_block) = emitted(s2, Op::CreateBlock);
    let (s4, merge_block) = emitted(s3, Op::CreateBlock);
    let s6 = if_yes(s, statement);
    let s7 = stmt_spec(s6, yes).0;
    statement_is_lowered_soundly(s6, yes);
    if_rest_is_sound(s7, statement, no_block, merge_block);
    assert(if_spec(s, statement) == if_rest(s7, no, no_block, merge_block));
    let s9 = if_no(s, statement);
    if let Some(no) = no {
        statement_is_lowered_soundly(s9, *no);
    }
}

proof fn an_if_is_laid_out(s: Lowering, statement: Stmt)
    requires
        state_sound(s),
        statement.data is If,
        if_spec(s, statement).1 is Ok,
        if_spec(s, statement).0.ops.len() <= usize::MAX,
    ensures
        if_is_laid_out(
            s,
            statement,
            expr_spec(s, *statement.data->If_0).0.ops.len(),
            if_spec(s, statement).0.ops,
        ),
        extends(if_yes(s, statement).ops, if_spec(s, statement).0.ops),
{
    if_states_follow(s, statement);
    if_blocks_start(s, statement);
    if_head_stands(s, statement);
    let ops = if_spec(s, statement).0.ops;
    let yes = if_yes(s, statement).ops;
    let yes_end = if_yes_end(s, statement).ops;
    let no = if_no(s, statement).ops;
    let no_end = if_no_end(s, statement).ops;
    assert(extends(no, ops));
    assert(extends(yes_end, ops)) by {
        assert forall|i: int| 0 <= i < yes_end.len() implies #[trigger] ops[i] == yes_end[i] by {
            assert(no[i] == yes_end[i]);
        }
    }
    assert(extends(yes, ops)) by {
        assert forall|i: int| 0 <= i < yes.len() implies #[trigger] ops[i] == yes[i] by {
            assert(yes_end[i] == yes[i]);
        }
    }
    let tested = expr_spec(s, *statement.data->If_0).0.ops.len() as int;
    assert(ops[tested + 2] == yes[tested + 2]);
    assert(ops[tested + 3] == yes[tested + 3]);
    assert(ops[tested + 4] == yes[tested + 4]);
    assert(ops[tested + 5] == yes[tested + 5]);
    assert(ops[yes.len() - 1] == yes[yes.len() - 1]);
    assert(ops[no.len() - 1] == no[no.len() - 1]);
    if !if_yes_end(s, statement).terminated {
        assert(ops[yes_end.len() as int] == no[yes_end.len() as int]);
    }
}

proof fn if_head_stands(s: Lowering, statement: Stmt)
    requires
        statement.data is If,
        if_spec(s, statement).1 is Ok,
        if_yes(s, statement).ops.len() <= usize::MAX,
    ensures
        ({
            let tested = expr_spec(s, *statement.data->If_0).0.ops.len() as int;
            let yes = if_yes(s, statement).ops;
            &&& condition_spec(s, *statement.data->If_0).0.ops.len() == tested + 2
            &&& yes.len() == tested + 8
            &&& yes.last() is SealBlock
            &&& yes[tested + 2] == Op::CreateBlock
            &&& yes[tested + 3] == Op::CreateBlock
            &&& yes[tested + 4] == Op::CreateBlock
            &&& yes[tested + 5] == (Op::Branch {
                condition: (tested + 1) as usize,
                yes: (tested + 2) as usize,
                no: (tested + 3) as usize,
            })
        }),
{
    reveal(if_yes);
}

/// Where the blocks of an `if` start.
#[verifier::rlimit(60)]
proof fn if_blocks_start(s: Lowering, statement: Stmt)
    requires
        state_sound(s),
        statement.data is If,
        if_spec(s, statement).1 is Ok,
        if_spec(s, statement).0.ops.len() <= usize::MAX,
    ensures
        ({
            let at = condition_spec(s, *statement.data->If_0).0.ops.len();
            let ops = if_spec(s, statement).0.ops;
            let met = !(if_yes_end(s, statement).terminated && if_no_end(s, statement).terminated);
            &&& block_start(ops, at as usize, 0) + 1 == if_yes(s, statement).ops.len()
            &&& block_start(ops, (at + 1) as usize, 0) + 1 == if_no(s, statement).ops.len()
            &&& met ==> block_start(ops, (at + 2) as usize, 0) + 1 == ops.len()
        }),
{
    reveal(if_yes);
    reveal(if_yes_end);
    reveal(if_no);
    reveal(if_no_end);
    let yes = *statement.data->If_1;
    let no = statement.data->If_2;
    let after = if_spec(s, statement).0;
    let (s1, condition) = condition_spec(s, *statement.data->If_0);
    condition_follows(s, *statement.data->If_0);
    let (s2, yes_block) = emitted(s1, Op::CreateBlock);
    let (s3, no_block) = emitted(s2, Op::CreateBlock);
    let (s4, merge_block) = emitted(s3, Op::CreateBlock);
    let s5 = did(s4, Op::Branch { condition: condition->Ok_0, yes: yes_block, no: no_block });
    let s6 = reachable(entered_sealed(s5, yes_block));
    let s7 = stmt_spec(s6, yes).0;
    statement_is_lowered_soundly(s6, yes);
    if_rest_is_sound(s7, statement, no_block, merge_block);
    assert(if_spec(s, statement) == if_rest(s7, no, no_block, merge_block));
    let s8 = fallen(s7, merge_block);
    let s9 = reachable(entered_sealed(s8, no_block));
    let s10 = if_no_end(s, statement);
    if let Some(no) = no {
        statement_is_lowered_soundly(s9, *no);
    }
    let s11 = fallen(s10, merge_block);
    assert(extends(s11.ops, after.ops));
    assert(extends(s9.ops, after.ops));
    assert(extends(s8.ops, after.ops));
    assert(extends(s6.ops, after.ops));
    a_new_block_is_untouched(s1, s4, yes_block);
    a_new_block_is_untouched(s1, s4, no_block);
    a_new_block_is_untouched(s1, s4, merge_block);
    assert(untouched(yes_block, s5));
    an_untouched_block_starts_here(yes_block, s5, after.ops);
    statements_leave_untouched(no_block, s6, yes);
    statements_leave_untouched(merge_block, s6, yes);
    assert(untouched(no_block, s6));
    assert(untouched(no_block, s8));
    an_untouched_block_starts_here(no_block, s8, after.ops);
    assert(untouched(merge_block, s6));
    assert(untouched(merge_block, s9));
    if let Some(no) = no {
        statements_leave_untouched(merge_block, s9, *no);
    }
    assert(untouched(merge_block, s11));
    if !(s7.terminated && s10.terminated) {
        an_untouched_block_starts_here(merge_block, s11, after.ops);
    }
}

/// An `if` runs as C asks.
///
/// `m` is the machine after the steps of the condition. Where the condition is
/// other than nought, it comes to the first step of the first branch, else to
/// the first step of the second one. After a branch it comes to the first step
/// after the `if`.
pub proof fn an_if_runs(s: Lowering, statement: Stmt, m: Machine)
    requires
        state_sound(s),
        statement.data is If,
        if_spec(s, statement).1 is Ok,
        if_spec(s, statement).0.ops.len() <= usize::MAX,
    ensures
        ({
            let ops = if_spec(s, statement).0.ops;
            let (tested, value) = expr_spec(s, *statement.data->If_0);
            let yes_end = if_yes_end(s, statement);
            let no_end = if_no_end(s, statement);
            &&& comes_to(
                ops,
                Running { m, at: tested.ops.len() },
                if m.values[value->Ok_0] != 0 {
                    if_yes(s, statement).ops.len()
                } else {
                    if_no(s, statement).ops.len()
                },
            )
            &&& !yes_end.terminated ==> comes_to(
                ops,
                Running { m, at: yes_end.ops.len() },
                ops.len(),
            )
            &&& !no_end.terminated ==> comes_to(
                ops,
                Running { m, at: no_end.ops.len() },
                ops.len(),
            )
        }),
{
    let ops = if_spec(s, statement).0.ops;
    let (tested, value) = expr_spec(s, *statement.data->If_0);
    let at = tested.ops.len();
    expression_is_lowered_soundly(s, *statement.data->If_0);
    an_if_is_laid_out(s, statement);
    if_test_stands(s, statement);
    a_tested_branch_arrives(
        ops,
        at,
        value->Ok_0,
        type_of_value(tested, value->Ok_0),
        3,
        (at + 2) as usize,
        (at + 3) as usize,
        m,
    );
    if_branches_meet(s, statement, at, ops, m);
}

proof fn if_test_stands(s: Lowering, statement: Stmt)
    requires
        statement.data is If,
        if_spec(s, statement).1 is Ok,
        if_spec(s, statement).0.ops.len() <= usize::MAX,
        extends(if_yes(s, statement).ops, if_spec(s, statement).0.ops),
    ensures
        ({
            let ops = if_spec(s, statement).0.ops;
            let (tested, value) = expr_spec(s, *statement.data->If_0);
            let at = tested.ops.len() as int;
            &&& at + 2 <= ops.len()
            &&& value is Ok
            &&& ops[at] == (Op::Iconst { ty: type_of_value(tested, value->Ok_0), value: 0 })
            &&& ops[at + 1] == (Op::CompareInt {
                condition: IntCC::NotEqual,
                left: value->Ok_0,
                right: at as usize,
            })
        }),
{
    reveal(if_yes);
    let (tested, value) = expr_spec(s, *statement.data->If_0);
    let at = tested.ops.len() as int;
    let yes = if_yes(s, statement);
    assert(if_spec(s, statement).0.ops[at] == yes.ops[at]);
    assert(if_spec(s, statement).0.ops[at + 1] == yes.ops[at + 1]);
}

proof fn if_branches_meet(s: Lowering, statement: Stmt, tested: nat, ops: Seq<Op>, m: Machine)
    requires
        if_is_laid_out(s, statement, tested, ops),
    ensures
        ({
            let yes_end = if_yes_end(s, statement);
            let no_end = if_no_end(s, statement);
            &&& !yes_end.terminated ==> comes_to(
                ops,
                Running { m, at: yes_end.ops.len() },
                ops.len(),
            )
            &&& !no_end.terminated ==> comes_to(
                ops,
                Running { m, at: no_end.ops.len() },
                ops.len(),
            )
        }),
{
    let merge_block = (tested + 4) as usize;
    let yes_end = if_yes_end(s, statement);
    let no_end = if_no_end(s, statement);
    if !yes_end.terminated {
        a_jump_arrives(ops, yes_end.ops.len(), merge_block, m);
    }
    if !no_end.terminated {
        a_jump_arrives(ops, no_end.ops.len(), merge_block, m);
    }
}

} // verus!
