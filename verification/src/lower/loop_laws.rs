//! Where control goes when the steps of `while` and `do` loops run.

use crate::hir::{Expr, Stmt};
use crate::ir::{IntCC, Op};
use crate::lower::block_laws::{expressions_leave_untouched, loops_leave_untouched};
use crate::lower::expr_laws::expression_is_lowered_soundly;
use crate::lower::expr_model::{condition_spec, expr_spec};
use crate::lower::flow_laws::{
    a_jump_arrives, a_new_block_is_untouched, a_tested_branch_arrives, an_idle_jump_arrives,
    an_untouched_block_starts_here, idle,
};
use crate::lower::laws::{
    block_made, ending_leaves_untouched, entries_leave_untouched, entry_is_sound, extends,
    reaching_leaves_untouched, state_sound, step_is_sound, steps_leave_untouched, untouched,
};
use crate::lower::machine::{block_start, comes_to, Machine, Running};
use crate::lower::state::{did, emitted, entered, entered_sealed, type_of_value, Lowering};
use crate::lower::stmt_laws::{
    condition_follows, do_rest, do_rest_is_sound, loop_body_is_sound, looped,
    statement_is_lowered_soundly, while_from_head, while_from_head_is_sound,
};
use crate::lower::stmt_model::{do_spec, fallen, loop_closed, loop_opened, stmt_spec, while_spec};
use vstd::prelude::*;

verus! {

broadcast use {
    steps_leave_untouched,
    entries_leave_untouched,
    reaching_leaves_untouched,
    ending_leaves_untouched,
};

/// The state in which three blocks were made and lowering went on in the first
/// of them.
#[verifier::opaque]
pub open spec fn first_of_three(s: Lowering) -> Lowering {
    let (s, first) = emitted(s, Op::CreateBlock);
    let (s, _) = emitted(s, Op::CreateBlock);
    let (s, _) = emitted(s, Op::CreateBlock);
    entered(did(s, Op::Jump { block: first }), first)
}

/// The state in which the body of a `while` loop is lowered.
#[verifier::opaque]
pub open spec fn while_body(s: Lowering, condition: Expr) -> Lowering {
    let header = s.ops.len() as usize;
    let body_block = (s.ops.len() + 1) as usize;
    let exit = (s.ops.len() + 2) as usize;
    let (tested, value) = condition_spec(first_of_three(s), condition);
    let branched = did(
        tested,
        Op::Branch { condition: value->Ok_0, yes: body_block, no: exit },
    );
    loop_opened(entered_sealed(branched, body_block), header, exit)
}

/// The state after the body of a `while` loop.
#[verifier::opaque]
pub open spec fn while_body_end(s: Lowering, condition: Expr, body: Stmt) -> Lowering {
    stmt_spec(while_body(s, condition), body).0
}

proof fn three_blocks_stand(s: Lowering)
    requires
        s.ops.len() + 5 <= usize::MAX,
    ensures
        ({
            let t = first_of_three(s);
            let n = s.ops.len() as int;
            &&& t.ops.len() == n + 5
            &&& extends(s.ops, t.ops)
            &&& t.ops[n] == Op::CreateBlock
            &&& t.ops[n + 1] == Op::CreateBlock
            &&& t.ops[n + 2] == Op::CreateBlock
            &&& t.ops[n + 3] == (Op::Jump { block: n as usize })
            &&& t.ops[n + 4] == (Op::SwitchToBlock { block: n as usize })
            &&& state_sound(s) ==> {
                &&& untouched((n + 1) as usize, t)
                &&& untouched((n + 2) as usize, t)
                &&& state_sound(t)
                &&& block_made(t, n as usize)
                &&& block_made(t, (n + 1) as usize)
                &&& block_made(t, (n + 2) as usize)
            }
        }),
{
    reveal(first_of_three);
    let (s1, first) = emitted(s, Op::CreateBlock);
    let (s2, second) = emitted(s1, Op::CreateBlock);
    let (s3, third) = emitted(s2, Op::CreateBlock);
    if state_sound(s) {
        a_new_block_is_untouched(s, s3, second);
        a_new_block_is_untouched(s, s3, third);
        step_is_sound(s, Op::CreateBlock);
        step_is_sound(s1, Op::CreateBlock);
        step_is_sound(s2, Op::CreateBlock);
        step_is_sound(s3, Op::Jump { block: first });
        entry_is_sound(did(s3, Op::Jump { block: first }), first);
    }
}

/// The first of three blocks starts where lowering goes on in it.
proof fn the_first_block_starts(s: Lowering, ops: Seq<Op>, m: Machine)
    requires
        state_sound(s),
        extends(first_of_three(s).ops, ops),
        ops.len() <= usize::MAX,
        s.ops.len() + 5 <= ops.len(),
    ensures
        block_start(ops, s.ops.len() as usize, 0) == s.ops.len() + 5,
        comes_to(ops, Running { m, at: s.ops.len() }, s.ops.len() + 5),
{
    reveal(first_of_three);
    three_blocks_stand(s);
    let (s1, first) = emitted(s, Op::CreateBlock);
    let (s2, second) = emitted(s1, Op::CreateBlock);
    let (s3, third) = emitted(s2, Op::CreateBlock);
    let s4 = did(s3, Op::Jump { block: first });
    let t = first_of_three(s);
    a_new_block_is_untouched(s, s3, first);
    assert(extends(s4.ops, ops)) by {
        assert forall|i: int| 0 <= i < s4.ops.len() implies #[trigger] ops[i] == s4.ops[i] by {
            assert(t.ops[i] == s4.ops[i]);
        }
    }
    let n = s.ops.len() as int;
    assert(ops[n] == t.ops[n]);
    assert(ops[n + 1] == t.ops[n + 1]);
    assert(ops[n + 2] == t.ops[n + 2]);
    assert(ops[n + 3] == t.ops[n + 3]);
    assert(ops[n + 4] == t.ops[n + 4]);
    an_untouched_block_starts_here(first, s4, ops);
    assert forall|i: int| n <= i < n + 3 implies idle(#[trigger] ops[i]) by {
        assert(i == n || i == n + 1 || i == n + 2);
    }
    an_idle_jump_arrives(ops, s.ops.len(), 3, first, m);
}

/// Whether the steps of a `while` loop and its blocks are where they belong.
spec fn while_is_laid_out(
    s: Lowering,
    condition: Expr,
    body: Stmt,
    tested: Lowering,
    value: usize,
    ops: Seq<Op>,
) -> bool {
    let n = s.ops.len();
    let at = tested.ops.len() as int;
    let header = n as usize;
    let body_block = (n + 1) as usize;
    let exit = (n + 2) as usize;
    let end = while_body_end(s, condition, body);
    let opened = while_body(s, condition);
    &&& ops.len() <= usize::MAX
    &&& value < at
    &&& n + 5 <= at
    &&& opened.ops.len() == at + 5
    &&& opened.ops.len() <= end.ops.len() < ops.len()
    &&& extends(opened.ops, ops)
    &&& ops[at] == (Op::Iconst { ty: type_of_value(tested, value), value: 0 })
    &&& ops[at + 1] == (Op::CompareInt {
        condition: IntCC::NotEqual,
        left: value,
        right: at as usize,
    })
    &&& ops[at + 2] == (Op::Branch { condition: (at + 1) as usize, yes: body_block, no: exit })
    &&& ops[at + 4] is SealBlock
    &&& block_start(ops, body_block, 0) == at + 4
    &&& !end.terminated ==> ops[end.ops.len() as int] == (Op::Jump { block: header })
    &&& block_start(ops, exit, 0) + 1 == ops.len()
    &&& ops.last() is SealBlock
    &&& opened.loop_targets.last().0 == header
    &&& opened.break_targets.last() == exit
}

proof fn a_while_loop_is_laid_out(s: Lowering, condition: Expr, body: Stmt)
    requires
        state_sound(s),
        while_spec(s, condition, body).1 is Ok,
        while_spec(s, condition, body).0.ops.len() <= usize::MAX,
    ensures
        ({
            let (tested, value) = expr_spec(first_of_three(s), condition);
            while_is_laid_out(
                s,
                condition,
                body,
                tested,
                value->Ok_0,
                while_spec(s, condition, body).0.ops,
            )
        }),
        extends(first_of_three(s).ops, while_spec(s, condition, body).0.ops),
{
    reveal(first_of_three);
    reveal(while_body);
    reveal(while_body_end);
    let after = while_spec(s, condition, body).0;
    let (s1, header) = emitted(s, Op::CreateBlock);
    let (s2, body_block) = emitted(s1, Op::CreateBlock);
    let (s3, exit) = emitted(s2, Op::CreateBlock);
    let s4 = entered(did(s3, Op::Jump { block: header }), header);
    assert(s4 == first_of_three(s));
    let (s5, truth) = condition_spec(s4, condition);
    let (tested, value) = expr_spec(s4, condition);
    condition_follows(s4, condition);
    expression_is_lowered_soundly(s4, condition);
    while_from_head_is_sound(s5, body, truth->Ok_0, header, body_block, exit);
    assert(while_spec(s, condition, body) == while_from_head(
        s5,
        body,
        truth->Ok_0,
        header,
        body_block,
        exit,
    ));
    let s6 = did(s5, Op::Branch { condition: truth->Ok_0, yes: body_block, no: exit });
    let s7 = entered_sealed(s6, body_block);
    let opened = loop_opened(s7, header, exit);
    let end = stmt_spec(opened, body).0;
    statement_is_lowered_soundly(opened, body);
    let s8 = fallen(loop_closed(end), header);
    assert(looped(s7, body, header, exit).0 == s8);
    let s9 = did(s8, Op::SealBlock { block: header });
    assert(after.ops == entered_sealed(s9, exit).ops);
    loop_body_is_sound(s7, body, header, exit);
    assert(extends(s9.ops, after.ops));
    assert(extends(s8.ops, after.ops));
    assert(extends(end.ops, after.ops));
    assert(extends(s7.ops, after.ops));
    assert(extends(s6.ops, after.ops));
    assert(extends(s4.ops, after.ops));
    three_blocks_stand(s);
    while_blocks_start(s, condition, body);
}

/// Where the blocks of a `while` loop start.
proof fn while_blocks_start(s: Lowering, condition: Expr, body: Stmt)
    requires
        state_sound(s),
        while_spec(s, condition, body).1 is Ok,
        while_spec(s, condition, body).0.ops.len() <= usize::MAX,
    ensures
        ({
            let n = s.ops.len();
            let ops = while_spec(s, condition, body).0.ops;
            &&& block_start(ops, (n + 1) as usize, 0) + 1 == while_body(s, condition).ops.len()
            &&& block_start(ops, (n + 2) as usize, 0) + 1 == ops.len()
        }),
{
    reveal(first_of_three);
    reveal(while_body);
    let after = while_spec(s, condition, body).0;
    let (s1, header) = emitted(s, Op::CreateBlock);
    let (s2, body_block) = emitted(s1, Op::CreateBlock);
    let (s3, exit) = emitted(s2, Op::CreateBlock);
    let s4 = entered(did(s3, Op::Jump { block: header }), header);
    assert(s4 == first_of_three(s));
    let (s5, truth) = condition_spec(s4, condition);
    condition_follows(s4, condition);
    assert(while_spec(s, condition, body) == while_from_head(
        s5,
        body,
        truth->Ok_0,
        header,
        body_block,
        exit,
    ));
    let s6 = did(s5, Op::Branch { condition: truth->Ok_0, yes: body_block, no: exit });
    let s7 = entered_sealed(s6, body_block);
    let s8 = looped(s7, body, header, exit).0;
    let s9 = did(s8, Op::SealBlock { block: header });
    assert(after.ops == entered_sealed(s9, exit).ops);
    loop_body_is_sound(s7, body, header, exit);
    assert(extends(s9.ops, after.ops));
    assert(extends(s7.ops, after.ops));
    assert(extends(s6.ops, after.ops));
    three_blocks_stand(s);
    expressions_leave_untouched(body_block, s4, condition);
    expressions_leave_untouched(exit, s4, condition);
    assert(untouched(body_block, s6));
    an_untouched_block_starts_here(body_block, s6, after.ops);
    assert(untouched(exit, s7));
    loops_leave_untouched(exit, s7, body, header, exit);
    assert(untouched(exit, s9));
    an_untouched_block_starts_here(exit, s9, after.ops);
}

/// A `while` loop runs as C asks.
///
/// The machine comes to the head of the loop. `m` being the machine after the
/// steps of the condition, it comes to the first step of the body where the
/// condition is other than nought, and else to the first step after the loop.
/// After the body it comes to the head again. Inside the body, `continue` leads
/// to the head and `break` to the first step after the loop.
pub proof fn a_while_loop_runs(
    s: Lowering,
    condition: Expr,
    body: Stmt,
    m: Machine,
    jump: nat,
)
    requires
        state_sound(s),
        while_spec(s, condition, body).1 is Ok,
        while_spec(s, condition, body).0.ops.len() <= usize::MAX,
        jump < while_spec(s, condition, body).0.ops.len(),
    ensures
        ({
            let ops = while_spec(s, condition, body).0.ops;
            let head = first_of_three(s);
            let (tested, value) = expr_spec(head, condition);
            let opened = while_body(s, condition);
            let end = while_body_end(s, condition, body);
            &&& comes_to(ops, Running { m, at: s.ops.len() }, head.ops.len())
            &&& comes_to(
                ops,
                Running { m, at: tested.ops.len() },
                if m.values[value->Ok_0] != 0 {
                    opened.ops.len()
                } else {
                    ops.len()
                },
            )
            &&& !end.terminated ==> comes_to(
                ops,
                Running { m, at: end.ops.len() },
                head.ops.len(),
            )
            &&& ops[jump as int] == (Op::Jump { block: opened.loop_targets.last().0 }) ==> comes_to(
                ops,
                Running { m, at: jump },
                head.ops.len(),
            )
            &&& ops[jump as int] == (Op::Jump { block: opened.break_targets.last() }) ==> comes_to(
                ops,
                Running { m, at: jump },
                ops.len(),
            )
        }),
{
    let ops = while_spec(s, condition, body).0.ops;
    let (tested, value) = expr_spec(first_of_three(s), condition);
    a_while_loop_is_laid_out(s, condition, body);
    the_first_block_starts(s, ops, m);
    three_blocks_stand(s);
    while_turns(s, condition, body, tested, value->Ok_0, ops, m, jump);
}

proof fn while_turns(
    s: Lowering,
    condition: Expr,
    body: Stmt,
    tested: Lowering,
    value: usize,
    ops: Seq<Op>,
    m: Machine,
    jump: nat,
)
    requires
        while_is_laid_out(s, condition, body, tested, value, ops),
        block_start(ops, s.ops.len() as usize, 0) == s.ops.len() + 5,
        jump < ops.len(),
    ensures
        ({
            let opened = while_body(s, condition);
            let end = while_body_end(s, condition, body);
            let head = s.ops.len() + 5;
            &&& comes_to(
                ops,
                Running { m, at: tested.ops.len() },
                if m.values[value] != 0 {
                    opened.ops.len()
                } else {
                    ops.len()
                },
            )
            &&& !end.terminated ==> comes_to(ops, Running { m, at: end.ops.len() }, head)
            &&& ops[jump as int] == (Op::Jump { block: opened.loop_targets.last().0 }) ==> comes_to(
                ops,
                Running { m, at: jump },
                head,
            )
            &&& ops[jump as int] == (Op::Jump { block: opened.break_targets.last() }) ==> comes_to(
                ops,
                Running { m, at: jump },
                ops.len(),
            )
        }),
{
    let header = s.ops.len() as usize;
    let body_block = (s.ops.len() + 1) as usize;
    let exit = (s.ops.len() + 2) as usize;
    let end = while_body_end(s, condition, body);
    a_tested_branch_arrives(
        ops,
        tested.ops.len(),
        value,
        type_of_value(tested, value),
        0,
        body_block,
        exit,
        m,
    );
    if !end.terminated {
        a_jump_arrives(ops, end.ops.len(), header, m);
    }
    if ops[jump as int] == (Op::Jump { block: header }) {
        a_jump_arrives(ops, jump, header, m);
    }
    if ops[jump as int] == (Op::Jump { block: exit }) {
        a_jump_arrives(ops, jump, exit, m);
    }
}

/// The state in which the body of a `do` loop is lowered.
#[verifier::opaque]
pub open spec fn do_body(s: Lowering) -> Lowering {
    loop_opened(first_of_three(s), (s.ops.len() + 1) as usize, (s.ops.len() + 2) as usize)
}

/// The state after the body of a `do` loop.
#[verifier::opaque]
pub open spec fn do_body_end(s: Lowering, body: Stmt) -> Lowering {
    stmt_spec(do_body(s), body).0
}

/// The state in which the condition of a `do` loop is lowered.
#[verifier::opaque]
pub open spec fn do_condition(s: Lowering, body: Stmt) -> Lowering {
    let condition_block = (s.ops.len() + 1) as usize;
    entered(fallen(loop_closed(do_body_end(s, body)), condition_block), condition_block)
}

/// Whether the steps of a `do` loop and its blocks are where they belong.
spec fn do_is_laid_out(
    s: Lowering,
    body: Stmt,
    tested: Lowering,
    value: usize,
    ops: Seq<Op>,
) -> bool {
    let n = s.ops.len();
    let at = tested.ops.len() as int;
    let body_block = n as usize;
    let condition_block = (n + 1) as usize;
    let exit = (n + 2) as usize;
    let end = do_body_end(s, body);
    let opened = do_body(s);
    &&& ops.len() == at + 7
    &&& ops.len() <= usize::MAX
    &&& value < at
    &&& opened.ops.len() == n + 5
    &&& opened.ops.len() <= end.ops.len() < do_condition(s, body).ops.len() <= at
    &&& extends(opened.ops, ops)
    &&& !end.terminated ==> ops[end.ops.len() as int] == (Op::Jump { block: condition_block })
    &&& block_start(ops, condition_block, 0) == do_condition(s, body).ops.len()
    &&& ops[at] == (Op::Iconst { ty: type_of_value(tested, value), value: 0 })
    &&& ops[at + 1] == (Op::CompareInt {
        condition: IntCC::NotEqual,
        left: value,
        right: at as usize,
    })
    &&& ops[at + 2] == (Op::Branch { condition: (at + 1) as usize, yes: body_block, no: exit })
    &&& block_start(ops, exit, 0) == at + 6
    &&& ops[at + 6] is SealBlock
    &&& opened.loop_targets.last().0 == condition_block
    &&& opened.break_targets.last() == exit
}

proof fn a_do_loop_is_laid_out(s: Lowering, body: Stmt, condition: Expr)
    requires
        state_sound(s),
        do_spec(s, body, condition).1 is Ok,
        do_spec(s, body, condition).0.ops.len() <= usize::MAX,
    ensures
        ({
            let (tested, value) = expr_spec(do_condition(s, body), condition);
            do_is_laid_out(s, body, tested, value->Ok_0, do_spec(s, body, condition).0.ops)
        }),
        extends(first_of_three(s).ops, do_spec(s, body, condition).0.ops),
{
    reveal(first_of_three);
    reveal(do_body);
    reveal(do_body_end);
    reveal(do_condition);
    let after = do_spec(s, body, condition).0;
    let (s1, body_block) = emitted(s, Op::CreateBlock);
    let (s2, condition_block) = emitted(s1, Op::CreateBlock);
    let (s3, exit) = emitted(s2, Op::CreateBlock);
    let s4 = entered(did(s3, Op::Jump { block: body_block }), body_block);
    assert(s4 == first_of_three(s));
    let opened = loop_opened(s4, condition_block, exit);
    let end = stmt_spec(opened, body).0;
    statement_is_lowered_soundly(opened, body);
    let s5 = fallen(loop_closed(end), condition_block);
    assert(looped(s4, body, condition_block, exit).0 == s5);
    loop_body_is_sound(s4, body, condition_block, exit);
    do_rest_is_sound(s5, condition, body_block, condition_block, exit);
    assert(do_spec(s, body, condition) == do_rest(
        s5,
        condition,
        body_block,
        condition_block,
        exit,
    ));
    let s6 = entered(s5, condition_block);
    let (s7, truth) = condition_spec(s6, condition);
    let (tested, value) = expr_spec(s6, condition);
    condition_follows(s6, condition);
    expression_is_lowered_soundly(s6, condition);
    let s8 = did(s7, Op::Branch { condition: truth->Ok_0, yes: body_block, no: exit });
    let s9 = did(did(s8, Op::SealBlock { block: condition_block }), Op::SealBlock { block: body_block });
    assert(after.ops == entered_sealed(s9, exit).ops);
    assert(extends(s9.ops, after.ops));
    assert(extends(s7.ops, after.ops));
    assert(extends(s6.ops, after.ops));
    assert(extends(s5.ops, after.ops));
    assert(extends(end.ops, after.ops));
    assert(extends(s4.ops, after.ops));
    three_blocks_stand(s);
    entry_is_sound(s5, condition_block);
    loops_leave_untouched(condition_block, s4, body, condition_block, exit);
    loops_leave_untouched(exit, s4, body, condition_block, exit);
    assert(untouched(condition_block, s5));
    an_untouched_block_starts_here(condition_block, s5, after.ops);
    assert(untouched(exit, s6));
    expressions_leave_untouched(exit, s6, condition);
    assert(untouched(exit, s9));
    an_untouched_block_starts_here(exit, s9, after.ops);
}

/// A `do` loop runs as C asks.
///
/// The machine comes to the first step of the body. After the body it comes to
/// the condition; `m` being the machine after the steps of the condition, it
/// comes to the body again where the condition is other than nought, and else
/// to the first step after the loop. Inside the body, `continue` leads to the
/// condition and `break` to the first step after the loop.
pub proof fn a_do_loop_runs(
    s: Lowering,
    body: Stmt,
    condition: Expr,
    m: Machine,
    jump: nat,
)
    requires
        state_sound(s),
        do_spec(s, body, condition).1 is Ok,
        do_spec(s, body, condition).0.ops.len() <= usize::MAX,
        jump < do_spec(s, body, condition).0.ops.len(),
    ensures
        ({
            let ops = do_spec(s, body, condition).0.ops;
            let opened = do_body(s);
            let end = do_body_end(s, body);
            let asked = do_condition(s, body);
            let (tested, value) = expr_spec(asked, condition);
            &&& comes_to(ops, Running { m, at: s.ops.len() }, opened.ops.len())
            &&& !end.terminated ==> comes_to(
                ops,
                Running { m, at: end.ops.len() },
                asked.ops.len(),
            )
            &&& comes_to(
                ops,
                Running { m, at: tested.ops.len() },
                if m.values[value->Ok_0] != 0 {
                    opened.ops.len()
                } else {
                    ops.len()
                },
            )
            &&& ops[jump as int] == (Op::Jump { block: opened.loop_targets.last().0 }) ==> comes_to(
                ops,
                Running { m, at: jump },
                asked.ops.len(),
            )
            &&& ops[jump as int] == (Op::Jump { block: opened.break_targets.last() }) ==> comes_to(
                ops,
                Running { m, at: jump },
                ops.len(),
            )
        }),
{
    let ops = do_spec(s, body, condition).0.ops;
    let (tested, value) = expr_spec(do_condition(s, body), condition);
    a_do_loop_is_laid_out(s, body, condition);
    the_first_block_starts(s, ops, m);
    do_turns(s, body, tested, value->Ok_0, ops, m, jump);
}

proof fn do_turns(
    s: Lowering,
    body: Stmt,
    tested: Lowering,
    value: usize,
    ops: Seq<Op>,
    m: Machine,
    jump: nat,
)
    requires
        do_is_laid_out(s, body, tested, value, ops),
        block_start(ops, s.ops.len() as usize, 0) == s.ops.len() + 5,
        jump < ops.len(),
    ensures
        ({
            let opened = do_body(s);
            let end = do_body_end(s, body);
            let asked = do_condition(s, body);
            &&& !end.terminated ==> comes_to(
                ops,
                Running { m, at: end.ops.len() },
                asked.ops.len(),
            )
            &&& comes_to(
                ops,
                Running { m, at: tested.ops.len() },
                if m.values[value] != 0 {
                    opened.ops.len()
                } else {
                    ops.len()
                },
            )
            &&& ops[jump as int] == (Op::Jump { block: opened.loop_targets.last().0 }) ==> comes_to(
                ops,
                Running { m, at: jump },
                asked.ops.len(),
            )
            &&& ops[jump as int] == (Op::Jump { block: opened.break_targets.last() }) ==> comes_to(
                ops,
                Running { m, at: jump },
                ops.len(),
            )
        }),
{
    let body_block = s.ops.len() as usize;
    let condition_block = (s.ops.len() + 1) as usize;
    let exit = (s.ops.len() + 2) as usize;
    let end = do_body_end(s, body);
    a_tested_branch_arrives(
        ops,
        tested.ops.len(),
        value,
        type_of_value(tested, value),
        0,
        body_block,
        exit,
        m,
    );
    if !end.terminated {
        a_jump_arrives(ops, end.ops.len(), condition_block, m);
    }
    if ops[jump as int] == (Op::Jump { block: condition_block }) {
        a_jump_arrives(ops, jump, condition_block, m);
    }
    if ops[jump as int] == (Op::Jump { block: exit }) {
        a_jump_arrives(ops, jump, exit, m);
    }
}

} // verus!
