//! Where jumps, labels and switches lead when their steps run.

use crate::error::Location;
use crate::hir::{Expr, Stmt, StmtType};
use crate::ir::{IntCC, IrType, Op};
use crate::lower::block_laws::{
    closing_leaves_untouched, dispatches_leave_untouched, opening_leaves_untouched,
    statements_leave_untouched,
};
use crate::lower::branch_laws::block_starts_at;
use crate::lower::expr_laws::expression_is_lowered_soundly;
use crate::lower::expr_model::expr_spec;
use crate::lower::flow_laws::{
    a_jump_arrives, a_new_block_is_untouched, an_untouched_block_starts_here, steps_add_up,
};
use crate::lower::laws::{
    entries_leave_untouched, extends, label_is_sound, state_sound, steps_leave_untouched,
    steps_sound, targets_avoid, untouched,
};
use crate::lower::machine::{
    after_steps, block_start, comes_to, modulus, moved_on, same_but_values, Machine, Running,
};
use crate::lower::state::{
    case_block, did, emitted, entered, label_block_spec, type_of_value, Lowering, SwitchView,
};
use crate::lower::stmt_laws::{
    case_blocks_are_sound, dispatch_is_sound, statement_is_lowered_soundly, switch_head_is_sound,
    switch_is_sound,
};
use crate::lower::stmt_model::{
    case_blocks_spec, case_spec, case_target, default_spec, default_target, dispatch_spec, fallen,
    label_spec, labels_from, labels_spec, reachable, stmt_spec, switch_closed, switch_head_spec,
    switch_opened, switch_spec, SwitchLabels,
};
use vstd::prelude::*;

verus! {

/// A `break` is a jump to where the innermost open loop or switch ends, and a
/// `continue` one to the next round of the innermost open loop. Nothing after
/// them is reached.
pub proof fn jumps_out_lead_to_the_innermost(s: Lowering, leave: Stmt, again: Stmt)
    requires
        leave.data is Break,
        again.data is Continue,
        !s.terminated,
    ensures
        s.break_targets.len() > 0 ==> {
            let (after, done) = stmt_spec(s, leave);
            &&& done is Ok
            &&& after.ops == s.ops.push(Op::Jump { block: s.break_targets.last() })
            &&& after.terminated
        },
        s.loop_targets.len() > 0 ==> {
            let (after, done) = stmt_spec(s, again);
            &&& done is Ok
            &&& after.ops == s.ops.push(Op::Jump { block: s.loop_targets.last().0 })
            &&& after.terminated
        },
        s.break_targets.len() == 0 ==> stmt_spec(s, leave).1 is Err,
        s.loop_targets.len() == 0 ==> stmt_spec(s, again).1 is Err,
{
}

/// A `goto` is a jump to the block of its label, which stays the label's from
/// then on.
pub proof fn a_goto_leads_to_its_label(s: Lowering, statement: Stmt, label: u32)
    requires
        statement.data == StmtType::Goto(label),
        !s.terminated,
    ensures
        ({
            let (after, done) = stmt_spec(s, statement);
            &&& done is Ok
            &&& after.labels.contains_key(label)
            &&& after.ops.last() == (Op::Jump { block: after.labels[label] })
            &&& s.labels.contains_key(label) ==> after.labels[label] == s.labels[label]
            &&& after.terminated
        }),
{
}

/// A block whose number no earlier step can name starts where lowering first
/// goes on in it.
proof fn a_first_entry_starts_the_block(block: usize, t: Lowering, ops: Seq<Op>)
    requires
        extends(t.ops, ops),
        t.ops.len() < ops.len(),
        forall|i: int|
            0 <= i < t.ops.len() ==> #[trigger] t.ops[i] != (Op::SwitchToBlock { block }),
        ops[t.ops.len() as int] == (Op::SwitchToBlock { block }),
    ensures
        block_start(ops, block, 0) == t.ops.len() + 1,
{
    assert forall|i: int| 0 <= i < t.ops.len() implies #[trigger] ops[i] != (Op::SwitchToBlock {
        block,
    }) by {
        assert(ops[i] == t.ops[i]);
    }
    block_starts_at(ops, block, t.ops.len(), 0);
}

/// Whether lowering has not gone on in the block so far.
pub open spec fn not_entered(s: Lowering, block: usize) -> bool {
    forall|i: int| 0 <= i < s.ops.len() ==> #[trigger] s.ops[i] != (Op::SwitchToBlock { block })
}

/// The state in which the statement after a label is lowered.
pub open spec fn after_label(s: Lowering, block: usize) -> Lowering {
    reachable(entered(fallen(s, block), block))
}

proof fn a_labelled_statement_starts_here(
    s: Lowering,
    block: usize,
    inner: Stmt,
    m: Machine,
    jump: nat,
)
    requires
        not_entered(s, block),
        stmt_spec(after_label(s, block), inner).0.ops.len() <= usize::MAX,
        jump < stmt_spec(after_label(s, block), inner).0.ops.len(),
    ensures
        ({
            let opened = after_label(s, block);
            let ops = stmt_spec(opened, inner).0.ops;
            &&& !s.terminated ==> comes_to(ops, Running { m, at: s.ops.len() }, opened.ops.len())
            &&& ops[jump as int] == (Op::Jump { block }) ==> comes_to(
                ops,
                Running { m, at: jump },
                opened.ops.len(),
            )
        }),
{
    let opened = after_label(s, block);
    let ops = stmt_spec(opened, inner).0.ops;
    let s1 = fallen(s, block);
    statement_is_lowered_soundly(opened, inner);
    assert(extends(opened.ops, ops));
    assert(extends(s1.ops, ops));
    assert(ops[s1.ops.len() as int] == opened.ops[s1.ops.len() as int]);
    a_first_entry_starts_the_block(block, s1, ops);
    if !s.terminated {
        assert(ops[s.ops.len() as int] == s1.ops[s.ops.len() as int]);
        a_jump_arrives(ops, s.ops.len(), block, m);
    }
    if ops[jump as int] == (Op::Jump { block }) {
        a_jump_arrives(ops, jump, block, m);
    }
}

/// A label leads to the statement after it: a jump to its block, wherever it
/// stands, comes to the first step of the statement, and so does what runs
/// before the label.
pub proof fn a_label_leads_to_its_statement(
    s: Lowering,
    label: u32,
    inner: Stmt,
    m: Machine,
    jump: nat,
)
    requires
        state_sound(s),
        s.labels.contains_key(label) ==> not_entered(s, s.labels[label]),
        label_spec(s, label, inner).1 is Ok,
        label_spec(s, label, inner).0.ops.len() <= usize::MAX,
        jump < label_spec(s, label, inner).0.ops.len(),
    ensures
        ({
            let (named, block) = label_block_spec(s, label);
            let opened = after_label(named, block);
            let after = label_spec(s, label, inner).0;
            &&& after.labels.contains_key(label)
            &&& after.labels[label] == block
            &&& !s.terminated ==> comes_to(
                after.ops,
                Running { m, at: named.ops.len() },
                opened.ops.len(),
            )
            &&& after.ops[jump as int] == (Op::Jump { block: after.labels[label] }) ==> comes_to(
                after.ops,
                Running { m, at: jump },
                opened.ops.len(),
            )
        }),
{
    let (named, block) = label_block_spec(s, label);
    let opened = after_label(named, block);
    statement_is_lowered_soundly(opened, inner);
    label_is_sound(s, label);
    if !s.labels.contains_key(label) {
        reveal(state_sound);
        assert forall|i: int| 0 <= i < named.ops.len() implies #[trigger] named.ops[i] != (
        Op::SwitchToBlock { block }) by {
            if i < s.ops.len() {
                assert(named.ops[i] == s.ops[i]);
            }
        }
    }
    a_labelled_statement_starts_here(named, block, inner, m, jump);
    let after = label_spec(s, label, inner).0;
    assert(label_spec(s, label, inner) == stmt_spec(opened, inner));
    assert(named.labels.contains_key(label));
    assert(opened.labels == named.labels);
    assert(opened.labels.contains_key(label));
    assert(after.labels.contains_key(label));
    assert(named.terminated == s.terminated);
}

/// A case label of a switch leads to the statement after it: a jump to its
/// block comes to the first step of the statement, and so does what runs
/// before the label.
pub proof fn a_case_leads_to_its_statement(
    s: Lowering,
    value: u64,
    inner: Stmt,
    location: Location,
    m: Machine,
    jump: nat,
)
    requires
        case_target(s, value) is Some,
        not_entered(s, case_target(s, value)->0),
        case_spec(s, value, inner, location).0.ops.len() <= usize::MAX,
        jump < case_spec(s, value, inner, location).0.ops.len(),
    ensures
        ({
            let block = case_target(s, value)->0;
            let opened = after_label(s, block);
            let ops = case_spec(s, value, inner, location).0.ops;
            &&& !s.terminated ==> comes_to(ops, Running { m, at: s.ops.len() }, opened.ops.len())
            &&& ops[jump as int] == (Op::Jump { block }) ==> comes_to(
                ops,
                Running { m, at: jump },
                opened.ops.len(),
            )
            &&& block_start(ops, block, 0) == opened.ops.len()
        }),
{
    let block = case_target(s, value)->0;
    let opened = after_label(s, block);
    a_labelled_statement_starts_here(s, block, inner, m, jump);
    statement_is_lowered_soundly(opened, inner);
    let ops = case_spec(s, value, inner, location).0.ops;
    let s1 = fallen(s, block);
    assert(extends(opened.ops, ops));
    assert(extends(s1.ops, ops));
    assert(ops[s1.ops.len() as int] == opened.ops[s1.ops.len() as int]);
    a_first_entry_starts_the_block(block, s1, ops);
}

/// A default label of a switch leads to the statement after it.
pub proof fn a_default_leads_to_its_statement(
    s: Lowering,
    inner: Stmt,
    location: Location,
    m: Machine,
    jump: nat,
)
    requires
        default_target(s) is Some,
        not_entered(s, default_target(s)->0),
        default_spec(s, inner, location).0.ops.len() <= usize::MAX,
        jump < default_spec(s, inner, location).0.ops.len(),
    ensures
        ({
            let block = default_target(s)->0;
            let opened = after_label(s, block);
            let ops = default_spec(s, inner, location).0.ops;
            &&& !s.terminated ==> comes_to(ops, Running { m, at: s.ops.len() }, opened.ops.len())
            &&& ops[jump as int] == (Op::Jump { block }) ==> comes_to(
                ops,
                Running { m, at: jump },
                opened.ops.len(),
            )
            &&& block_start(ops, block, 0) == opened.ops.len()
        }),
{
    let block = default_target(s)->0;
    let opened = after_label(s, block);
    a_labelled_statement_starts_here(s, block, inner, m, jump);
    statement_is_lowered_soundly(opened, inner);
    let ops = default_spec(s, inner, location).0.ops;
    let s1 = fallen(s, block);
    assert(extends(opened.ops, ops));
    assert(extends(s1.ops, ops));
    assert(ops[s1.ops.len() as int] == opened.ops[s1.ops.len() as int]);
    a_first_entry_starts_the_block(block, s1, ops);
}

/// Going on from where some steps led.
proof fn comes_on(ops: Seq<Op>, from: Running, count: nat, at: nat)
    requires
        ({
            let reached = after_steps(from, ops, count);
            &&& from.at <= reached.at
            &&& same_but_values(from.m, reached.m, from.at)
            &&& comes_to(ops, reached, at)
        }),
    ensures
        comes_to(ops, from, at),
{
    reveal(comes_to);
    let reached = after_steps(from, ops, count);
    let more = choose|more: nat|
        {
            let to = #[trigger] after_steps(reached, ops, more);
            to.at == at && same_but_values(reached.m, to.m, reached.at)
        };
    steps_add_up(from, ops, count, more);
    let to = after_steps(from, ops, count + more);
    assert(same_but_values(from.m, to.m, from.at));
}

/// The block of the first case from `index` on whose number, modulo what the
/// selector's type can hold, is the selector; `otherwise` where there is none.
pub open spec fn chosen(
    cases: Seq<(u64, usize)>,
    index: nat,
    selector: nat,
    ty: IrType,
    otherwise: usize,
) -> usize
    decreases cases.len() - index,
{
    if index >= cases.len() {
        otherwise
    } else if (cases[index as int].0 as i64) as int % modulus(ty) as int == selector {
        cases[index as int].1
    } else {
        chosen(cases, index + 1, selector, ty, otherwise)
    }
}

/// The tests of a switch from `index` on and the jump after them, run.
proof fn a_dispatch_chooses(
    s: Lowering,
    selector: usize,
    ty: IrType,
    cases: Seq<(u64, usize)>,
    index: nat,
    dispatch: usize,
    otherwise: usize,
    ops: Seq<Op>,
    m: Machine,
)
    requires
        ({
            let (after, last) = dispatch_spec(s, selector, ty, cases, index, dispatch);
            let at = after.ops.len() as int;
            &&& extends(after.ops, ops)
            &&& at + 2 <= ops.len() <= usize::MAX
            &&& ops[at] == (Op::SwitchToBlock { block: last })
            &&& ops[at + 1] == (Op::Jump { block: otherwise })
        }),
        index <= cases.len(),
        steps_sound(ops),
        selector < s.ops.len(),
    ensures
        ({
            let begin = if index == 0 {
                s.ops.len()
            } else {
                s.ops.len() + 1
            };
            comes_to(
                ops,
                Running { m, at: begin },
                block_start(ops, chosen(cases, index, m.values[selector], ty, otherwise), 0),
            )
        }),
    decreases cases.len() - index,
{
    let begin = if index == 0 {
        s.ops.len()
    } else {
        s.ops.len() + 1
    };
    if index >= cases.len() {
        if index == 0 {
            let from = Running { m, at: begin };
            a_jump_arrives(ops, begin + 1, otherwise, m);
            reveal_with_fuel(after_steps, 2);
            assert(after_steps(from, ops, 1) == (Running { m, at: begin + 1 }));
            comes_on(ops, from, 1, block_start(ops, otherwise, 0));
        } else {
            a_jump_arrives(ops, begin, otherwise, m);
        }
    } else {
        let (value, target) = cases[index as int];
        let s0 = if index == 0 {
            s
        } else {
            entered(s, dispatch)
        };
        let (s1, next) = emitted(s0, Op::CreateBlock);
        let (s2, constant) = emitted(s1, Op::Iconst { ty, value: value as i64 });
        let (s3, condition) = emitted(
            s2,
            Op::CompareInt { condition: IntCC::Equal, left: selector, right: constant },
        );
        let s4 = did(s3, Op::Branch { condition, yes: target, no: next });
        dispatch_is_sound(s4, selector, ty, cases, index + 1, next);
        let after = dispatch_spec(s, selector, ty, cases, index, dispatch).0;
        assert(after == dispatch_spec(s4, selector, ty, cases, index + 1, next).0);
        assert(begin == s0.ops.len());
        let p = begin as int;
        assert(extends(s4.ops, ops)) by {
            assert forall|i: int| 0 <= i < s4.ops.len() implies #[trigger] ops[i] == s4.ops[i] by {
                assert(after.ops[i] == s4.ops[i]);
            }
        }
        assert(ops[p] == s4.ops[p]);
        assert(ops[p + 1] == s4.ops[p + 1]);
        assert(ops[p + 2] == s4.ops[p + 2]);
        assert(ops[p + 3] == s4.ops[p + 3]);
        let from = Running { m, at: begin };
        let r1 = moved_on(from, ops);
        let r2 = moved_on(r1, ops);
        let r3 = moved_on(r2, ops);
        let r4 = moved_on(r3, ops);
        assert(r1 == (Running { m, at: begin + 1 }));
        assert(r2.m.values[constant] == (value as i64) as int % modulus(ty) as int);
        assert(r2.m.values[selector] == m.values[selector]);
        reveal_with_fuel(after_steps, 5);
        assert(after_steps(from, ops, 4) == r4);
        assert(same_but_values(m, r4.m, begin));
        if (value as i64) as int % modulus(ty) as int == m.values[selector] {
            reveal(comes_to);
            assert(r4.at == block_start(ops, target, 0));
        } else {
            next_test_starts(ops, begin, next, s4, selector, ty, cases, index + 1);
            assert(r4.at == block_start(ops, next, 0));
            a_dispatch_chooses(
                s4,
                selector,
                ty,
                cases,
                index + 1,
                next,
                otherwise,
                ops,
                r4.m,
            );
            comes_on(
                ops,
                from,
                4,
                block_start(ops, chosen(cases, index, m.values[selector], ty, otherwise), 0),
            );
        }
    }
}

/// Where the next test of a switch starts.
proof fn next_test_starts(
    ops: Seq<Op>,
    begin: nat,
    next: usize,
    s: Lowering,
    selector: usize,
    ty: IrType,
    cases: Seq<(u64, usize)>,
    index: nat,
)
    requires
        0 < index <= cases.len(),
        next == begin,
        s.ops.len() == begin + 4,
        ops.len() <= usize::MAX,
        extends(s.ops, ops),
        ops[begin as int] == Op::CreateBlock,
        ops[begin as int + 1] is Iconst,
        ops[begin as int + 2] is CompareInt,
        ops[begin as int + 3] is Branch,
        ({
            let (after, last) = dispatch_spec(s, selector, ty, cases, index, next);
            let at = after.ops.len() as int;
            &&& extends(after.ops, ops)
            &&& at < ops.len()
            &&& ops[at] == (Op::SwitchToBlock { block: last })
        }),
        steps_sound(ops),
    ensures
        block_start(ops, next, 0) == s.ops.len() + 1,
{
    let n = s.ops.len() as int;
    let (after, last) = dispatch_spec(s, selector, ty, cases, index, next);
    if index < cases.len() {
        let (value, target) = cases[index as int];
        let s0 = entered(s, next);
        let (s1, later) = emitted(s0, Op::CreateBlock);
        let (s2, constant) = emitted(s1, Op::Iconst { ty, value: value as i64 });
        let (s3, condition) = emitted(
            s2,
            Op::CompareInt { condition: IntCC::Equal, left: selector, right: constant },
        );
        let s4 = did(s3, Op::Branch { condition, yes: target, no: later });
        dispatch_is_sound(s4, selector, ty, cases, index + 1, later);
        assert(after == dispatch_spec(s4, selector, ty, cases, index + 1, later).0);
        assert(s4.ops[n] == (Op::SwitchToBlock { block: next }));
        assert(after.ops[n] == s4.ops[n]);
        assert(ops[n] == after.ops[n]);
    }
    assert(ops[n] == (Op::SwitchToBlock { block: next }));
    assert forall|i: int| 0 <= i < n implies #[trigger] ops[i] != (Op::SwitchToBlock {
        block: next,
    }) by {
        if i > begin {
            assert(i == begin + 1 || i == begin + 2 || i == begin + 3);
        }
    }
    block_starts_at(ops, next, n as nat, 0);
}

/// The state before the tests of a switch: its blocks are made.
pub open spec fn switch_ready(s: Lowering, body: Stmt) -> (Lowering, SwitchView, usize) {
    let labels = labels_spec(body, SwitchLabels { values: Seq::empty(), has_default: false });
    let (s, cases) = case_blocks_spec(s, labels.values, 0, Seq::empty());
    let (s, default) = if labels.has_default {
        let (s, block) = emitted(s, Op::CreateBlock);
        (s, Some(block))
    } else {
        (s, None)
    };
    let (s, exit) = emitted(s, Op::CreateBlock);
    (s, SwitchView { cases, default }, exit)
}

/// A switch leads to the block of the case that its selector is, else to that
/// of the default label, else past the switch.
///
/// `m` is the machine after the steps of the selector and the making of the
/// blocks. The blocks are those in which the statements after the case labels
/// are lowered.
pub proof fn a_switch_leads_to_its_case(s: Lowering, expression: Expr, body: Stmt, m: Machine)
    requires
        state_sound(s),
        switch_spec(s, expression, body).1 is Ok,
        switch_spec(s, expression, body).0.ops.len() <= usize::MAX,
    ensures
        ({
            let (computed, selector) = expr_spec(s, expression);
            let (ready, targets, exit) = switch_ready(computed, body);
            let after = switch_spec(s, expression, body).0;
            let otherwise = match targets.default {
                Some(block) => block,
                None => exit,
            };
            comes_to(
                after.ops,
                Running { m, at: ready.ops.len() },
                block_start(
                    after.ops,
                    chosen(
                        targets.cases,
                        0,
                        m.values[selector->Ok_0],
                        type_of_value(computed, selector->Ok_0),
                        otherwise,
                    ),
                    0,
                ),
            )
        }),
{
    let (computed, selected) = expr_spec(s, expression);
    let selector = selected->Ok_0;
    expression_is_lowered_soundly(s, expression);
    switch_head_is_sound(computed, selector, body);
    let (head, targets, exit) = switch_head_spec(computed, selector, body);
    let (ready, same, _) = switch_ready(computed, body);
    let opened = switch_opened(head, targets, exit);
    statement_is_lowered_soundly(opened, body);
    switch_is_sound(s, expression, body);
    let after = switch_spec(s, expression, body).0;
    let ty = type_of_value(computed, selector);
    let otherwise = match targets.default {
        Some(block) => block,
        None => exit,
    };
    assert(extends(head.ops, after.ops));
    case_blocks_are_sound(
        computed,
        labels_spec(body, SwitchLabels { values: Seq::empty(), has_default: false }).values,
        0,
        Seq::empty(),
    );
    let (tests, last) = dispatch_spec(ready, selector, ty, targets.cases, 0, ready.block);
    dispatch_is_sound(ready, selector, ty, targets.cases, 0, ready.block);
    assert(head.ops == tests.ops.push(Op::SwitchToBlock { block: last }).push(
        Op::Jump { block: otherwise },
    ));
    let at = tests.ops.len() as int;
    assert(after.ops[at] == head.ops[at]);
    assert(after.ops[at + 1] == head.ops[at + 1]);
    assert(extends(tests.ops, after.ops)) by {
        assert forall|i: int| 0 <= i < tests.ops.len() implies #[trigger] after.ops[i]
            == tests.ops[i] by {
            assert(head.ops[i] == tests.ops[i]);
        }
    }
    assert(steps_sound(after.ops)) by {
        reveal(state_sound);
    }
    a_dispatch_chooses(
        ready,
        selector,
        ty,
        targets.cases,
        0,
        ready.block,
        otherwise,
        after.ops,
        m,
    );
}

proof fn case_blocks_are_new(s: Lowering, values: Seq<u64>, index: nat, cases: Seq<(u64, usize)>)
    ensures
        ({
            let (after, result) = case_blocks_spec(s, values, index, cases);
            &&& extends(s.ops, after.ops)
            &&& forall|i: int|
                s.ops.len() <= i < after.ops.len() ==> #[trigger] after.ops[i] == Op::CreateBlock
            &&& after.block == s.block
            &&& after.labels == s.labels
            &&& after.switch_cases == s.switch_cases
            &&& after.ops.len() <= usize::MAX && (forall|i: int|
                0 <= i < cases.len() ==> (#[trigger] cases[i]).1 < s.ops.len()) ==> forall|i: int|
                0 <= i < result.len() ==> (#[trigger] result[i]).1 < after.ops.len()
        }),
    decreases values.len() - index,
{
    if index < values.len() {
        let value = values[index as int];
        if case_block(cases, value, 0) is Some {
            case_blocks_are_new(s, values, index + 1, cases);
        } else {
            let (s1, block) = emitted(s, Op::CreateBlock);
            case_blocks_are_new(s1, values, index + 1, cases.push((value, block)));
            let (after, _) = case_blocks_spec(s, values, index, cases);
            assert forall|i: int| s.ops.len() <= i < after.ops.len() implies #[trigger] after.ops[i]
                == Op::CreateBlock by {
                if i == s.ops.len() {
                    assert(after.ops[i] == s1.ops[i]);
                }
            }
            assert forall|i: int| 0 <= i < s.ops.len() implies #[trigger] after.ops[i]
                == s.ops[i] by {
                assert(after.ops[i] == s1.ops[i]);
            }
        }
    }
}

/// The block after a switch is untouched when its body is lowered.
proof fn the_exit_is_untouched(s: Lowering, selector: usize, body: Stmt)
    requires
        state_sound(s),
        switch_head_spec(s, selector, body).0.ops.len() <= usize::MAX,
    ensures
        ({
            let (head, targets, exit) = switch_head_spec(s, selector, body);
            untouched(exit, switch_opened(head, targets, exit))
        }),
{
    let labels = labels_spec(body, SwitchLabels { values: Seq::empty(), has_default: false });
    let (s1, cases) = case_blocks_spec(s, labels.values, 0, Seq::empty());
    case_blocks_are_new(s, labels.values, 0, Seq::empty());
    let (ready, targets, exit) = switch_ready(s, body);
    let (head, same, _) = switch_head_spec(s, selector, body);
    let ty = type_of_value(s, selector);
    let (tests, last) = dispatch_spec(ready, selector, ty, cases, 0, ready.block);
    dispatch_is_sound(ready, selector, ty, cases, 0, ready.block);
    assert(ready.ops.len() <= tests.ops.len() <= head.ops.len());
    assert forall|i: int| s.ops.len() <= i < ready.ops.len() implies #[trigger] ready.ops[i]
        == Op::CreateBlock by {
        if i < s1.ops.len() {
            assert(s1.ops[i] == Op::CreateBlock);
            assert(ready.ops[i] == s1.ops[i]);
        }
    }
    assert(extends(s.ops, ready.ops)) by {
        assert forall|i: int| 0 <= i < s.ops.len() implies #[trigger] ready.ops[i] == s.ops[i] by {
            assert(s1.ops[i] == s.ops[i]);
        }
    }
    a_new_block_is_untouched(s, ready, exit);
    assert(ready.block != exit) by {
        reveal(untouched);
    }
    dispatches_leave_untouched(exit, ready, selector, ty, cases, 0, ready.block);
    assert(targets_avoid(targets, exit));
    let entry = entered(tests, last);
    entries_leave_untouched(exit, tests, last);
    let otherwise = match targets.default {
        Some(block) => block,
        None => exit,
    };
    steps_leave_untouched(exit, entry, Op::Jump { block: otherwise });
    assert(head == did(entry, Op::Jump { block: otherwise }));
    opening_leaves_untouched(exit, head, targets, exit);
}

/// A switch ends as C asks: after its body, and after a `break` in it, the
/// machine comes to the first step after the switch.
pub proof fn a_switch_ends(s: Lowering, expression: Expr, body: Stmt, m: Machine, jump: nat)
    requires
        state_sound(s),
        switch_spec(s, expression, body).1 is Ok,
        switch_spec(s, expression, body).0.ops.len() <= usize::MAX,
        jump < switch_spec(s, expression, body).0.ops.len(),
    ensures
        ({
            let (computed, selector) = expr_spec(s, expression);
            let (head, targets, exit) = switch_head_spec(computed, selector->Ok_0, body);
            let opened = switch_opened(head, targets, exit);
            let end = stmt_spec(opened, body).0;
            let after = switch_spec(s, expression, body).0;
            &&& !end.terminated ==> comes_to(
                after.ops,
                Running { m, at: end.ops.len() },
                after.ops.len(),
            )
            &&& after.ops[jump as int] == (Op::Jump { block: opened.break_targets.last() })
                ==> comes_to(after.ops, Running { m, at: jump }, after.ops.len())
            &&& block_start(after.ops, exit, 0) == after.ops.len()
        }),
{
    let (computed, selected) = expr_spec(s, expression);
    let selector = selected->Ok_0;
    expression_is_lowered_soundly(s, expression);
    switch_head_is_sound(computed, selector, body);
    let (head, targets, exit) = switch_head_spec(computed, selector, body);
    let opened = switch_opened(head, targets, exit);
    statement_is_lowered_soundly(opened, body);
    let end = stmt_spec(opened, body).0;
    let after = switch_spec(s, expression, body).0;
    let closed = switch_closed(end);
    let left = fallen(closed, exit);
    assert(after.ops == left.ops.push(Op::SwitchToBlock { block: exit }));
    the_exit_is_untouched(computed, selector, body);
    statements_leave_untouched(exit, opened, body);
    closing_leaves_untouched(exit, end);
    steps_leave_untouched(exit, closed, Op::Jump { block: exit });
    an_untouched_block_starts_here(exit, left, after.ops);
    if !end.terminated {
        assert(after.ops[end.ops.len() as int] == left.ops[end.ops.len() as int]);
        a_jump_arrives(after.ops, end.ops.len(), exit, m);
    }
    if after.ops[jump as int] == (Op::Jump { block: exit }) {
        a_jump_arrives(after.ops, jump, exit, m);
    }
}

/// The labels of a statement alone.
pub open spec fn own_labels(statement: Stmt) -> SwitchLabels {
    labels_spec(statement, SwitchLabels { values: Seq::empty(), has_default: false })
}

/// The labels of two parts, one after the other.
pub open spec fn labels_joined(first: SwitchLabels, second: SwitchLabels) -> SwitchLabels {
    SwitchLabels {
        values: first.values + second.values,
        has_default: first.has_default || second.has_default,
    }
}

proof fn labels_are_appended(statement: Stmt, found: SwitchLabels)
    ensures
        labels_spec(statement, found) == labels_joined(found, own_labels(statement)),
    decreases statement, 0nat,
{
    let none = SwitchLabels { values: Seq::empty(), has_default: false };
    match statement.data {
        StmtType::Case(value, inner) => {
            labels_are_appended(
                *inner,
                SwitchLabels { values: found.values.push(value), ..found },
            );
            labels_are_appended(*inner, SwitchLabels { values: none.values.push(value), ..none });
        },
        StmtType::Default(inner) => {
            labels_are_appended(*inner, SwitchLabels { has_default: true, ..found });
            labels_are_appended(*inner, SwitchLabels { has_default: true, ..none });
        },
        StmtType::Compound(statements) => {
            list_labels_are_appended(statements@, 0, found);
        },
        StmtType::If(_, yes, no) => {
            labels_are_appended(*yes, found);
            labels_are_appended(*yes, none);
            if let Some(no) = no {
                labels_are_appended(*no, labels_spec(*yes, found));
                labels_are_appended(*no, labels_spec(*yes, none));
            }
        },
        StmtType::While(_, inner) => {
            labels_are_appended(*inner, found);
        },
        StmtType::Do(inner, _) => {
            labels_are_appended(*inner, found);
        },
        StmtType::Label(_, inner) => {
            labels_are_appended(*inner, found);
        },
        StmtType::For(_, _, _, inner) => {
            labels_are_appended(*inner, found);
        },
        _ => {},
    }
    assert(labels_spec(statement, found).values =~= found.values + own_labels(statement).values);
}

proof fn list_labels_are_appended(statements: Seq<Stmt>, index: nat, found: SwitchLabels)
    ensures
        labels_from(statements, index, found) == labels_joined(
            found,
            labels_from(
                statements,
                index,
                SwitchLabels { values: Seq::empty(), has_default: false },
            ),
        ),
    decreases statements, statements.len() - index,
{
    let none = SwitchLabels { values: Seq::empty(), has_default: false };
    if index < statements.len() {
        let first = statements[index as int];
        labels_are_appended(first, found);
        labels_are_appended(first, none);
        list_labels_are_appended(statements, index + 1, labels_spec(first, found));
        list_labels_are_appended(statements, index + 1, labels_spec(first, none));
    }
    assert(labels_from(statements, index, found).values =~= found.values + labels_from(
        statements,
        index,
        none,
    ).values);
}

/// The labels of a switch are those of the parts of its body, in order: a case
/// label adds its value and a default label itself to the labels of what
/// follows it; loops, labelled statements and the branches of an `if` have the
/// labels of what is inside; the labels of a nested switch are its own.
pub proof fn labels_are_those_of_the_parts(statement: Stmt, index: nat)
    ensures
        match statement.data {
            StmtType::Case(value, inner) => own_labels(statement) == labels_joined(
                SwitchLabels { values: seq![value], has_default: false },
                own_labels(*inner),
            ),
            StmtType::Default(inner) => own_labels(statement) == labels_joined(
                SwitchLabels { values: Seq::empty(), has_default: true },
                own_labels(*inner),
            ),
            StmtType::If(_, yes, Some(no)) => own_labels(statement) == labels_joined(
                own_labels(*yes),
                own_labels(*no),
            ),
            StmtType::If(_, yes, None) => own_labels(statement) == own_labels(*yes),
            StmtType::While(_, inner) => own_labels(statement) == own_labels(*inner),
            StmtType::Do(inner, _) => own_labels(statement) == own_labels(*inner),
            StmtType::Label(_, inner) => own_labels(statement) == own_labels(*inner),
            StmtType::For(_, _, _, inner) => own_labels(statement) == own_labels(*inner),
            StmtType::Switch(_, _) => own_labels(statement) == (SwitchLabels {
                values: Seq::empty(),
                has_default: false,
            }),
            StmtType::Compound(statements) => index < statements@.len() ==> exists|
                before: SwitchLabels,
                after: SwitchLabels,
            |
                own_labels(statement) == #[trigger] labels_joined(
                    before,
                    labels_joined(own_labels(statements@[index as int]), after),
                ),
            _ => true,
        },
{
    let none = SwitchLabels { values: Seq::empty(), has_default: false };
    match statement.data {
        StmtType::Case(value, inner) => {
            labels_are_appended(*inner, SwitchLabels { values: none.values.push(value), ..none });
            assert(none.values.push(value) =~= seq![value]);
        },
        StmtType::Default(inner) => {
            labels_are_appended(*inner, SwitchLabels { has_default: true, ..none });
        },
        StmtType::If(_, yes, Some(no)) => {
            labels_are_appended(*no, own_labels(*yes));
        },
        StmtType::Compound(statements) => {
            if index < statements@.len() {
                list_holds_its_labels(statements@, 0, index, none);
            }
        },
        _ => {},
    }
}

proof fn list_holds_its_labels(
    statements: Seq<Stmt>,
    from: nat,
    index: nat,
    found: SwitchLabels,
)
    requires
        from <= index < statements.len(),
    ensures
        exists|before: SwitchLabels, after: SwitchLabels|
            labels_from(statements, from, found) == #[trigger] labels_joined(
                before,
                labels_joined(own_labels(statements[index as int]), after),
            ),
    decreases index - from,
{
    let none = SwitchLabels { values: Seq::empty(), has_default: false };
    let first = statements[from as int];
    labels_are_appended(first, found);
    if from < index {
        list_holds_its_labels(statements, from + 1, index, labels_spec(first, found));
    } else {
        let next = labels_spec(first, found);
        list_labels_are_appended(statements, from + 1, next);
        let after = labels_from(statements, from + 1, none);
        let whole = labels_joined(found, labels_joined(own_labels(first), after));
        assert(labels_from(statements, from, found).values =~= whole.values);
        assert(labels_from(statements, from, found) == whole);
    }
}

} // verus!
