//! Which blocks the lowering of a statement goes on in: those that it made,
//! those of labels and those of the open switches, and no other.

use crate::error::Location;
use crate::hir::{Declaration, Expr, Stmt, StmtType};
use crate::ir::{IntCC, IrType, Op};
use crate::lower::expr_laws::{condition_is_sound, copy_is_sound, expression_is_lowered_soundly};
use crate::lower::expr_model::{condition_spec, expr_spec};
use crate::lower::init_laws::local_is_lowered_soundly;
use crate::lower::init_model::{local_spec, Done};
use crate::lower::laws::{
    ending_leaves_untouched, enters_from, entries_leave_untouched, extends, other_parts_do_not_bear,
    reaching_leaves_untouched, stands_from, steps_leave_untouched, targets_avoid, untouched,
};
use crate::lower::state::{
    case_block, copied, did, emitted, entered, entered_sealed, label_block_spec, type_of_value,
    Lowering, SwitchView,
};
use crate::lower::stmt_laws::{
    case_blocks_are_sound, condition_follows, declarations_are_sound, dispatch_is_sound, do_rest,
    do_rest_is_sound, for_from_head, for_from_head_is_sound, for_head_is_sound, for_opened,
    for_opening_is_sound, for_rest, for_rest_is_sound, if_rest, if_rest_is_sound,
    loop_body_is_sound, looped, statement_is_lowered_soundly, statements_are_lowered_soundly,
    switch_head_is_sound, while_from_head, while_from_head_is_sound,
};
use crate::lower::stmt_model::{
    case_blocks_spec, case_spec, case_target, declarations_spec, default_spec, default_target,
    dispatch_spec, do_spec, fallen, for_head_spec, for_spec, if_spec, label_spec, labels_spec,
    loop_closed, loop_opened, reachable, return_spec, statements_spec, stmt_spec, switch_closed,
    switch_head_spec, switch_opened, switch_spec, while_spec, SwitchLabels,
};
use vstd::prelude::*;

verus! {

broadcast use {
    steps_leave_untouched,
    entries_leave_untouched,
    reaching_leaves_untouched,
    ending_leaves_untouched,
};

proof fn untouched_is_older(block: usize, s: Lowering)
    requires
        untouched(block, s),
    ensures
        block < s.ops.len(),
        s.block != block,
{
    reveal(untouched);
}

/// What goes on only in its own blocks leaves older ones untouched.
proof fn own_blocks_leave_untouched(block: usize, before: Lowering, after: Lowering)
    requires
        untouched(block, before),
        after.ops.len() <= usize::MAX,
        extends(before.ops, after.ops),
        enters_from(before.ops.len(), before.ops, after.ops),
        stands_from(before.ops.len(), before, after),
        after.labels == before.labels,
        after.switch_cases == before.switch_cases,
    ensures
        untouched(block, after),
{
    reveal(untouched);
    assert forall|i: int| 0 <= i < after.ops.len() implies #[trigger] after.ops[i] != (
    Op::SwitchToBlock { block }) by {
        if i < before.ops.len() {
            assert(after.ops[i] == before.ops[i]);
        }
    }
}

/// Whether a construct leaves a block untouched, unless it failed or there are
/// more steps than the machine can number.
pub open spec fn leaves_untouched(block: usize, s: Lowering, done: Done) -> bool {
    untouched(block, s) && done.1 is Ok && done.0.ops.len() <= usize::MAX ==> untouched(
        block,
        done.0,
    )
}

/// Lowering an expression leaves a block untouched that lowering has not gone
/// on in before.
pub proof fn expressions_leave_untouched(block: usize, s: Lowering, e: Expr)
    ensures
        untouched(block, s) && expr_spec(s, e).0.ops.len() <= usize::MAX ==> untouched(
            block,
            expr_spec(s, e).0,
        ),
        untouched(block, s) && condition_spec(s, e).0.ops.len() <= usize::MAX ==> untouched(
            block,
            condition_spec(s, e).0,
        ),
{
    expression_is_lowered_soundly(s, e);
    condition_is_sound(s, e);
    if untouched(block, s) && expr_spec(s, e).0.ops.len() <= usize::MAX {
        own_blocks_leave_untouched(block, s, expr_spec(s, e).0);
    }
    if untouched(block, s) && condition_spec(s, e).0.ops.len() <= usize::MAX {
        own_blocks_leave_untouched(block, s, condition_spec(s, e).0);
    }
}

proof fn declarations_leave_untouched(
    block: usize,
    s: Lowering,
    declarations: Seq<Declaration>,
    index: nat,
)
    ensures
        leaves_untouched(block, s, declarations_spec(s, declarations, index)),
    decreases declarations.len() - index,
{
    if index < declarations.len() {
        local_is_lowered_soundly(s, declarations[index as int]);
        if let (s1, Ok(_)) = local_spec(s, declarations[index as int]) {
            declarations_are_sound(s1, declarations, index + 1);
            declarations_leave_untouched(block, s1, declarations, index + 1);
            if untouched(block, s) && s1.ops.len() <= usize::MAX {
                own_blocks_leave_untouched(block, s, s1);
            }
        }
    }
}

proof fn returns_leave_untouched(
    block: usize,
    s: Lowering,
    value: Option<Expr>,
    location: Location,
)
    ensures
        leaves_untouched(block, s, return_spec(s, value, location)),
{
    if let Some(expression) = value {
        expressions_leave_untouched(block, s, expression);
        if let (s1, Ok(result)) = expr_spec(s, expression) {
            if let Some(destination) = s.aggregate_return_address {
                copy_is_sound(s1, destination, result, expression.ctype, location);
                let s2 = copied(s1, destination, result, expression.ctype, location).0;
                if untouched(block, s1) && s2.ops.len() <= usize::MAX {
                    own_blocks_leave_untouched(block, s1, s2);
                }
            }
        }
    }
}

/// Lowering a statement leaves a block untouched that lowering has not gone on
/// in before, and that no label or case leads to.
pub proof fn statements_leave_untouched(block: usize, s: Lowering, statement: Stmt)
    ensures
        leaves_untouched(block, s, stmt_spec(s, statement)),
    decreases statement, 2nat,
{
    match statement.data {
        StmtType::Label(label, inner) => labels_leave_untouched(block, s, label, *inner),
        StmtType::Compound(statements) => lists_leave_untouched(block, s, statements@, 0),
        StmtType::Case(value, inner) => cases_leave_untouched(
            block,
            s,
            value,
            *inner,
            statement.location,
        ),
        StmtType::Default(inner) => cases_leave_untouched(block, s, 0, *inner, statement.location),
        _ => {
            if !s.terminated {
                match statement.data {
                    StmtType::Decl(declarations) => {
                        declarations_leave_untouched(block, s, declarations@, 0);
                    },
                    StmtType::Expr(expression) => {
                        expressions_leave_untouched(block, s, *expression);
                    },
                    StmtType::Return(value) => {
                        let value = match value {
                            Some(expression) => Some(*expression),
                            None => None,
                        };
                        returns_leave_untouched(block, s, value, statement.location);
                    },
                    StmtType::If(_, _, _) => ifs_leave_untouched(block, s, statement),
                    StmtType::Do(body, condition) => {
                        dos_leave_untouched(block, s, *body, *condition);
                    },
                    StmtType::For(_, _, _, _) => fors_leave_untouched(block, s, statement),
                    StmtType::While(condition, body) => {
                        whiles_leave_untouched(block, s, *condition, *body);
                    },
                    StmtType::Goto(label) => naming_leaves_untouched(block, s, label),
                    StmtType::Switch(expression, body) => {
                        switches_leave_untouched(block, s, *expression, *body);
                    },
                    _ => {},
                }
            }
        },
    }
}

proof fn naming_leaves_untouched(block: usize, s: Lowering, label: u32)
    ensures
        ({
            let (after, of_label) = label_block_spec(s, label);
            untouched(block, s) && after.ops.len() <= usize::MAX ==> untouched(block, after)
                && of_label != block
        }),
{
    reveal(untouched);
}

proof fn labels_leave_untouched(block: usize, s: Lowering, label: u32, inner: Stmt)
    ensures
        leaves_untouched(block, s, label_spec(s, label, inner)),
    decreases inner, 3nat,
{
    naming_leaves_untouched(block, s, label);
    let (s1, of_label) = label_block_spec(s, label);
    let s2 = reachable(entered(fallen(s1, of_label), of_label));
    statement_is_lowered_soundly(s2, inner);
    statements_leave_untouched(block, s2, inner);
}

/// Lowering a list of statements leaves untouched what each of them does.
pub proof fn lists_leave_untouched(block: usize, s: Lowering, statements: Seq<Stmt>, index: nat)
    ensures
        leaves_untouched(block, s, statements_spec(s, statements, index)),
    decreases statements, statements.len() - index,
{
    if index < statements.len() {
        statements_leave_untouched(block, s, statements[index as int]);
        if let (s1, Ok(_)) = stmt_spec(s, statements[index as int]) {
            statements_are_lowered_soundly(s1, statements, index + 1);
            lists_leave_untouched(block, s1, statements, index + 1);
        }
    }
}

proof fn case_targets_differ(block: usize, cases: Seq<(u64, usize)>, value: u64, from: nat)
    requires
        forall|i: int| 0 <= i < cases.len() ==> (#[trigger] cases[i]).1 != block,
    ensures
        case_block(cases, value, from) != Some(block),
    decreases cases.len() - from,
{
    if from < cases.len() {
        case_targets_differ(block, cases, value, from + 1);
    }
}

proof fn cases_leave_untouched(
    block: usize,
    s: Lowering,
    value: u64,
    inner: Stmt,
    location: Location,
)
    ensures
        leaves_untouched(block, s, case_spec(s, value, inner, location)),
        leaves_untouched(block, s, default_spec(s, inner, location)),
    decreases inner, 3nat,
{
    if untouched(block, s) {
        reveal(untouched);
        if s.switch_cases.len() > 0 {
            let targets = s.switch_cases[s.switch_cases.len() - 1];
            assert(targets_avoid(targets, block));
            case_targets_differ(block, targets.cases, value, 0);
        }
    }
    if let Some(target) = case_target(s, value) {
        let s1 = reachable(entered(fallen(s, target), target));
        statement_is_lowered_soundly(s1, inner);
        statements_leave_untouched(block, s1, inner);
    }
    if let Some(target) = default_target(s) {
        let s1 = reachable(entered(fallen(s, target), target));
        statement_is_lowered_soundly(s1, inner);
        statements_leave_untouched(block, s1, inner);
    }
}

proof fn ifs_leave_untouched(block: usize, s: Lowering, statement: Stmt)
    requires
        statement.data is If,
    ensures
        leaves_untouched(block, s, if_spec(s, statement)),
    decreases statement, 1nat,
{
    let yes = *statement.data->If_1;
    let no = statement.data->If_2;
    expressions_leave_untouched(block, s, *statement.data->If_0);
    if let (s1, Ok(condition)) = condition_spec(s, *statement.data->If_0) {
        let (s2, yes_block) = emitted(s1, Op::CreateBlock);
        let (s3, no_block) = emitted(s2, Op::CreateBlock);
        let (s4, merge_block) = emitted(s3, Op::CreateBlock);
        let s5 = did(s4, Op::Branch { condition, yes: yes_block, no: no_block });
        let s6 = reachable(entered_sealed(s5, yes_block));
        statement_is_lowered_soundly(s6, yes);
        statements_leave_untouched(block, s6, yes);
        if let (s7, Ok(_)) = stmt_spec(s6, yes) {
            if_rest_is_sound(s7, statement, no_block, merge_block);
            let s8 = reachable(entered_sealed(fallen(s7, merge_block), no_block));
            if let Some(no) = no {
                statement_is_lowered_soundly(s8, *no);
                statements_leave_untouched(block, s8, *no);
            }
            let rest = if_rest(s7, no, no_block, merge_block);
            assert(if_spec(s, statement) == rest);
            if untouched(block, s) && rest.1 is Ok && rest.0.ops.len() <= usize::MAX {
                untouched_is_older(block, s1);
                assert(untouched(block, s6));
                assert(untouched(block, s8));
                assert(untouched(block, rest.0));
            }
        }
    }
}

pub proof fn loops_leave_untouched(
    block: usize,
    s: Lowering,
    body: Stmt,
    next: usize,
    exit: usize,
)
    ensures
        leaves_untouched(block, s, looped(s, body, next, exit)),
    decreases body, 3nat,
{
    let s1 = loop_opened(s, next, exit);
    other_parts_do_not_bear(block, s, s1);
    statement_is_lowered_soundly(s1, body);
    statements_leave_untouched(block, s1, body);
    if let (s2, Ok(_)) = stmt_spec(s1, body) {
        other_parts_do_not_bear(block, s2, loop_closed(s2));
    }
}

proof fn dos_leave_untouched(block: usize, s: Lowering, body: Stmt, condition: Expr)
    ensures
        leaves_untouched(block, s, do_spec(s, body, condition)),
    decreases body, 4nat,
{
    let (s1, body_block) = emitted(s, Op::CreateBlock);
    let (s2, condition_block) = emitted(s1, Op::CreateBlock);
    let (s3, exit) = emitted(s2, Op::CreateBlock);
    let s4 = entered(did(s3, Op::Jump { block: body_block }), body_block);
    loop_body_is_sound(s4, body, condition_block, exit);
    loops_leave_untouched(block, s4, body, condition_block, exit);
    if let (s5, Ok(_)) = looped(s4, body, condition_block, exit) {
        do_rest_is_sound(s5, condition, body_block, condition_block, exit);
        let rest = do_rest(s5, condition, body_block, condition_block, exit);
        assert(do_spec(s, body, condition) == rest);
        let s6 = entered(s5, condition_block);
        condition_follows(s6, condition);
        expressions_leave_untouched(block, s6, condition);
        if untouched(block, s) && rest.1 is Ok && rest.0.ops.len() <= usize::MAX {
            untouched_is_older(block, s);
            assert(untouched(block, s4));
            assert(untouched(block, s6));
            assert(untouched(block, rest.0));
        }
    }
}

proof fn whiles_leave_untouched(block: usize, s: Lowering, condition: Expr, body: Stmt)
    ensures
        leaves_untouched(block, s, while_spec(s, condition, body)),
    decreases body, 4nat,
{
    let (s1, header) = emitted(s, Op::CreateBlock);
    let (s2, body_block) = emitted(s1, Op::CreateBlock);
    let (s3, exit) = emitted(s2, Op::CreateBlock);
    let s4 = entered(did(s3, Op::Jump { block: header }), header);
    condition_follows(s4, condition);
    expressions_leave_untouched(block, s4, condition);
    if let (s5, Ok(value)) = condition_spec(s4, condition) {
        while_from_head_is_sound(s5, body, value, header, body_block, exit);
        let rest = while_from_head(s5, body, value, header, body_block, exit);
        assert(while_spec(s, condition, body) == rest);
        let s6 = did(s5, Op::Branch { condition: value, yes: body_block, no: exit });
        let s7 = entered_sealed(s6, body_block);
        loop_body_is_sound(s7, body, header, exit);
        loops_leave_untouched(block, s7, body, header, exit);
        if untouched(block, s) && rest.1 is Ok && rest.0.ops.len() <= usize::MAX {
            untouched_is_older(block, s);
            assert(untouched(block, s4));
            assert(untouched(block, s7));
            assert(untouched(block, rest.0));
        }
    }
}

proof fn for_rests_leave_untouched(
    block: usize,
    s: Lowering,
    step: Option<Box<Expr>>,
    header: usize,
    step_block: usize,
    exit: usize,
)
    requires
        step_block != block,
        exit != block,
    ensures
        leaves_untouched(block, s, for_rest(s, step, header, step_block, exit)),
{
    let s1 = reachable(entered_sealed(s, step_block));
    if let Some(step) = step {
        expressions_leave_untouched(block, s1, *step);
    }
}

proof fn for_heads_leave_untouched(
    block: usize,
    s: Lowering,
    statement: Stmt,
    header: usize,
    body_block: usize,
    step_block: usize,
    exit: usize,
)
    requires
        statement.data is For,
        body_block != block,
        step_block != block,
        exit != block,
    ensures
        leaves_untouched(
            block,
            s,
            for_from_head(s, statement, header, body_block, step_block, exit),
        ),
    decreases statement, 0nat,
{
    let condition = statement.data->For_1;
    let body = *statement.data->For_3;
    let step = statement.data->For_2;
    for_head_is_sound(s, condition, body_block, exit);
    if let Some(condition) = condition {
        expressions_leave_untouched(block, s, *condition);
    }
    if let (s1, Ok(_)) = for_head_spec(s, condition, body_block, exit) {
        let s2 = entered_sealed(s1, body_block);
        loop_body_is_sound(s2, body, step_block, exit);
        loops_leave_untouched(block, s2, body, step_block, exit);
        if let (s3, Ok(_)) = looped(s2, body, step_block, exit) {
            for_rest_is_sound(s3, step, header, step_block, exit);
            for_rests_leave_untouched(block, s3, step, header, step_block, exit);
        }
    }
}

proof fn fors_leave_untouched(block: usize, s: Lowering, statement: Stmt)
    requires
        statement.data is For,
    ensures
        leaves_untouched(block, s, for_spec(s, statement)),
    decreases statement, 1nat,
{
    let init = *statement.data->For_0;
    statement_is_lowered_soundly(s, init);
    statements_leave_untouched(block, s, init);
    if let (s1, Ok(_)) = stmt_spec(s, init) {
        if !s1.terminated {
            let (s2, header, body_block, step_block, exit) = for_opened(s1);
            for_opening_is_sound(s1);
            for_from_head_is_sound(s2, statement, header, body_block, step_block, exit);
            let rest = for_from_head(s2, statement, header, body_block, step_block, exit);
            assert(for_spec(s, statement) == rest);
            if untouched(block, s) && rest.1 is Ok && rest.0.ops.len() <= usize::MAX {
                assert(untouched(block, s1));
                untouched_is_older(block, s1);
                assert(untouched(block, s2));
                for_heads_leave_untouched(
                    block,
                    s2,
                    statement,
                    header,
                    body_block,
                    step_block,
                    exit,
                );
            }
        }
    }
}

proof fn case_blocks_leave_untouched(
    block: usize,
    s: Lowering,
    values: Seq<u64>,
    index: nat,
    cases: Seq<(u64, usize)>,
)
    ensures
        ({
            let (after, result) = case_blocks_spec(s, values, index, cases);
            untouched(block, s) && after.ops.len() <= usize::MAX && (forall|i: int|
                0 <= i < cases.len() ==> (#[trigger] cases[i]).1 != block) ==> {
                &&& untouched(block, after)
                &&& forall|i: int| 0 <= i < result.len() ==> (#[trigger] result[i]).1 != block
            }
        }),
    decreases values.len() - index,
{
    if index < values.len() {
        let value = values[index as int];
        if case_block(cases, value, 0) is Some {
            case_blocks_leave_untouched(block, s, values, index + 1, cases);
        } else {
            let (s1, made) = emitted(s, Op::CreateBlock);
            case_blocks_are_sound(s1, values, index + 1, cases.push((value, made)));
            case_blocks_leave_untouched(block, s1, values, index + 1, cases.push((value, made)));
            if untouched(block, s) {
                untouched_is_older(block, s);
            }
        }
    }
}

pub proof fn dispatches_leave_untouched(
    block: usize,
    s: Lowering,
    selector: usize,
    ty: IrType,
    cases: Seq<(u64, usize)>,
    index: nat,
    dispatch: usize,
)
    ensures
        ({
            let (after, last) = dispatch_spec(s, selector, ty, cases, index, dispatch);
            untouched(block, s) && dispatch != block && after.ops.len() <= usize::MAX
                ==> untouched(block, after) && last != block
        }),
    decreases cases.len() - index,
{
    if index < cases.len() {
        let (value, target) = cases[index as int];
        let s0 = if index == 0 {
            s
        } else {
            entered(s, dispatch)
        };
        let (s1, next) = emitted(s0, Op::CreateBlock);
        let (s2, constant) = emitted(s1, Op::Iconst { ty, value: value as i64 });
        let (s3, condition) = emitted(
            s2,
            Op::CompareInt { condition: IntCC::Equal, left: selector, right: constant },
        );
        let s4 = did(s3, Op::Branch { condition, yes: target, no: next });
        dispatch_is_sound(s4, selector, ty, cases, index + 1, next);
        dispatches_leave_untouched(block, s4, selector, ty, cases, index + 1, next);
        if untouched(block, s) && dispatch != block {
            untouched_is_older(block, s0);
        }
    }
}

proof fn switch_heads_leave_untouched(block: usize, s: Lowering, selector: usize, body: Stmt)
    ensures
        ({
            let (after, targets, exit) = switch_head_spec(s, selector, body);
            untouched(block, s) && after.ops.len() <= usize::MAX ==> {
                &&& untouched(block, after)
                &&& targets_avoid(targets, block)
                &&& exit != block
            }
        }),
{
    let ty = type_of_value(s, selector);
    let labels = labels_spec(body, SwitchLabels { values: Seq::empty(), has_default: false });
    case_blocks_are_sound(s, labels.values, 0, Seq::empty());
    case_blocks_leave_untouched(block, s, labels.values, 0, Seq::empty());
    let (s1, cases) = case_blocks_spec(s, labels.values, 0, Seq::empty());
    let (s2, default) = if labels.has_default {
        let (s2, made) = emitted(s1, Op::CreateBlock);
        (s2, Some(made))
    } else {
        (s1, None)
    };
    let (s3, exit) = emitted(s2, Op::CreateBlock);
    dispatch_is_sound(s3, selector, ty, cases, 0, s3.block);
    dispatches_leave_untouched(block, s3, selector, ty, cases, 0, s3.block);
    let (s4, dispatch) = dispatch_spec(s3, selector, ty, cases, 0, s3.block);
    let (after, targets, last) = switch_head_spec(s, selector, body);
    if untouched(block, s) && after.ops.len() <= usize::MAX {
        assert(s4.ops.len() <= after.ops.len());
        assert(untouched(block, s1));
        untouched_is_older(block, s1);
        assert(untouched(block, s3));
        untouched_is_older(block, s3);
        assert(untouched(block, s4));
        assert(untouched(block, after));
    }
}

proof fn switches_leave_untouched(block: usize, s: Lowering, expression: Expr, body: Stmt)
    ensures
        leaves_untouched(block, s, switch_spec(s, expression, body)),
    decreases body, 3nat,
{
    expressions_leave_untouched(block, s, expression);
    if let (s1, Ok(selector)) = expr_spec(s, expression) {
        switch_head_is_sound(s1, selector, body);
        switch_heads_leave_untouched(block, s1, selector, body);
        let (s2, targets, exit) = switch_head_spec(s1, selector, body);
        let s3 = switch_opened(s2, targets, exit);
        statement_is_lowered_soundly(s3, body);
        statements_leave_untouched(block, s3, body);
        if let (s4, Ok(_)) = stmt_spec(s3, body) {
            let s5 = switch_closed(s4);
            let s6 = reachable(entered(fallen(s5, exit), exit));
            assert(switch_spec(s, expression, body).0 == s6);
            if untouched(block, s) && s6.ops.len() <= usize::MAX {
                assert(untouched(block, s2));
                opening_leaves_untouched(block, s2, targets, exit);
                assert(untouched(block, s4));
                closing_leaves_untouched(block, s4);
                assert(untouched(block, s6));
            }
        }
    }
}

pub proof fn opening_leaves_untouched(block: usize, s: Lowering, targets: SwitchView, exit: usize)
    requires
        untouched(block, s),
        targets_avoid(targets, block),
    ensures
        untouched(block, switch_opened(s, targets, exit)),
{
    reveal(untouched);
    let after = switch_opened(s, targets, exit);
    assert forall|i: int| 0 <= i < after.switch_cases.len() implies targets_avoid(
        #[trigger] after.switch_cases[i],
        block,
    ) by {
        if i < s.switch_cases.len() {
            assert(after.switch_cases[i] == s.switch_cases[i]);
        }
    }
}

pub proof fn closing_leaves_untouched(block: usize, s: Lowering)
    requires
        untouched(block, s),
    ensures
        untouched(block, switch_closed(s)),
{
    reveal(untouched);
    let after = switch_closed(s);
    assert forall|i: int| 0 <= i < after.switch_cases.len() implies targets_avoid(
        #[trigger] after.switch_cases[i],
        block,
    ) by {
        assert(after.switch_cases[i] == s.switch_cases[i]);
    }
}

} // verus!
