//! What lowering a statement keeps.

use crate::error::Location;
use crate::hir::{Declaration, Expr, Stmt, StmtType, Type};
use crate::ir::{IntCC, IrType, Op};
use crate::lower::expr_laws::{
    condition_is_sound, copy_is_sound, expression_is_lowered_soundly, sealed_entry_is_sound,
};
use crate::lower::expr_model::{condition_spec, expr_spec};
use crate::lower::init_laws::local_is_lowered_soundly;
use crate::lower::init_model::{local_spec, Done};
use crate::lower::laws::{
    block_made, done_soundly, entry_is_sound, grown, label_is_sound, loop_is_closed, loop_is_opened,
    made_soundly, reachability_is_free, same_targets, state_sound, step_is_sound, switch_is_closed,
    switch_is_opened, targets_made, targets_were_made, value_made,
};
use crate::lower::state::{
    case_block, copied, did, emitted, entered, entered_sealed, label_block_spec, type_of_value,
    Lowering,
};
use crate::lower::stmt_model::{
    break_spec, case_blocks_spec, case_spec, case_target, continue_spec, declarations_spec,
    default_spec, default_target, dispatch_spec, do_spec, ended, fallen, for_head_spec, for_spec,
    if_spec, label_spec, labels_spec, loop_closed, loop_opened, reachable, return_spec,
    returned_value, statements_spec, stmt_spec, switch_closed, switch_head_spec, switch_opened,
    switch_spec, while_spec, SwitchLabels,
};
use vstd::prelude::*;

verus! {

broadcast use {step_is_sound, entry_is_sound};

/// Whether a state follows another: it is sound where the other is, and what
/// statements keep was kept.
pub open spec fn follows(s: Lowering, after: Lowering) -> bool {
    &&& grown(s, after)
    &&& same_targets(s, after)
    &&& state_sound(s) && after.ops.len() <= usize::MAX ==> state_sound(after)
}

proof fn block_stays_made(a: Lowering, b: Lowering, block: usize)
    requires
        grown(a, b),
    ensures
        block_made(a, block) ==> block_made(b, block),
{
}

pub proof fn expression_follows(s: Lowering, e: Expr)
    ensures
        follows(s, expr_spec(s, e).0),
        state_sound(s) && expr_spec(s, e).0.ops.len() <= usize::MAX ==> (expr_spec(
            s,
            e,
        ).1 matches Ok(value) ==> value_made(expr_spec(s, e).0, value)),
{
    expression_is_lowered_soundly(s, e);
}

pub proof fn condition_follows(s: Lowering, e: Expr)
    ensures
        follows(s, condition_spec(s, e).0),
        state_sound(s) && condition_spec(s, e).0.ops.len() <= usize::MAX ==> (condition_spec(
            s,
            e,
        ).1 matches Ok(value) ==> value_made(condition_spec(s, e).0, value)),
{
    condition_is_sound(s, e);
}

proof fn jump_is_sound(s: Lowering, block: usize)
    ensures
        grown(s, fallen(s, block)),
        same_targets(s, fallen(s, block)),
        state_sound(s) && block_made(s, block) ==> state_sound(fallen(s, block)),
{
}

proof fn arrival_is_sound(s: Lowering, block: usize)
    ensures
        grown(s, reachable(entered_sealed(s, block))),
        same_targets(s, reachable(entered_sealed(s, block))),
        state_sound(s) && block_made(s, block) ==> state_sound(
            reachable(entered_sealed(s, block)),
        ),
{
    reachability_is_free(entered_sealed(s, block), false);
}

proof fn open_arrival_is_sound(s: Lowering, block: usize)
    ensures
        grown(s, reachable(entered(fallen(s, block), block))),
        same_targets(s, reachable(entered(fallen(s, block), block))),
        state_sound(s) && block_made(s, block) ==> state_sound(
            reachable(entered(fallen(s, block), block)),
        ),
{
    jump_is_sound(s, block);
    reachability_is_free(entered(fallen(s, block), block), false);
}

proof fn three_blocks_are_sound(s: Lowering)
    ensures
        ({
            let (s1, first) = emitted(s, Op::CreateBlock);
            let (s2, second) = emitted(s1, Op::CreateBlock);
            let (s3, third) = emitted(s2, Op::CreateBlock);
            &&& grown(s, s3)
            &&& same_targets(s, s3)
            &&& state_sound(s) && s3.ops.len() <= usize::MAX ==> {
                &&& state_sound(s3)
                &&& block_made(s3, first)
                &&& block_made(s3, second)
                &&& block_made(s3, third)
            }
        }),
{
}

/// Lowering a statement keeps the steps so far and the labels, and, where it
/// succeeds, leaves the same loops and switches open; every step that it adds
/// names only earlier steps of the right kind.
pub proof fn statement_is_lowered_soundly(s: Lowering, statement: Stmt)
    ensures
        done_soundly(s, true, stmt_spec(s, statement)),
    decreases statement, 2nat,
{
    match statement.data {
        StmtType::Label(label, inner) => labelled_is_sound(s, label, *inner),
        StmtType::Compound(statements) => statements_are_lowered_soundly(s, statements@, 0),
        StmtType::Case(value, inner) => case_is_sound(s, value, *inner, statement.location),
        StmtType::Default(inner) => default_is_sound(s, *inner, statement.location),
        _ => {
            if !s.terminated {
                match statement.data {
                    StmtType::Decl(declarations) => declarations_are_sound(s, declarations@, 0),
                    StmtType::Expr(expression) => expression_follows(s, *expression),
                    StmtType::Return(value) => {
                        let value = match value {
                            Some(expression) => Some(*expression),
                            None => None,
                        };
                        return_is_sound(s, value, statement.location);
                    },
                    StmtType::If(_, _, _) => if_is_sound(s, statement),
                    StmtType::Do(body, condition) => do_is_sound(s, *body, *condition),
                    StmtType::For(_, _, _, _) => for_is_sound(s, statement),
                    StmtType::While(condition, body) => while_is_sound(s, *condition, *body),
                    StmtType::Goto(label) => goto_is_sound(s, label),
                    StmtType::Switch(expression, body) => switch_is_sound(s, *expression, *body),
                    StmtType::Break => jump_out_is_sound(s, statement.location),
                    StmtType::Continue => jump_out_is_sound(s, statement.location),
                    _ => {},
                }
            }
        },
    }
}

proof fn jump_out_is_sound(s: Lowering, location: Location)
    ensures
        done_soundly(s, true, break_spec(s, location)),
        done_soundly(s, true, continue_spec(s, location)),
{
    if state_sound(s) {
        targets_were_made(s);
    }
    if s.break_targets.len() > 0 {
        reachability_is_free(did(s, Op::Jump { block: s.break_targets.last() }), true);
    }
    if s.loop_targets.len() > 0 {
        reachability_is_free(did(s, Op::Jump { block: s.loop_targets.last().0 }), true);
    }
}

proof fn goto_is_sound(s: Lowering, label: u32)
    ensures
        ({
            let (s1, block) = label_block_spec(s, label);
            done_soundly(s, true, (ended(did(s1, Op::Jump { block })), Ok(())))
        }),
{
    label_is_sound(s, label);
    let (s1, block) = label_block_spec(s, label);
    reachability_is_free(did(s1, Op::Jump { block }), true);
}

/// Lowering a list of statements keeps what lowering each of them keeps.
pub proof fn statements_are_lowered_soundly(s: Lowering, statements: Seq<Stmt>, index: nat)
    ensures
        done_soundly(s, true, statements_spec(s, statements, index)),
    decreases statements, statements.len() - index,
{
    if index < statements.len() {
        statement_is_lowered_soundly(s, statements[index as int]);
        if let (s1, Ok(_)) = stmt_spec(s, statements[index as int]) {
            statements_are_lowered_soundly(s1, statements, index + 1);
        }
    }
}

pub proof fn declarations_are_sound(s: Lowering, declarations: Seq<Declaration>, index: nat)
    ensures
        done_soundly(s, true, declarations_spec(s, declarations, index)),
    decreases declarations.len() - index,
{
    if index < declarations.len() {
        local_is_lowered_soundly(s, declarations[index as int]);
        if let (s1, Ok(_)) = local_spec(s, declarations[index as int]) {
            declarations_are_sound(s1, declarations, index + 1);
        }
    }
}

proof fn labelled_is_sound(s: Lowering, label: u32, inner: Stmt)
    ensures
        done_soundly(s, true, label_spec(s, label, inner)),
    decreases inner, 3nat,
{
    label_is_sound(s, label);
    let (s1, block) = label_block_spec(s, label);
    assert(grown(s, s1));
    open_arrival_is_sound(s1, block);
    let s2 = reachable(entered(fallen(s1, block), block));
    assert(follows(s, s2));
    statement_is_lowered_soundly(s2, inner);
}

proof fn returned_value_is_sound(s: Lowering, value: usize, ctype: Type)
    ensures
        made_soundly(s, value_made(s, value), returned_value(s, value, ctype)),
{
}

proof fn return_is_sound(s: Lowering, value: Option<Expr>, location: Location)
    ensures
        done_soundly(s, true, return_spec(s, value, location)),
{
    match (s.aggregate_return_address, value) {
        (Some(destination), Some(expression)) => {
            expression_follows(s, expression);
            if let (s1, Ok(source)) = expr_spec(s, expression) {
                if state_sound(s) {
                    targets_were_made(s);
                }
                copy_is_sound(s1, destination, source, expression.ctype, location);
                let s2 = copied(s1, destination, source, expression.ctype, location).0;
                reachability_is_free(did(s2, Op::Return), true);
            }
        },
        (None, Some(expression)) => {
            expression_follows(s, expression);
            if let (s1, Ok(value)) = expr_spec(s, expression) {
                returned_value_is_sound(s1, value, expression.ctype);
                let (s2, value) = returned_value(s1, value, expression.ctype);
                reachability_is_free(did(s2, Op::ReturnValue { value }), true);
            }
        },
        (None, None) => {
            reachability_is_free(did(s, Op::Return), true);
        },
        _ => {},
    }
}

/// The rest of an `if` after its first branch.
pub open spec fn if_rest(
    s: Lowering,
    no: Option<Box<Stmt>>,
    no_block: usize,
    merge_block: usize,
) -> Done {
    let yes_ended = s.terminated;
    let s = reachable(entered_sealed(fallen(s, merge_block), no_block));
    let lowered = match no {
        Some(no) => stmt_spec(s, *no),
        None => (s, Ok(())),
    };
    match lowered {
        (s, Err(error)) => (s, Err(error)),
        (s, Ok(_)) => {
            let no_ended = s.terminated;
            let s = fallen(s, merge_block);
            if yes_ended && no_ended {
                (s, Ok(()))
            } else {
                (reachable(entered_sealed(s, merge_block)), Ok(()))
            }
        },
    }
}

pub proof fn if_rest_is_sound(s: Lowering, statement: Stmt, no_block: usize, merge_block: usize)
    requires
        statement.data is If,
    ensures
        done_soundly(
            s,
            block_made(s, no_block) && block_made(s, merge_block),
            if_rest(s, statement.data->If_2, no_block, merge_block),
        ),
    decreases statement, 0nat,
{
    let no = statement.data->If_2;
    jump_is_sound(s, merge_block);
    let s1 = fallen(s, merge_block);
    block_stays_made(s, s1, no_block);
    arrival_is_sound(s1, no_block);
    let s2 = reachable(entered_sealed(s1, no_block));
    block_stays_made(s, s2, merge_block);
    let lowered = match no {
        Some(no) => stmt_spec(s2, *no),
        None => (s2, Ok(())),
    };
    if let Some(no) = no {
        statement_is_lowered_soundly(s2, *no);
    }
    if let (s3, Ok(_)) = lowered {
        block_stays_made(s2, s3, merge_block);
        jump_is_sound(s3, merge_block);
        let s4 = fallen(s3, merge_block);
        block_stays_made(s3, s4, merge_block);
        arrival_is_sound(s4, merge_block);
    }
}

proof fn if_is_sound(s: Lowering, statement: Stmt)
    requires
        statement.data is If,
    ensures
        done_soundly(s, true, if_spec(s, statement)),
    decreases statement, 1nat,
{
    let yes = *statement.data->If_1;
    condition_follows(s, *statement.data->If_0);
    if let (s1, Ok(condition)) = condition_spec(s, *statement.data->If_0) {
        three_blocks_are_sound(s1);
        let (s2, yes_block) = emitted(s1, Op::CreateBlock);
        let (s3, no_block) = emitted(s2, Op::CreateBlock);
        let (s4, merge_block) = emitted(s3, Op::CreateBlock);
        let s5 = did(s4, Op::Branch { condition, yes: yes_block, no: no_block });
        assert(grown(s1, s5) && same_targets(s1, s5));
        arrival_is_sound(s5, yes_block);
        let s6 = reachable(entered_sealed(s5, yes_block));
        assert(follows(s, s6));
        statement_is_lowered_soundly(s6, yes);
        if let (s7, Ok(_)) = stmt_spec(s6, yes) {
            block_stays_made(s4, s7, no_block);
            block_stays_made(s4, s7, merge_block);
            if_rest_is_sound(s7, statement, no_block, merge_block);
            let rest = if_rest(s7, statement.data->If_2, no_block, merge_block);
            assert(if_spec(s, statement) == rest);
        }
    }
}

/// A loop body between the steps that open and close the loop.
pub open spec fn looped(s: Lowering, body: Stmt, next: usize, exit: usize) -> Done {
    match stmt_spec(loop_opened(s, next, exit), body) {
        (s, Err(error)) => (s, Err(error)),
        (s, Ok(_)) => (fallen(loop_closed(s), next), Ok(())),
    }
}

pub proof fn loop_body_is_sound(s: Lowering, body: Stmt, next: usize, exit: usize)
    ensures
        done_soundly(
            s,
            block_made(s, next) && block_made(s, exit),
            looped(s, body, next, exit),
        ),
    decreases body, 3nat,
{
    loop_is_opened(s, next, exit);
    let s1 = loop_opened(s, next, exit);
    statement_is_lowered_soundly(s1, body);
    if let (s2, Ok(_)) = stmt_spec(s1, body) {
        loop_is_closed(s2);
        let s3 = loop_closed(s2);
        assert(s3.loop_targets =~= s.loop_targets);
        assert(s3.break_targets =~= s.break_targets);
        block_stays_made(s, s3, next);
        jump_is_sound(s3, next);
    }
}

/// The end of a `do` loop, from its body's end on.
pub open spec fn do_rest(
    s: Lowering,
    condition: Expr,
    body_block: usize,
    condition_block: usize,
    exit: usize,
) -> Done {
    match condition_spec(entered(s, condition_block), condition) {
        (s, Err(error)) => (s, Err(error)),
        (s, Ok(condition)) => {
            let s = did(s, Op::Branch { condition, yes: body_block, no: exit });
            let s = did(s, Op::SealBlock { block: condition_block });
            let s = did(s, Op::SealBlock { block: body_block });
            (reachable(entered_sealed(s, exit)), Ok(()))
        },
    }
}

pub proof fn do_rest_is_sound(
    s: Lowering,
    condition: Expr,
    body_block: usize,
    condition_block: usize,
    exit: usize,
)
    ensures
        done_soundly(
            s,
            block_made(s, body_block) && block_made(s, condition_block) && block_made(s, exit),
            do_rest(s, condition, body_block, condition_block, exit),
        ),
{
    let s1 = entered(s, condition_block);
    assert(grown(s, s1) && same_targets(s, s1));
    condition_follows(s1, condition);
    if let (s2, Ok(value)) = condition_spec(s1, condition) {
        block_stays_made(s, s2, body_block);
        block_stays_made(s, s2, condition_block);
        block_stays_made(s, s2, exit);
        let s3 = did(s2, Op::Branch { condition: value, yes: body_block, no: exit });
        let s4 = did(s3, Op::SealBlock { block: condition_block });
        let s5 = did(s4, Op::SealBlock { block: body_block });
        assert(grown(s2, s5) && same_targets(s2, s5));
        arrival_is_sound(s5, exit);
    }
}

proof fn do_is_sound(s: Lowering, body: Stmt, condition: Expr)
    ensures
        done_soundly(s, true, do_spec(s, body, condition)),
    decreases body, 4nat,
{
    three_blocks_are_sound(s);
    let (s1, body_block) = emitted(s, Op::CreateBlock);
    let (s2, condition_block) = emitted(s1, Op::CreateBlock);
    let (s3, exit) = emitted(s2, Op::CreateBlock);
    let s4 = entered(did(s3, Op::Jump { block: body_block }), body_block);
    assert(grown(s3, s4) && same_targets(s3, s4));
    block_stays_made(s3, s4, condition_block);
    block_stays_made(s3, s4, exit);
    loop_body_is_sound(s4, body, condition_block, exit);
    if let (s5, Ok(_)) = looped(s4, body, condition_block, exit) {
        block_stays_made(s3, s5, body_block);
        block_stays_made(s3, s5, condition_block);
        block_stays_made(s3, s5, exit);
        do_rest_is_sound(s5, condition, body_block, condition_block, exit);
        let rest = do_rest(s5, condition, body_block, condition_block, exit);
        assert(do_spec(s, body, condition) == rest);
    }
}

/// A `while` loop from the branch at its head on.
pub open spec fn while_from_head(
    s: Lowering,
    body: Stmt,
    condition: usize,
    header: usize,
    body_block: usize,
    exit: usize,
) -> Done {
    let s = did(s, Op::Branch { condition, yes: body_block, no: exit });
    match looped(entered_sealed(s, body_block), body, header, exit) {
        (s, Err(error)) => (s, Err(error)),
        (s, Ok(_)) => {
            let s = did(s, Op::SealBlock { block: header });
            (reachable(entered_sealed(s, exit)), Ok(()))
        },
    }
}

pub proof fn while_from_head_is_sound(
    s: Lowering,
    body: Stmt,
    condition: usize,
    header: usize,
    body_block: usize,
    exit: usize,
)
    ensures
        done_soundly(
            s,
            value_made(s, condition) && block_made(s, header) && block_made(s, body_block)
                && block_made(s, exit),
            while_from_head(s, body, condition, header, body_block, exit),
        ),
    decreases body, 4nat,
{
    let s1 = did(s, Op::Branch { condition, yes: body_block, no: exit });
    sealed_entry_is_sound(s1, body_block);
    let s2 = entered_sealed(s1, body_block);
    assert(grown(s, s2) && same_targets(s, s2));
    block_stays_made(s, s2, header);
    block_stays_made(s, s2, exit);
    loop_body_is_sound(s2, body, header, exit);
    if let (s3, Ok(_)) = looped(s2, body, header, exit) {
        block_stays_made(s2, s3, header);
        block_stays_made(s2, s3, exit);
        let s4 = did(s3, Op::SealBlock { block: header });
        assert(grown(s3, s4) && same_targets(s3, s4));
        arrival_is_sound(s4, exit);
    }
}

proof fn while_is_sound(s: Lowering, condition: Expr, body: Stmt)
    ensures
        done_soundly(s, true, while_spec(s, condition, body)),
    decreases body, 5nat,
{
    three_blocks_are_sound(s);
    let (s1, header) = emitted(s, Op::CreateBlock);
    let (s2, body_block) = emitted(s1, Op::CreateBlock);
    let (s3, exit) = emitted(s2, Op::CreateBlock);
    let s4 = entered(did(s3, Op::Jump { block: header }), header);
    assert(grown(s3, s4) && same_targets(s3, s4));
    condition_follows(s4, condition);
    if let (s5, Ok(value)) = condition_spec(s4, condition) {
        block_stays_made(s3, s5, header);
        block_stays_made(s3, s5, body_block);
        block_stays_made(s3, s5, exit);
        while_from_head_is_sound(s5, body, value, header, body_block, exit);
        let rest = while_from_head(s5, body, value, header, body_block, exit);
        assert(while_spec(s, condition, body) == rest);
    }
}

pub proof fn for_head_is_sound(
    s: Lowering,
    condition: Option<Box<Expr>>,
    body_block: usize,
    exit: usize,
)
    ensures
        done_soundly(
            s,
            block_made(s, body_block) && block_made(s, exit),
            for_head_spec(s, condition, body_block, exit),
        ),
{
    if let Some(condition) = condition {
        condition_follows(s, *condition);
        if let (s1, Ok(_)) = condition_spec(s, *condition) {
            block_stays_made(s, s1, body_block);
            block_stays_made(s, s1, exit);
        }
    }
}

/// The end of a `for` loop, from its body's end on.
pub open spec fn for_rest(
    s: Lowering,
    step: Option<Box<Expr>>,
    header: usize,
    step_block: usize,
    exit: usize,
) -> Done {
    let s = reachable(entered_sealed(s, step_block));
    let stepped = match step {
        Some(step) => expr_spec(s, *step),
        None => (s, Ok(0usize)),
    };
    match stepped {
        (s, Err(error)) => (s, Err(error)),
        (s, Ok(_)) => {
            let s = did(s, Op::Jump { block: header });
            let s = did(s, Op::SealBlock { block: header });
            (reachable(entered_sealed(s, exit)), Ok(()))
        },
    }
}

pub proof fn for_rest_is_sound(
    s: Lowering,
    step: Option<Box<Expr>>,
    header: usize,
    step_block: usize,
    exit: usize,
)
    ensures
        done_soundly(
            s,
            block_made(s, header) && block_made(s, step_block) && block_made(s, exit),
            for_rest(s, step, header, step_block, exit),
        ),
{
    arrival_is_sound(s, step_block);
    let s1 = reachable(entered_sealed(s, step_block));
    let stepped = match step {
        Some(step) => expr_spec(s1, *step),
        None => (s1, Ok(0usize)),
    };
    if let Some(step) = step {
        expression_follows(s1, *step);
    }
    if let (s2, Ok(_)) = stepped {
        block_stays_made(s, s2, header);
        block_stays_made(s, s2, exit);
        let s3 = did(did(s2, Op::Jump { block: header }), Op::SealBlock { block: header });
        assert(grown(s2, s3) && same_targets(s2, s3));
        arrival_is_sound(s3, exit);
    }
}

/// A `for` loop from the head on.
pub open spec fn for_from_head(
    s: Lowering,
    statement: Stmt,
    header: usize,
    body_block: usize,
    step_block: usize,
    exit: usize,
) -> Done {
    match for_head_spec(s, statement.data->For_1, body_block, exit) {
        (s, Err(error)) => (s, Err(error)),
        (s, Ok(_)) => match looped(
            entered_sealed(s, body_block),
            *statement.data->For_3,
            step_block,
            exit,
        ) {
            (s, Err(error)) => (s, Err(error)),
            (s, Ok(_)) => for_rest(s, statement.data->For_2, header, step_block, exit),
        },
    }
}

pub proof fn for_from_head_is_sound(
    s: Lowering,
    statement: Stmt,
    header: usize,
    body_block: usize,
    step_block: usize,
    exit: usize,
)
    requires
        statement.data is For,
    ensures
        done_soundly(
            s,
            block_made(s, header) && block_made(s, body_block) && block_made(s, step_block)
                && block_made(s, exit),
            for_from_head(s, statement, header, body_block, step_block, exit),
        ),
    decreases statement, 0nat,
{
    let condition = statement.data->For_1;
    let body = *statement.data->For_3;
    for_head_is_sound(s, condition, body_block, exit);
    if let (s1, Ok(_)) = for_head_spec(s, condition, body_block, exit) {
        block_stays_made(s, s1, body_block);
        sealed_entry_is_sound(s1, body_block);
        let s2 = entered_sealed(s1, body_block);
        assert(grown(s1, s2) && same_targets(s1, s2));
        block_stays_made(s, s2, step_block);
        block_stays_made(s, s2, exit);
        loop_body_is_sound(s2, body, step_block, exit);
        if let (s3, Ok(_)) = looped(s2, body, step_block, exit) {
            block_stays_made(s, s3, header);
            block_stays_made(s, s3, step_block);
            block_stays_made(s, s3, exit);
            for_rest_is_sound(s3, statement.data->For_2, header, step_block, exit);
        }
    }
}

/// The blocks of a `for` loop, up to its head.
pub open spec fn for_opened(s: Lowering) -> (Lowering, usize, usize, usize, usize) {
    let (s, header) = emitted(s, Op::CreateBlock);
    let (s, body_block) = emitted(s, Op::CreateBlock);
    let (s, step_block) = emitted(s, Op::CreateBlock);
    let (s, exit) = emitted(s, Op::CreateBlock);
    let s = entered(did(s, Op::Jump { block: header }), header);
    (s, header, body_block, step_block, exit)
}

pub proof fn for_opening_is_sound(s: Lowering)
    ensures
        ({
            let (after, header, body_block, step_block, exit) = for_opened(s);
            &&& grown(s, after)
            &&& same_targets(s, after)
            &&& state_sound(s) && after.ops.len() <= usize::MAX ==> {
                &&& state_sound(after)
                &&& block_made(after, header)
                &&& block_made(after, body_block)
                &&& block_made(after, step_block)
                &&& block_made(after, exit)
            }
        }),
{
}

proof fn for_is_sound(s: Lowering, statement: Stmt)
    requires
        statement.data is For,
    ensures
        done_soundly(s, true, for_spec(s, statement)),
    decreases statement, 1nat,
{
    let init = *statement.data->For_0;
    statement_is_lowered_soundly(s, init);
    if let (s1, Ok(_)) = stmt_spec(s, init) {
        if !s1.terminated {
            for_opening_is_sound(s1);
            let (s6, header, body_block, step_block, exit) = for_opened(s1);
            for_from_head_is_sound(s6, statement, header, body_block, step_block, exit);
            let rest = for_from_head(s6, statement, header, body_block, step_block, exit);
            assert(for_spec(s, statement) == rest);
        }
    }
}

/// Whether the block of each case was made.
pub open spec fn cases_made(s: Lowering, cases: Seq<(u64, usize)>) -> bool {
    forall|i: int| 0 <= i < cases.len() ==> block_made(s, (#[trigger] cases[i]).1)
}

pub proof fn case_blocks_are_sound(
    s: Lowering,
    values: Seq<u64>,
    index: nat,
    cases: Seq<(u64, usize)>,
)
    ensures
        ({
            let (after, result) = case_blocks_spec(s, values, index, cases);
            &&& grown(s, after)
            &&& same_targets(s, after)
            &&& state_sound(s) && cases_made(s, cases) && after.ops.len() <= usize::MAX ==> {
                &&& state_sound(after)
                &&& cases_made(after, result)
            }
        }),
    decreases values.len() - index,
{
    if index < values.len() {
        let value = values[index as int];
        if case_block(cases, value, 0) is Some {
            case_blocks_are_sound(s, values, index + 1, cases);
        } else {
            let (s1, block) = emitted(s, Op::CreateBlock);
            assert(grown(s, s1) && same_targets(s, s1));
            case_blocks_are_sound(s1, values, index + 1, cases.push((value, block)));
        }
    }
}

proof fn case_test_is_sound(
    s: Lowering,
    selector: usize,
    ty: IrType,
    value: u64,
    target: usize,
)
    ensures
        ({
            let (s1, next) = emitted(s, Op::CreateBlock);
            let (s2, constant) = emitted(s1, Op::Iconst { ty, value: value as i64 });
            let (s3, condition) = emitted(
                s2,
                Op::CompareInt { condition: IntCC::Equal, left: selector, right: constant },
            );
            let s4 = did(s3, Op::Branch { condition, yes: target, no: next });
            &&& grown(s, s4)
            &&& same_targets(s, s4)
            &&& state_sound(s) && value_made(s, selector) && block_made(s, target)
                && s4.ops.len() <= usize::MAX ==> {
                &&& state_sound(s4)
                &&& block_made(s4, next)
                &&& value_made(s4, selector)
            }
        }),
{
}

pub proof fn dispatch_is_sound(
    s: Lowering,
    selector: usize,
    ty: IrType,
    cases: Seq<(u64, usize)>,
    index: nat,
    dispatch: usize,
)
    ensures
        ({
            let (after, block) = dispatch_spec(s, selector, ty, cases, index, dispatch);
            &&& grown(s, after)
            &&& same_targets(s, after)
            &&& state_sound(s) && value_made(s, selector) && cases_made(s, cases) && block_made(
                s,
                dispatch,
            ) && after.ops.len() <= usize::MAX ==> {
                &&& state_sound(after)
                &&& block_made(after, block)
            }
        }),
    decreases cases.len() - index,
{
    if index < cases.len() {
        let (value, target) = cases[index as int];
        let s0 = if index == 0 {
            s
        } else {
            entered(s, dispatch)
        };
        assert(grown(s, s0) && same_targets(s, s0));
        case_test_is_sound(s0, selector, ty, value, target);
        let (s1, next) = emitted(s0, Op::CreateBlock);
        let (s2, constant) = emitted(s1, Op::Iconst { ty, value: value as i64 });
        let (s3, condition) = emitted(
            s2,
            Op::CompareInt { condition: IntCC::Equal, left: selector, right: constant },
        );
        let s4 = did(s3, Op::Branch { condition, yes: target, no: next });
        assert(cases_made(s, cases) ==> cases_made(s4, cases));
        dispatch_is_sound(s4, selector, ty, cases, index + 1, next);
    }
}

pub proof fn switch_head_is_sound(s: Lowering, selector: usize, body: Stmt)
    ensures
        ({
            let (after, targets, exit) = switch_head_spec(s, selector, body);
            &&& grown(s, after)
            &&& same_targets(s, after)
            &&& state_sound(s) && value_made(s, selector) && after.ops.len() <= usize::MAX ==> {
                &&& state_sound(after)
                &&& targets_made(after, targets)
                &&& block_made(after, exit)
            }
        }),
{
    let ty = type_of_value(s, selector);
    let labels = labels_spec(body, SwitchLabels { values: Seq::empty(), has_default: false });
    case_blocks_are_sound(s, labels.values, 0, Seq::empty());
    let (s1, cases) = case_blocks_spec(s, labels.values, 0, Seq::empty());
    let (s2, default) = if labels.has_default {
        let (s2, block) = emitted(s1, Op::CreateBlock);
        (s2, Some(block))
    } else {
        (s1, None)
    };
    let (s3, exit) = emitted(s2, Op::CreateBlock);
    assert(grown(s1, s3) && same_targets(s1, s3));
    if state_sound(s3) {
        targets_were_made(s3);
    }
    assert(cases_made(s1, cases) ==> cases_made(s3, cases));
    dispatch_is_sound(s3, selector, ty, cases, 0, s3.block);
    let (s4, dispatch) = dispatch_spec(s3, selector, ty, cases, 0, s3.block);
    assert(cases_made(s3, cases) ==> cases_made(s4, cases));
    let s5 = entered(s4, dispatch);
    assert(grown(s4, s5) && same_targets(s4, s5));
    block_stays_made(s3, s5, exit);
    if let Some(block) = default {
        block_stays_made(s3, s5, block);
    }
    assert(cases_made(s4, cases) ==> cases_made(s5, cases));
    let s6 = did(
        s5,
        Op::Jump {
            block: match default {
                Some(block) => block,
                None => exit,
            },
        },
    );
    assert(grown(s5, s6) && same_targets(s5, s6));
    assert(cases_made(s5, cases) ==> cases_made(s6, cases));
}

pub proof fn switch_is_sound(s: Lowering, expression: Expr, body: Stmt)
    ensures
        done_soundly(s, true, switch_spec(s, expression, body)),
    decreases body, 3nat,
{
    expression_follows(s, expression);
    if let (s1, Ok(selector)) = expr_spec(s, expression) {
        switch_head_is_sound(s1, selector, body);
        let (s2, targets, exit) = switch_head_spec(s1, selector, body);
        switch_is_opened(s2, targets, exit);
        let s3 = switch_opened(s2, targets, exit);
        statement_is_lowered_soundly(s3, body);
        if let (s4, Ok(_)) = stmt_spec(s3, body) {
            switch_is_closed(s4);
            let s5 = switch_closed(s4);
            assert(s5.switch_cases =~= s2.switch_cases);
            assert(s5.break_targets =~= s2.break_targets);
            block_stays_made(s2, s5, exit);
            open_arrival_is_sound(s5, exit);
        }
    }
}

proof fn case_block_is_made(s: Lowering, cases: Seq<(u64, usize)>, value: u64, from: nat)
    requires
        cases_made(s, cases),
    ensures
        case_block(cases, value, from) matches Some(block) ==> block_made(s, block),
    decreases cases.len() - from,
{
    if from < cases.len() {
        case_block_is_made(s, cases, value, from + 1);
    }
}

proof fn case_is_sound(s: Lowering, value: u64, inner: Stmt, location: Location)
    ensures
        done_soundly(s, true, case_spec(s, value, inner, location)),
    decreases inner, 3nat,
{
    if let Some(target) = case_target(s, value) {
        if state_sound(s) {
            targets_were_made(s);
            case_block_is_made(s, s.switch_cases.last().cases, value, 0);
        }
        open_arrival_is_sound(s, target);
        statement_is_lowered_soundly(reachable(entered(fallen(s, target), target)), inner);
    }
}

proof fn default_is_sound(s: Lowering, inner: Stmt, location: Location)
    ensures
        done_soundly(s, true, default_spec(s, inner, location)),
    decreases inner, 3nat,
{
    if let Some(target) = default_target(s) {
        if state_sound(s) {
            targets_were_made(s);
        }
        open_arrival_is_sound(s, target);
        statement_is_lowered_soundly(reachable(entered(fallen(s, target), target)), inner);
    }
}

} // verus!
