//! The steps that each form of statement stands for.

use crate::error::{unsupported_view, Location};
use crate::hir::{Declaration, Expr, Stmt, StmtType, Type};
use crate::ir::{IntCC, IrType, Op, UnaryInst};
use crate::lower::expr_model::{condition_spec, expr_spec};
use crate::lower::init_model::{local_spec, Done};
use crate::lower::state::{
    case_block, copied, did, emitted, entered, entered_sealed, extension, label_block_spec,
    type_of_value, Lowering, SwitchView,
};
use crate::types::by_value_aggregate;
use vstd::prelude::*;

verus! {

/// The name of a kind of statement.
pub open spec fn kind_name(statement: Stmt) -> Seq<char> {
    match statement.data {
        StmtType::Compound(_) => "compound"@,
        StmtType::If(_, _, _) => "if"@,
        StmtType::Do(_, _) => "do"@,
        StmtType::While(_, _) => "while"@,
        StmtType::For(_, _, _, _) => "for"@,
        StmtType::Switch(_, _) => "switch"@,
        StmtType::Label(_, _) => "label"@,
        StmtType::Case(_, _) => "case"@,
        StmtType::Default(_) => "default"@,
        StmtType::Expr(_) => "expr"@,
        StmtType::Goto(_) => "goto"@,
        StmtType::Continue => "continue"@,
        StmtType::Break => "break"@,
        StmtType::Return(_) => "return"@,
        StmtType::Decl(_) => "decl"@,
    }
}

/// A list without its last item, if it has one.
pub open spec fn popped<T>(items: Seq<T>) -> Seq<T> {
    if items.len() > 0 {
        items.drop_last()
    } else {
        items
    }
}

/// The state with one more open loop.
pub open spec fn loop_opened(s: Lowering, next: usize, exit: usize) -> Lowering {
    Lowering {
        loop_targets: s.loop_targets.push((next, exit)),
        break_targets: s.break_targets.push(exit),
        terminated: false,
        ..s
    }
}

/// The state without the innermost loop.
pub open spec fn loop_closed(s: Lowering) -> Lowering {
    Lowering {
        loop_targets: popped(s.loop_targets),
        break_targets: popped(s.break_targets),
        ..s
    }
}

/// The state with one more open switch, whose dispatch has ended the block.
pub open spec fn switch_opened(s: Lowering, targets: SwitchView, exit: usize) -> Lowering {
    Lowering {
        switch_cases: s.switch_cases.push(targets),
        break_targets: s.break_targets.push(exit),
        terminated: true,
        ..s
    }
}

/// The state without the innermost switch.
pub open spec fn switch_closed(s: Lowering) -> Lowering {
    Lowering {
        switch_cases: popped(s.switch_cases),
        break_targets: popped(s.break_targets),
        ..s
    }
}

/// The state with a jump to `block`, unless the current block has ended.
pub open spec fn fallen(s: Lowering, block: usize) -> Lowering {
    if s.terminated {
        s
    } else {
        did(s, Op::Jump { block })
    }
}

/// The state in which the current block has ended.
pub open spec fn ended(s: Lowering) -> Lowering {
    Lowering { terminated: true, ..s }
}

/// The state in which the current block is reachable.
pub open spec fn reachable(s: Lowering) -> Lowering {
    Lowering { terminated: false, ..s }
}

/// What a statement stands for. After the end of a block, only labels make
/// code reachable again: other statements are skipped.
pub open spec fn stmt_spec(s: Lowering, statement: Stmt) -> Done
    decreases statement, 1nat,
{
    match statement.data {
        StmtType::Label(label, inner) => label_spec(s, label, *inner),
        StmtType::Compound(statements) => statements_spec(s, statements@, 0),
        StmtType::Case(value, inner) => case_spec(s, value, *inner, statement.location),
        StmtType::Default(inner) => default_spec(s, *inner, statement.location),
        _ => if s.terminated {
            (s, Ok(()))
        } else {
            match statement.data {
                StmtType::Decl(declarations) => declarations_spec(s, declarations@, 0),
                StmtType::Expr(expression) => match expr_spec(s, *expression) {
                    (s, Err(error)) => (s, Err(error)),
                    (s, Ok(_)) => (s, Ok(())),
                },
                StmtType::Return(value) => return_spec(
                    s,
                    (match value {
                        Some(expression) => Some(*expression),
                        None => None,
                    }),
                    statement.location,
                ),
                StmtType::If(_, _, _) => if_spec(s, statement),
                StmtType::Do(body, condition) => do_spec(s, *body, *condition),
                StmtType::For(_, _, _, _) => for_spec(s, statement),
                StmtType::While(condition, body) => while_spec(s, *condition, *body),
                StmtType::Break => break_spec(s, statement.location),
                StmtType::Goto(label) => {
                    let (s, block) = label_block_spec(s, label);
                    (ended(did(s, Op::Jump { block })), Ok(()))
                },
                StmtType::Continue => continue_spec(s, statement.location),
                StmtType::Switch(expression, body) => switch_spec(s, *expression, *body),
                _ => (s, Ok(())),
            }
        },
    }
}

/// The statements from `index` on.
pub open spec fn statements_spec(s: Lowering, statements: Seq<Stmt>, index: nat) -> Done
    decreases statements, statements.len() - index,
{
    if index >= statements.len() {
        (s, Ok(()))
    } else {
        match stmt_spec(s, statements[index as int]) {
            (s, Err(error)) => (s, Err(error)),
            (s, Ok(_)) => statements_spec(s, statements, index + 1),
        }
    }
}

/// The declarations from `index` on.
pub open spec fn declarations_spec(
    s: Lowering,
    declarations: Seq<Declaration>,
    index: nat,
) -> Done
    decreases declarations.len() - index,
{
    if index >= declarations.len() {
        (s, Ok(()))
    } else {
        match local_spec(s, declarations[index as int]) {
            (s, Err(error)) => (s, Err(error)),
            (s, Ok(_)) => declarations_spec(s, declarations, index + 1),
        }
    }
}

/// A labelled statement: its block starts here, reachable by `goto` whatever
/// came before.
pub open spec fn label_spec(s: Lowering, label: u32, inner: Stmt) -> Done
    decreases inner, 2nat,
{
    let (s, block) = label_block_spec(s, label);
    stmt_spec(reachable(entered(fallen(s, block), block)), inner)
}

/// A value in the machine type that the function returns.
pub open spec fn returned_value(s: Lowering, value: usize, ctype: Type) -> (Lowering, usize) {
    match s.return_type {
        Some(ty) => {
            let from = type_of_value(s, value);
            if from == ty {
                (s, value)
            } else if from.width() < ty.width() {
                emitted(s, Op::Unary { inst: extension(ctype), ty, value })
            } else {
                emitted(s, Op::Unary { inst: UnaryInst::Ireduce, ty, value })
            }
        },
        None => (s, value),
    }
}

/// A return. An object is copied to where the caller wants it.
pub open spec fn return_spec(s: Lowering, value: Option<Expr>, location: Location) -> Done {
    match (s.aggregate_return_address, value) {
        (Some(_), None) => (
            s,
            Err(
                unsupported_view(
                    location,
                    "aggregate-returning function requires a return value"@,
                ),
            ),
        ),
        (Some(destination), Some(expression)) => if !by_value_aggregate(expression.ctype) {
            (
                s,
                Err(
                    unsupported_view(
                        location,
                        "aggregate return expression must have struct or union type"@,
                    ),
                ),
            )
        } else {
            match expr_spec(s, expression) {
                (s, Err(error)) => (s, Err(error)),
                (s, Ok(source)) => match copied(
                    s,
                    destination,
                    source,
                    expression.ctype,
                    location,
                ) {
                    (s, Err(error)) => (s, Err(error)),
                    (s, Ok(_)) => (ended(did(s, Op::Return)), Ok(())),
                },
            }
        },
        (None, Some(expression)) => match expr_spec(s, expression) {
            (s, Err(error)) => (s, Err(error)),
            (s, Ok(value)) => {
                let (s, value) = returned_value(s, value, expression.ctype);
                (ended(did(s, Op::ReturnValue { value })), Ok(()))
            },
        },
        (None, None) => (ended(did(s, Op::Return)), Ok(())),
    }
}

/// A choice between two statements. What follows is reachable unless both end
/// their block.
pub open spec fn if_spec(s: Lowering, statement: Stmt) -> Done
    decreases statement, 0nat,
    when statement.data is If
{
    let yes = *statement.data->If_1;
    let no = statement.data->If_2;
    match condition_spec(s, *statement.data->If_0) {
        (s, Err(error)) => (s, Err(error)),
        (s, Ok(condition)) => {
            let (s, yes_block) = emitted(s, Op::CreateBlock);
            let (s, no_block) = emitted(s, Op::CreateBlock);
            let (s, merge_block) = emitted(s, Op::CreateBlock);
            let s = did(s, Op::Branch { condition, yes: yes_block, no: no_block });
            match stmt_spec(reachable(entered_sealed(s, yes_block)), yes) {
                (s, Err(error)) => (s, Err(error)),
                (s, Ok(_)) => {
                    let yes_ended = s.terminated;
                    let s = reachable(entered_sealed(fallen(s, merge_block), no_block));
                    let lowered = match no {
                        Some(no) => stmt_spec(s, *no),
                        None => (s, Ok(())),
                    };
                    match lowered {
                        (s, Err(error)) => (s, Err(error)),
                        (s, Ok(_)) => {
                            let no_ended = s.terminated;
                            let s = fallen(s, merge_block);
                            if yes_ended && no_ended {
                                (s, Ok(()))
                            } else {
                                (reachable(entered_sealed(s, merge_block)), Ok(()))
                            }
                        },
                    }
                },
            }
        },
    }
}

/// A loop that tests its condition after the body.
pub open spec fn do_spec(s: Lowering, body: Stmt, condition: Expr) -> Done
    decreases body, 2nat,
{
    let (s, body_block) = emitted(s, Op::CreateBlock);
    let (s, condition_block) = emitted(s, Op::CreateBlock);
    let (s, exit) = emitted(s, Op::CreateBlock);
    let s = entered(did(s, Op::Jump { block: body_block }), body_block);
    match stmt_spec(loop_opened(s, condition_block, exit), body) {
        (s, Err(error)) => (s, Err(error)),
        (s, Ok(_)) => {
            let s = entered(fallen(loop_closed(s), condition_block), condition_block);
            match condition_spec(s, condition) {
                (s, Err(error)) => (s, Err(error)),
                (s, Ok(condition)) => {
                    let s = did(s, Op::Branch { condition, yes: body_block, no: exit });
                    let s = did(s, Op::SealBlock { block: condition_block });
                    let s = did(s, Op::SealBlock { block: body_block });
                    (reachable(entered_sealed(s, exit)), Ok(()))
                },
            }
        },
    }
}

/// A loop that tests its condition before the body.
pub open spec fn while_spec(s: Lowering, condition: Expr, body: Stmt) -> Done
    decreases body, 2nat,
{
    let (s, header) = emitted(s, Op::CreateBlock);
    let (s, body_block) = emitted(s, Op::CreateBlock);
    let (s, exit) = emitted(s, Op::CreateBlock);
    let s = entered(did(s, Op::Jump { block: header }), header);
    match condition_spec(s, condition) {
        (s, Err(error)) => (s, Err(error)),
        (s, Ok(condition)) => {
            let s = did(s, Op::Branch { condition, yes: body_block, no: exit });
            let s = entered_sealed(s, body_block);
            match stmt_spec(loop_opened(s, header, exit), body) {
                (s, Err(error)) => (s, Err(error)),
                (s, Ok(_)) => {
                    let s = fallen(loop_closed(s), header);
                    let s = did(s, Op::SealBlock { block: header });
                    (reachable(entered_sealed(s, exit)), Ok(()))
                },
            }
        },
    }
}

/// The way from the head of a `for` loop: to the body while the condition
/// holds, and always where there is none.
pub open spec fn for_head_spec(
    s: Lowering,
    condition: Option<Box<Expr>>,
    body_block: usize,
    exit: usize,
) -> Done {
    match condition {
        Some(condition) => match condition_spec(s, *condition) {
            (s, Err(error)) => (s, Err(error)),
            (s, Ok(condition)) => (
                did(s, Op::Branch { condition, yes: body_block, no: exit }),
                Ok(()),
            ),
        },
        None => (did(s, Op::Jump { block: body_block }), Ok(())),
    }
}

/// A loop with a start, a condition and a step.
pub open spec fn for_spec(s: Lowering, statement: Stmt) -> Done
    decreases statement, 0nat,
    when statement.data is For
{
    let step = statement.data->For_2;
    match stmt_spec(s, *statement.data->For_0) {
        (s, Err(error)) => (s, Err(error)),
        (s, Ok(_)) => if s.terminated {
            (s, Ok(()))
        } else {
            let (s, header) = emitted(s, Op::CreateBlock);
            let (s, body_block) = emitted(s, Op::CreateBlock);
            let (s, step_block) = emitted(s, Op::CreateBlock);
            let (s, exit) = emitted(s, Op::CreateBlock);
            let s = entered(did(s, Op::Jump { block: header }), header);
            match for_head_spec(s, statement.data->For_1, body_block, exit) {
                (s, Err(error)) => (s, Err(error)),
                (s, Ok(_)) => {
                    let s = entered_sealed(s, body_block);
                    match stmt_spec(loop_opened(s, step_block, exit), *statement.data->For_3) {
                        (s, Err(error)) => (s, Err(error)),
                        (s, Ok(_)) => {
                            let s = fallen(loop_closed(s), step_block);
                            let s = reachable(entered_sealed(s, step_block));
                            let stepped = match step {
                                Some(step) => expr_spec(s, *step),
                                None => (s, Ok(0usize)),
                            };
                            match stepped {
                                (s, Err(error)) => (s, Err(error)),
                                (s, Ok(_)) => {
                                    let s = did(s, Op::Jump { block: header });
                                    let s = did(s, Op::SealBlock { block: header });
                                    (reachable(entered_sealed(s, exit)), Ok(()))
                                },
                            }
                        },
                    }
                },
            }
        },
    }
}

/// A jump out of the innermost loop or switch.
pub open spec fn break_spec(s: Lowering, location: Location) -> Done {
    if s.break_targets.len() == 0 {
        (s, Err(unsupported_view(location, "break outside a SIA32 loop or switch"@)))
    } else {
        (ended(did(s, Op::Jump { block: s.break_targets.last() })), Ok(()))
    }
}

/// A jump to the next round of the innermost loop.
pub open spec fn continue_spec(s: Lowering, location: Location) -> Done {
    if s.loop_targets.len() == 0 {
        (s, Err(unsupported_view(location, "continue outside a SIA32 loop"@)))
    } else {
        (ended(did(s, Op::Jump { block: s.loop_targets.last().0 })), Ok(()))
    }
}

/// The case values and whether there is a `default`, as found so far.
pub struct SwitchLabels {
    pub values: Seq<u64>,
    pub has_default: bool,
}

/// The labels of a switch inside a statement, after those found before it.
/// Labels inside a nested switch belong to that switch.
pub open spec fn labels_spec(statement: Stmt, found: SwitchLabels) -> SwitchLabels
    decreases statement, 0nat,
{
    match statement.data {
        StmtType::Case(value, inner) => labels_spec(
            *inner,
            SwitchLabels { values: found.values.push(value), ..found },
        ),
        StmtType::Default(inner) => labels_spec(
            *inner,
            SwitchLabels { has_default: true, ..found },
        ),
        StmtType::Compound(statements) => labels_from(statements@, 0, found),
        StmtType::If(_, yes, no) => {
            let found = labels_spec(*yes, found);
            match no {
                Some(no) => labels_spec(*no, found),
                None => found,
            }
        },
        StmtType::While(_, inner) => labels_spec(*inner, found),
        StmtType::Do(inner, _) => labels_spec(*inner, found),
        StmtType::Label(_, inner) => labels_spec(*inner, found),
        StmtType::For(_, _, _, inner) => labels_spec(*inner, found),
        _ => found,
    }
}

/// The labels of a switch inside the statements from `index` on.
pub open spec fn labels_from(
    statements: Seq<Stmt>,
    index: nat,
    found: SwitchLabels,
) -> SwitchLabels
    decreases statements, statements.len() - index,
{
    if index >= statements.len() {
        found
    } else {
        labels_from(statements, index + 1, labels_spec(statements[index as int], found))
    }
}

/// One block for each value from `index` on that has none yet.
pub open spec fn case_blocks_spec(
    s: Lowering,
    values: Seq<u64>,
    index: nat,
    cases: Seq<(u64, usize)>,
) -> (Lowering, Seq<(u64, usize)>)
    decreases values.len() - index,
{
    if index >= values.len() {
        (s, cases)
    } else {
        let value = values[index as int];
        if case_block(cases, value, 0) is Some {
            case_blocks_spec(s, values, index + 1, cases)
        } else {
            let (s, block) = emitted(s, Op::CreateBlock);
            case_blocks_spec(s, values, index + 1, cases.push((value, block)))
        }
    }
}

/// The tests of the selector against the cases from `index` on. The last
/// block is where none of them holds.
pub open spec fn dispatch_spec(
    s: Lowering,
    selector: usize,
    ty: IrType,
    cases: Seq<(u64, usize)>,
    index: nat,
    dispatch: usize,
) -> (Lowering, usize)
    decreases cases.len() - index,
{
    if index >= cases.len() {
        (s, dispatch)
    } else {
        let (value, target) = cases[index as int];
        let s = if index == 0 {
            s
        } else {
            entered(s, dispatch)
        };
        let (s, next) = emitted(s, Op::CreateBlock);
        let (s, constant) = emitted(s, Op::Iconst { ty, value: value as i64 });
        let (s, condition) = emitted(
            s,
            Op::CompareInt { condition: IntCC::Equal, left: selector, right: constant },
        );
        let s = did(s, Op::Branch { condition, yes: target, no: next });
        dispatch_spec(s, selector, ty, cases, index + 1, next)
    }
}

/// The blocks of a switch and the tests that lead to them: its labels, and
/// the block after it.
pub open spec fn switch_head_spec(s: Lowering, selector: usize, body: Stmt) -> (
    Lowering,
    SwitchView,
    usize,
) {
    let ty = type_of_value(s, selector);
    let labels = labels_spec(body, SwitchLabels { values: Seq::empty(), has_default: false });
    let (s, cases) = case_blocks_spec(s, labels.values, 0, Seq::empty());
    let (s, default) = if labels.has_default {
        let (s, block) = emitted(s, Op::CreateBlock);
        (s, Some(block))
    } else {
        (s, None)
    };
    let (s, exit) = emitted(s, Op::CreateBlock);
    let (s, dispatch) = dispatch_spec(s, selector, ty, cases, 0, s.block);
    let s = entered(s, dispatch);
    let s = did(
        s,
        Op::Jump {
            block: match default {
                Some(block) => block,
                None => exit,
            },
        },
    );
    (s, SwitchView { cases, default }, exit)
}

/// A switch: tests of the selector in the order in which the values occur,
/// then the body, of which only labels are reached.
pub open spec fn switch_spec(s: Lowering, expression: Expr, body: Stmt) -> Done
    decreases body, 2nat,
{
    match expr_spec(s, expression) {
        (s, Err(error)) => (s, Err(error)),
        (s, Ok(selector)) => {
            let (s, labels, exit) = switch_head_spec(s, selector, body);
            match stmt_spec(switch_opened(s, labels, exit), body) {
                (s, Err(error)) => (s, Err(error)),
                (s, Ok(_)) => {
                    (reachable(entered(fallen(switch_closed(s), exit), exit)), Ok(()))
                },
            }
        },
    }
}

/// The block of a case of the innermost switch.
pub open spec fn case_target(s: Lowering, value: u64) -> Option<usize> {
    if s.switch_cases.len() == 0 {
        None
    } else {
        case_block(s.switch_cases.last().cases, value, 0)
    }
}

/// A statement after a case label.
pub open spec fn case_spec(s: Lowering, value: u64, inner: Stmt, location: Location) -> Done
    decreases inner, 2nat,
{
    match case_target(s, value) {
        None => (s, Err(unsupported_view(location, "case outside a SIA32 switch"@))),
        Some(target) => stmt_spec(reachable(entered(fallen(s, target), target)), inner),
    }
}

/// The block of the default label of the innermost switch.
pub open spec fn default_target(s: Lowering) -> Option<usize> {
    if s.switch_cases.len() == 0 {
        None
    } else {
        s.switch_cases.last().default
    }
}

/// A statement after a default label.
pub open spec fn default_spec(s: Lowering, inner: Stmt, location: Location) -> Done
    decreases inner, 2nat,
{
    match default_target(s) {
        None => (s, Err(unsupported_view(location, "default outside a SIA32 switch"@))),
        Some(target) => stmt_spec(reachable(entered(fallen(s, target), target)), inner),
    }
}

} // verus!
