//! What is compiled where its parts are: nothing but a part fails.

use crate::error::ErrorView;
use crate::hir::{BinaryOp, Expr, ExprType, Stmt, StmtType, Type, TypeKind};
use crate::ir::Op;
use crate::lower::expr_model::{
    binary_spec, bitwise_not_spec, cast_spec, coerced_operand, comma_spec, condition_spec,
    expr_spec, negate_spec, operated, pointer_offset_spec, ternary_spec, value_type_spec,
};
use crate::lower::state::{did, emitted, entered, entered_sealed, Lowering};
use crate::lower::stmt_model::{
    do_spec, fallen, for_head_spec, for_spec, if_spec, loop_closed, loop_opened, reachable,
    statements_spec, stmt_spec, while_spec,
};
use crate::types::{address_valued, floating};
use vstd::prelude::*;

verus! {

/// Whether there is a place at which the expression fails so.
pub open spec fn expression_fails(e: Expr, error: ErrorView) -> bool {
    exists|t: Lowering| (#[trigger] expr_spec(t, e)).1 == Err::<usize, ErrorView>(error)
}

/// Whether there is a place at which the statement fails so.
pub open spec fn statement_fails(statement: Stmt, error: ErrorView) -> bool {
    exists|t: Lowering| (#[trigger] stmt_spec(t, statement)).1 == Err::<(), ErrorView>(error)
}

/// A condition fails only where its expression does.
proof fn a_condition_fails_with_its_expression(s: Lowering, e: Expr, error: ErrorView)
    requires
        condition_spec(s, e).1 == Err::<usize, ErrorView>(error),
    ensures
        expression_fails(e, error),
{
    assert(expr_spec(s, e).1 == Err::<usize, ErrorView>(error));
}

/// An `if` fails only where its condition or one of its branches does.
pub proof fn an_if_fails_with_its_parts(s: Lowering, statement: Stmt, error: ErrorView)
    requires
        statement.data is If,
        stmt_spec(s, statement).1 == Err::<(), ErrorView>(error),
    ensures
        ({
            ||| expression_fails(*statement.data->If_0, error)
            ||| statement_fails(*statement.data->If_1, error)
            ||| (statement.data->If_2 matches Some(no) && statement_fails(*no, error))
        }),
{
    assert(stmt_spec(s, statement) == if_spec(s, statement));
    let (s1, condition) = condition_spec(s, *statement.data->If_0);
    if condition is Err {
        a_condition_fails_with_its_expression(s, *statement.data->If_0, error);
    } else {
        let (s2, yes_block) = emitted(s1, Op::CreateBlock);
        let (s3, no_block) = emitted(s2, Op::CreateBlock);
        let (s4, merge_block) = emitted(s3, Op::CreateBlock);
        let s5 = did(
            s4,
            Op::Branch { condition: condition->Ok_0, yes: yes_block, no: no_block },
        );
        let (s6, yes_done) = stmt_spec(
            reachable(entered_sealed(s5, yes_block)),
            *statement.data->If_1,
        );
        if yes_done is Ok {
            let s7 = reachable(entered_sealed(fallen(s6, merge_block), no_block));
            if let Some(no) = statement.data->If_2 {
                assert(stmt_spec(s7, *no).1 == Err::<(), ErrorView>(error));
            }
        }
    }
}

/// A `while` loop fails only where its condition or its body does.
pub proof fn a_while_loop_fails_with_its_parts(
    s: Lowering,
    statement: Stmt,
    condition: Expr,
    body: Stmt,
    error: ErrorView,
)
    requires
        statement.data == StmtType::While(Box::new(condition), Box::new(body)),
        stmt_spec(s, statement).1 == Err::<(), ErrorView>(error),
    ensures
        expression_fails(condition, error) || statement_fails(body, error),
{
    assert(stmt_spec(s, statement) == while_spec(s, condition, body));
    let (s1, header) = emitted(s, Op::CreateBlock);
    let (s2, body_block) = emitted(s1, Op::CreateBlock);
    let (s3, exit) = emitted(s2, Op::CreateBlock);
    let s4 = entered(did(s3, Op::Jump { block: header }), header);
    let (s5, tested) = condition_spec(s4, condition);
    if tested is Err {
        a_condition_fails_with_its_expression(s4, condition, error);
    } else {
        let s6 = did(s5, Op::Branch { condition: tested->Ok_0, yes: body_block, no: exit });
        let s7 = loop_opened(entered_sealed(s6, body_block), header, exit);
        assert(stmt_spec(s7, body).1 == Err::<(), ErrorView>(error));
    }
}

/// A `do` loop fails only where its condition or its body does.
pub proof fn a_do_loop_fails_with_its_parts(
    s: Lowering,
    statement: Stmt,
    condition: Expr,
    body: Stmt,
    error: ErrorView,
)
    requires
        statement.data == StmtType::Do(Box::new(body), Box::new(condition)),
        stmt_spec(s, statement).1 == Err::<(), ErrorView>(error),
    ensures
        expression_fails(condition, error) || statement_fails(body, error),
{
    assert(stmt_spec(s, statement) == do_spec(s, body, condition));
    let (s1, body_block) = emitted(s, Op::CreateBlock);
    let (s2, condition_block) = emitted(s1, Op::CreateBlock);
    let (s3, exit) = emitted(s2, Op::CreateBlock);
    let s4 = entered(did(s3, Op::Jump { block: body_block }), body_block);
    let (s5, done) = stmt_spec(loop_opened(s4, condition_block, exit), body);
    if done is Ok {
        let s6 = entered(fallen(loop_closed(s5), condition_block), condition_block);
        assert(condition_spec(s6, condition).1 == Err::<usize, ErrorView>(error));
        a_condition_fails_with_its_expression(s6, condition, error);
    }
}

/// A `for` loop fails only where one of its parts does, whichever of them it
/// has.
pub proof fn a_for_loop_fails_with_its_parts(s: Lowering, statement: Stmt, error: ErrorView)
    requires
        statement.data is For,
        stmt_spec(s, statement).1 == Err::<(), ErrorView>(error),
    ensures
        ({
            ||| statement_fails(*statement.data->For_0, error)
            ||| (statement.data->For_1 matches Some(condition) && expression_fails(
                *condition,
                error,
            ))
            ||| (statement.data->For_2 matches Some(step) && expression_fails(*step, error))
            ||| statement_fails(*statement.data->For_3, error)
        }),
{
    assert(stmt_spec(s, statement) == for_spec(s, statement));
    let (s0, started) = stmt_spec(s, *statement.data->For_0);
    if started is Ok && !s0.terminated {
        let (s1, header) = emitted(s0, Op::CreateBlock);
        let (s2, body_block) = emitted(s1, Op::CreateBlock);
        let (s3, step_block) = emitted(s2, Op::CreateBlock);
        let (s4, exit) = emitted(s3, Op::CreateBlock);
        let s5 = entered(did(s4, Op::Jump { block: header }), header);
        let (s6, headed) = for_head_spec(s5, statement.data->For_1, body_block, exit);
        if headed is Err {
            a_condition_fails_with_its_expression(s5, *statement.data->For_1->0, error);
        } else {
            let s7 = loop_opened(entered_sealed(s6, body_block), step_block, exit);
            let (s8, done) = stmt_spec(s7, *statement.data->For_3);
            if done is Ok {
                let s9 = reachable(
                    entered_sealed(fallen(loop_closed(s8), step_block), step_block),
                );
                if let Some(step) = statement.data->For_2 {
                    assert(expr_spec(s9, *step).1 == Err::<usize, ErrorView>(error));
                }
            }
        }
    }
}

/// Statements in a row fail only where one of them does.
pub proof fn statements_fail_with_one_of_them(
    s: Lowering,
    statements: Seq<Stmt>,
    index: nat,
    error: ErrorView,
)
    requires
        statements_spec(s, statements, index).1 == Err::<(), ErrorView>(error),
    ensures
        exists|i: int|
            index <= i < statements.len() && statement_fails(#[trigger] statements[i], error),
    decreases statements.len() - index,
{
    if index < statements.len() {
        let (next, done) = stmt_spec(s, statements[index as int]);
        if done is Ok {
            statements_fail_with_one_of_them(next, statements, index + 1, error);
        } else {
            assert(statement_fails(statements[index as int], error));
        }
    }
}

/// An integer operator fails only where one of its operands does.
pub proof fn an_integer_operator_fails_with_its_operands(s: Lowering, e: Expr, error: ErrorView)
    requires
        e.expr is Binary,
        e.expr->Binary_0 != BinaryOp::Assign,
        e.expr->Binary_0 != BinaryOp::LogicalAnd,
        e.expr->Binary_0 != BinaryOp::LogicalOr,
        !(e.expr->Binary_1.ctype.kind is Pointer),
        !(e.expr->Binary_2.ctype.kind is Pointer),
        !floating(e.ctype),
        !(e.ctype.kind is Void),
        !address_valued(e.ctype),
        value_type_spec(e) is Ok,
        expr_spec(s, e).1 == Err::<usize, ErrorView>(error),
    ensures
        expression_fails(*e.expr->Binary_1, error) || expression_fails(*e.expr->Binary_2, error),
{
    assert(expr_spec(s, e) == binary_spec(s, e));
    let (first, left) = expr_spec(s, *e.expr->Binary_1);
    if left is Ok {
        let (second, right) = expr_spec(first, *e.expr->Binary_2);
        if right is Ok {
            assert(binary_spec(s, e) == operated(
                second,
                e,
                e.expr->Binary_0,
                e.expr->Binary_1.ctype,
                e.expr->Binary_2.ctype,
                left->Ok_0,
                right->Ok_0,
            ));
        }
    }
}

/// A negation fails only where its operand does.
pub proof fn a_negation_fails_with_its_operand(
    s: Lowering,
    e: Expr,
    operand: Expr,
    error: ErrorView,
)
    requires
        e.expr == ExprType::Negate(Box::new(operand)) || e.expr == ExprType::BitwiseNot(
            Box::new(operand),
        ),
        value_type_spec(e) is Ok,
        expr_spec(s, e).1 == Err::<usize, ErrorView>(error),
    ensures
        expression_fails(operand, error),
{
    let ty = value_type_spec(e)->Ok_0;
    if e.expr is Negate {
        assert(expr_spec(s, e) == negate_spec(s, e, operand, ty));
    } else {
        assert(expr_spec(s, e) == bitwise_not_spec(s, operand, ty));
    }
    assert(expr_spec(s, operand).1 == Err::<usize, ErrorView>(error));
}

/// A comma fails only where one of its operands does.
pub proof fn a_comma_fails_with_its_operands(s: Lowering, e: Expr, error: ErrorView)
    requires
        e.expr is Comma,
        value_type_spec(e) is Ok,
        expr_spec(s, e).1 == Err::<usize, ErrorView>(error),
    ensures
        expression_fails(*e.expr->Comma_0, error) || expression_fails(*e.expr->Comma_1, error),
{
    assert(expr_spec(s, e) == comma_spec(s, e, value_type_spec(e)->Ok_0));
    let (first, left) = expr_spec(s, *e.expr->Comma_0);
    if left is Ok {
        assert(expr_spec(first, *e.expr->Comma_1).1 == Err::<usize, ErrorView>(error));
    }
}

/// A conditional fails only where one of its operands does.
pub proof fn a_conditional_fails_with_its_operands(s: Lowering, e: Expr, error: ErrorView)
    requires
        e.expr is Ternary,
        value_type_spec(e) is Ok,
        expr_spec(s, e).1 == Err::<usize, ErrorView>(error),
    ensures
        ({
            ||| expression_fails(*e.expr->Ternary_0, error)
            ||| expression_fails(*e.expr->Ternary_1, error)
            ||| expression_fails(*e.expr->Ternary_2, error)
        }),
{
    let ty = value_type_spec(e)->Ok_0;
    assert(expr_spec(s, e) == ternary_spec(s, e, ty));
    let (s1, tested) = condition_spec(s, *e.expr->Ternary_0);
    if tested is Err {
        a_condition_fails_with_its_expression(s, *e.expr->Ternary_0, error);
    } else {
        let (s2, yes_block) = emitted(s1, Op::CreateBlock);
        let (s3, no_block) = emitted(s2, Op::CreateBlock);
        let (s4, merge_block) = emitted(s3, Op::CreateBlock);
        let (s5, result) = emitted(s4, Op::AppendBlockParam { block: merge_block, ty });
        let s6 = did(s5, Op::Branch { condition: tested->Ok_0, yes: yes_block, no: no_block });
        let (s7, yes) = expr_spec(entered_sealed(s6, yes_block), *e.expr->Ternary_1);
        if yes is Ok {
            let (s8, value) = coerced_operand(s7, yes->Ok_0, ty, e.expr->Ternary_1.ctype);
            let s9 = did(s8, Op::JumpWith { block: merge_block, value });
            assert(expr_spec(entered_sealed(s9, no_block), *e.expr->Ternary_2).1 == Err::<
                usize,
                ErrorView,
            >(error));
        }
    }
}

/// A cast fails only where its operand does.
pub proof fn a_cast_fails_with_its_operand(s: Lowering, e: Expr, operand: Expr, error: ErrorView)
    requires
        e.expr == ExprType::Cast(Box::new(operand)),
        value_type_spec(e) is Ok,
        expr_spec(s, e).1 == Err::<usize, ErrorView>(error),
    ensures
        expression_fails(operand, error),
{
    assert(expr_spec(s, e) == cast_spec(s, e, operand, value_type_spec(e)->Ok_0));
    assert(expr_spec(s, operand).1 == Err::<usize, ErrorView>(error));
}

/// A pointer to objects of a known size moved by an index fails only where the
/// pointer or the index does.
pub proof fn a_moved_pointer_fails_with_its_operands(
    s: Lowering,
    e: Expr,
    pointee: Type,
    error: ErrorView,
)
    requires
        e.expr is Binary,
        e.expr->Binary_0 == BinaryOp::Add || e.expr->Binary_0 == BinaryOp::Sub,
        e.expr->Binary_1.ctype.kind == TypeKind::Pointer(Box::new(pointee)),
        !(e.expr->Binary_2.ctype.kind is Pointer),
        pointee.size is Ok,
        value_type_spec(e) is Ok,
        expr_spec(s, e).1 == Err::<usize, ErrorView>(error),
    ensures
        expression_fails(*e.expr->Binary_1, error) || expression_fails(*e.expr->Binary_2, error),
{
    assert(expr_spec(s, e) == pointer_offset_spec(s, e, false));
    let (first, left) = expr_spec(s, *e.expr->Binary_1);
    if left is Ok {
        assert(expr_spec(first, *e.expr->Binary_2).1 == Err::<usize, ErrorView>(error));
    }
}

} // verus!
