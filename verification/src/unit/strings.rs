//! The string literals of a translation unit.

use crate::hir::{Declaration, Expr, ExprType, Initializer, LiteralValue, Stmt, StmtType};
use crate::lower::state::{find_string, pool_position, pool_view};
use crate::text::{concat2, decimal, decimal_text};
use vstd::prelude::*;

verus! {

/// The name of the data object of a string literal.
pub open spec fn string_symbol(index: nat) -> Seq<char> {
    "__cosmic_str_"@ + decimal(index)
}

/// The name of the data object of a string literal.
pub fn string_symbol_name(index: usize) -> (result: String)
    ensures
        result@ == string_symbol(index as nat),
{
    concat2("__cosmic_str_", decimal_text(index as u64).as_str())
}

/// The pool with a string, which it holds once.
pub open spec fn pooled(pool: Seq<Seq<u8>>, bytes: Seq<u8>) -> Seq<Seq<u8>> {
    if pool_position(pool, bytes, 0) is Some {
        pool
    } else {
        pool.push(bytes)
    }
}

/// The pool with the string literals of an expression, from left to right.
pub open spec fn expr_strings(expression: Expr, pool: Seq<Seq<u8>>) -> Seq<Seq<u8>>
    decreases expression, 0nat,
{
    match expression.expr {
        ExprType::Literal(LiteralValue::Str(bytes)) => pooled(pool, bytes@),
        ExprType::FuncCall(function, arguments) => exprs_strings(
            arguments@,
            0,
            expr_strings(*function, pool),
        ),
        ExprType::Member(value, _) => expr_strings(*value, pool),
        ExprType::PostIncrement(value, _) => expr_strings(*value, pool),
        ExprType::Cast(value) => expr_strings(*value, pool),
        ExprType::Deref(value) => expr_strings(*value, pool),
        ExprType::Negate(value) => expr_strings(*value, pool),
        ExprType::BitwiseNot(value) => expr_strings(*value, pool),
        ExprType::StaticRef(value) => expr_strings(*value, pool),
        ExprType::Noop(value) => expr_strings(*value, pool),
        ExprType::Binary(_, left, right) => expr_strings(*right, expr_strings(*left, pool)),
        ExprType::Comma(left, right) => expr_strings(*right, expr_strings(*left, pool)),
        ExprType::Ternary(condition, yes, no) => expr_strings(
            *no,
            expr_strings(*yes, expr_strings(*condition, pool)),
        ),
        _ => pool,
    }
}

/// The pool with the string literals of the expressions from `index` on.
pub open spec fn exprs_strings(
    expressions: Seq<Expr>,
    index: nat,
    pool: Seq<Seq<u8>>,
) -> Seq<Seq<u8>>
    decreases expressions, expressions.len() - index,
{
    if index >= expressions.len() {
        pool
    } else {
        exprs_strings(expressions, index + 1, expr_strings(expressions[index as int], pool))
    }
}

/// The pool with the string literals of an expression that may be absent.
pub open spec fn optional_strings(
    expression: Option<Box<Expr>>,
    pool: Seq<Seq<u8>>,
) -> Seq<Seq<u8>> {
    match expression {
        Some(expression) => expr_strings(*expression, pool),
        None => pool,
    }
}

/// The pool with the string literals of an initializer.
pub open spec fn initializer_strings(
    initializer: Initializer,
    pool: Seq<Seq<u8>>,
) -> Seq<Seq<u8>>
    decreases initializer, 0nat,
{
    match initializer {
        Initializer::Scalar(scalar) => expr_strings(scalar.expression, pool),
        Initializer::InitializerList(items) => items_strings(items@, 0, pool),
        Initializer::Zero => pool,
        Initializer::FunctionBody(statements) => stmts_strings(statements@, 0, pool),
    }
}

/// The pool with the string literals of the initializers from `index` on.
pub open spec fn items_strings(
    items: Seq<Initializer>,
    index: nat,
    pool: Seq<Seq<u8>>,
) -> Seq<Seq<u8>>
    decreases items, items.len() - index,
{
    if index >= items.len() {
        pool
    } else {
        items_strings(items, index + 1, initializer_strings(items[index as int], pool))
    }
}

/// The pool with the string literals of a statement.
pub open spec fn stmt_strings(statement: Stmt, pool: Seq<Seq<u8>>) -> Seq<Seq<u8>>
    decreases statement, 0nat,
{
    match statement.data {
        StmtType::Compound(statements) => stmts_strings(statements@, 0, pool),
        StmtType::If(condition, yes, no) => {
            let pool = stmt_strings(*yes, expr_strings(*condition, pool));
            match no {
                Some(no) => stmt_strings(*no, pool),
                None => pool,
            }
        },
        StmtType::Do(body, condition) => expr_strings(*condition, stmt_strings(*body, pool)),
        StmtType::While(condition, body) => expr_strings(*condition, stmt_strings(*body, pool)),
        StmtType::For(init, condition, step, body) => stmt_strings(
            *body,
            optional_strings(step, optional_strings(condition, stmt_strings(*init, pool))),
        ),
        StmtType::Switch(expression, body) => stmt_strings(
            *body,
            expr_strings(*expression, pool),
        ),
        StmtType::Label(_, body) => stmt_strings(*body, pool),
        StmtType::Case(_, body) => stmt_strings(*body, pool),
        StmtType::Default(body) => stmt_strings(*body, pool),
        StmtType::Expr(expression) => expr_strings(*expression, pool),
        StmtType::Return(value) => optional_strings(value, pool),
        StmtType::Decl(declarations) => declarations_strings(declarations@, 0, pool),
        _ => pool,
    }
}

/// The pool with the string literals of the statements from `index` on.
pub open spec fn stmts_strings(
    statements: Seq<Stmt>,
    index: nat,
    pool: Seq<Seq<u8>>,
) -> Seq<Seq<u8>>
    decreases statements, statements.len() - index,
{
    if index >= statements.len() {
        pool
    } else {
        stmts_strings(statements, index + 1, stmt_strings(statements[index as int], pool))
    }
}

/// The pool with the string literals of the declarations from `index` on.
pub open spec fn declarations_strings(
    declarations: Seq<Declaration>,
    index: nat,
    pool: Seq<Seq<u8>>,
) -> Seq<Seq<u8>>
    decreases declarations, declarations.len() - index,
{
    if index >= declarations.len() {
        pool
    } else {
        let pool = match declarations[index as int].init {
            Some(initializer) => initializer_strings(initializer, pool),
            None => pool,
        };
        declarations_strings(declarations, index + 1, pool)
    }
}

/// Adds a string to the pool unless it is there.
fn pool_string(bytes: &Vec<u8>, pool: &mut Vec<Vec<u8>>)
    ensures
        pool_view(final(pool)@) == pooled(pool_view(old(pool)@), bytes@),
{
    if find_string(pool, bytes.as_slice()).is_none() {
        let ghost before = pool@;
        let copy = bytes.clone();
        assert(copy@ =~= bytes@);
        pool.push(copy);
        assert(pool_view(pool@) =~= pool_view(before).push(bytes@));
    }
}

/// Adds the string literals of an expression to the pool.
pub fn collect_string_literals_expr(expression: &Expr, pool: &mut Vec<Vec<u8>>)
    ensures
        pool_view(final(pool)@) == expr_strings(*expression, pool_view(old(pool)@)),
    decreases expression, 0nat,
{
    match &expression.expr {
        ExprType::Literal(LiteralValue::Str(bytes)) => {
            pool_string(bytes, pool);
        },
        ExprType::FuncCall(function, arguments) => {
            collect_string_literals_expr(function, pool);
            collect_string_literals_exprs(arguments, pool);
        },
        ExprType::Member(value, _)
        | ExprType::PostIncrement(value, _)
        | ExprType::Cast(value)
        | ExprType::Deref(value)
        | ExprType::Negate(value)
        | ExprType::BitwiseNot(value)
        | ExprType::StaticRef(value)
        | ExprType::Noop(value) => {
            collect_string_literals_expr(value, pool);
        },
        ExprType::Binary(_, left, right) | ExprType::Comma(left, right) => {
            collect_string_literals_expr(left, pool);
            collect_string_literals_expr(right, pool);
        },
        ExprType::Ternary(condition, yes, no) => {
            collect_string_literals_expr(condition, pool);
            collect_string_literals_expr(yes, pool);
            collect_string_literals_expr(no, pool);
        },
        ExprType::Id(_) | ExprType::Literal(_) | ExprType::Sizeof(_) => {},
    }
}

/// Adds the string literals of a list of expressions to the pool.
fn collect_string_literals_exprs(expressions: &Vec<Expr>, pool: &mut Vec<Vec<u8>>)
    ensures
        pool_view(final(pool)@) == exprs_strings(expressions@, 0, pool_view(old(pool)@)),
    decreases expressions@, expressions@.len() + 1,
{
    let mut index: usize = 0;
    while index < expressions.len()
        invariant
            index <= expressions@.len(),
            exprs_strings(expressions@, index as nat, pool_view(pool@)) == exprs_strings(
                expressions@,
                0,
                pool_view(old(pool)@),
            ),
        decreases expressions@.len() - index,
    {
        collect_string_literals_expr(&expressions[index], pool);
        index += 1;
    }
}

/// Adds the string literals of an expression that may be absent to the pool.
fn collect_string_literals_optional(expression: &Option<Box<Expr>>, pool: &mut Vec<Vec<u8>>)
    ensures
        pool_view(final(pool)@) == optional_strings(*expression, pool_view(old(pool)@)),
{
    if let Some(expression) = expression {
        collect_string_literals_expr(expression, pool);
    }
}

/// Adds the string literals of an initializer to the pool.
pub fn collect_string_literals_initializer(initializer: &Initializer, pool: &mut Vec<Vec<u8>>)
    ensures
        pool_view(final(pool)@) == initializer_strings(*initializer, pool_view(old(pool)@)),
    decreases initializer, 0nat,
{
    match initializer {
        Initializer::Scalar(scalar) => {
            collect_string_literals_expr(&scalar.expression, pool);
        },
        Initializer::InitializerList(items) => {
            collect_string_literals_items(items, pool);
        },
        Initializer::Zero => {},
        Initializer::FunctionBody(statements) => {
            collect_string_literals_stmts(statements, pool);
        },
    }
}

/// Adds the string literals of a list of initializers to the pool.
fn collect_string_literals_items(items: &Vec<Initializer>, pool: &mut Vec<Vec<u8>>)
    ensures
        pool_view(final(pool)@) == items_strings(items@, 0, pool_view(old(pool)@)),
    decreases items@, items@.len() + 1,
{
    let mut index: usize = 0;
    while index < items.len()
        invariant
            index <= items@.len(),
            items_strings(items@, index as nat, pool_view(pool@)) == items_strings(
                items@,
                0,
                pool_view(old(pool)@),
            ),
        decreases items@.len() - index,
    {
        collect_string_literals_initializer(&items[index], pool);
        index += 1;
    }
}

/// Adds the string literals of a statement to the pool.
pub fn collect_string_literals_stmt(statement: &Stmt, pool: &mut Vec<Vec<u8>>)
    ensures
        pool_view(final(pool)@) == stmt_strings(*statement, pool_view(old(pool)@)),
    decreases statement, 0nat,
{
    match &statement.data {
        StmtType::Compound(statements) => {
            collect_string_literals_stmts(statements, pool);
        },
        StmtType::If(condition, yes, no) => {
            collect_string_literals_expr(condition, pool);
            collect_string_literals_stmt(yes, pool);
            if let Some(no) = no {
                collect_string_literals_stmt(no, pool);
            }
        },
        StmtType::Do(body, condition) | StmtType::While(condition, body) => {
            collect_string_literals_stmt(body, pool);
            collect_string_literals_expr(condition, pool);
        },
        StmtType::For(init, condition, step, body) => {
            collect_string_literals_stmt(init, pool);
            collect_string_literals_optional(condition, pool);
            collect_string_literals_optional(step, pool);
            collect_string_literals_stmt(body, pool);
        },
        StmtType::Switch(expression, body) => {
            collect_string_literals_expr(expression, pool);
            collect_string_literals_stmt(body, pool);
        },
        StmtType::Label(_, body) | StmtType::Case(_, body) | StmtType::Default(body) => {
            collect_string_literals_stmt(body, pool);
        },
        StmtType::Expr(expression) => {
            collect_string_literals_expr(expression, pool);
        },
        StmtType::Return(value) => {
            collect_string_literals_optional(value, pool);
        },
        StmtType::Decl(declarations) => {
            collect_string_literals_declarations(declarations, pool);
        },
        StmtType::Goto(_) | StmtType::Continue | StmtType::Break => {},
    }
}

/// Adds the string literals of a list of statements to the pool.
fn collect_string_literals_stmts(statements: &Vec<Stmt>, pool: &mut Vec<Vec<u8>>)
    ensures
        pool_view(final(pool)@) == stmts_strings(statements@, 0, pool_view(old(pool)@)),
    decreases statements@, statements@.len() + 1,
{
    let mut index: usize = 0;
    while index < statements.len()
        invariant
            index <= statements@.len(),
            stmts_strings(statements@, index as nat, pool_view(pool@)) == stmts_strings(
                statements@,
                0,
                pool_view(old(pool)@),
            ),
        decreases statements@.len() - index,
    {
        collect_string_literals_stmt(&statements[index], pool);
        index += 1;
    }
}

/// Adds the string literals of a list of declarations to the pool.
pub fn collect_string_literals_declarations(
    declarations: &Vec<Declaration>,
    pool: &mut Vec<Vec<u8>>,
)
    ensures
        pool_view(final(pool)@) == declarations_strings(
            declarations@,
            0,
            pool_view(old(pool)@),
        ),
    decreases declarations@, declarations@.len() + 1,
{
    let mut index: usize = 0;
    while index < declarations.len()
        invariant
            index <= declarations@.len(),
            declarations_strings(declarations@, index as nat, pool_view(pool@))
                == declarations_strings(declarations@, 0, pool_view(old(pool)@)),
        decreases declarations@.len() - index,
    {
        let declaration = &declarations[index];
        if let Some(initializer) = &declaration.init {
            assert(decreases_to!(declarations@ => *initializer));
            collect_string_literals_initializer(initializer, pool);
        }
        index += 1;
    }
}

} // verus!
