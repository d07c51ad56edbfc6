//! What is collected from the functions of a translation unit.

use crate::hir::{Declaration, Expr, Initializer, Stmt, StmtType, StorageClass};
use crate::unit::laws::{
    declarations_grow, every_literal_of_an_expression_is_pooled, expr_pooled, expression_grows,
    growing_is_transitive, items_grow, optional_grows, pooled_stays, statement_grows,
    statements_grow,
};
use crate::unit::statics::{declared_statics, stmt_statics, stmts_statics, StaticLocalView};
use crate::unit::strings::{
    declarations_strings, expr_strings, initializer_strings, items_strings, optional_strings,
    stmt_strings, stmts_strings,
};
use crate::unit::symbols::{symbols_spec, unit_statics};
use vstd::prelude::*;

verus! {

/// Whether the expression is one that the statement evaluates, or that a
/// statement inside it does.
pub open spec fn in_statement(e: Expr, statement: Stmt) -> bool
    decreases statement, 0nat,
{
    match statement.data {
        StmtType::Compound(statements) => in_statements(e, statements@, 0),
        StmtType::If(condition, yes, no) => {
            ||| e == *condition
            ||| in_statement(e, *yes)
            ||| no matches Some(no) && in_statement(e, *no)
        },
        StmtType::Do(body, condition) => e == *condition || in_statement(e, *body),
        StmtType::While(condition, body) => e == *condition || in_statement(e, *body),
        StmtType::For(init, condition, step, body) => {
            ||| in_statement(e, *init)
            ||| condition == Some(Box::new(e))
            ||| step == Some(Box::new(e))
            ||| in_statement(e, *body)
        },
        StmtType::Switch(selector, body) => e == *selector || in_statement(e, *body),
        StmtType::Label(_, body) => in_statement(e, *body),
        StmtType::Case(_, body) => in_statement(e, *body),
        StmtType::Default(body) => in_statement(e, *body),
        StmtType::Expr(expression) => e == *expression,
        StmtType::Return(value) => value == Some(Box::new(e)),
        StmtType::Decl(declarations) => in_declarations(e, declarations@, 0),
        _ => false,
    }
}

/// Whether one of the statements from `index` on evaluates the expression.
pub open spec fn in_statements(e: Expr, statements: Seq<Stmt>, index: nat) -> bool
    decreases statements, statements.len() - index,
{
    index < statements.len() && (in_statement(e, statements[index as int]) || in_statements(
        e,
        statements,
        index + 1,
    ))
}

/// Whether the expression is in the initializer.
pub open spec fn in_initializer(e: Expr, initializer: Initializer) -> bool
    decreases initializer, 0nat,
{
    match initializer {
        Initializer::Scalar(scalar) => e == scalar.expression,
        Initializer::InitializerList(items) => in_items(e, items@, 0),
        Initializer::Zero => false,
        Initializer::FunctionBody(statements) => in_statements(e, statements@, 0),
    }
}

/// Whether the expression is in one of the initializers from `index` on.
pub open spec fn in_items(e: Expr, items: Seq<Initializer>, index: nat) -> bool
    decreases items, items.len() - index,
{
    index < items.len() && (in_initializer(e, items[index as int]) || in_items(
        e,
        items,
        index + 1,
    ))
}

/// Whether the expression is in the initializer of one of the declarations
/// from `index` on.
pub open spec fn in_declarations(e: Expr, declarations: Seq<Declaration>, index: nat) -> bool
    decreases declarations, declarations.len() - index,
{
    index < declarations.len() && ((match declarations[index as int].init {
        Some(initializer) => in_initializer(e, initializer),
        None => false,
    }) || in_declarations(e, declarations, index + 1))
}

proof fn optional_is_pooled(e: Expr, value: Option<Box<Expr>>, pool: Seq<Seq<u8>>)
    requires
        value == Some(Box::new(e)),
    ensures
        expr_pooled(e, optional_strings(value, pool)),
{
    every_literal_of_an_expression_is_pooled(e, pool);
}

/// Every string literal of a statement is collected.
pub proof fn every_literal_of_a_statement_is_pooled(e: Expr, statement: Stmt, pool: Seq<Seq<u8>>)
    requires
        in_statement(e, statement),
    ensures
        expr_pooled(e, stmt_strings(statement, pool)),
    decreases statement, 0nat,
{
    match statement.data {
        StmtType::Compound(statements) => literals_of_statements(e, statements@, 0, pool),
        StmtType::If(condition, yes, no) => {
            let first = expr_strings(*condition, pool);
            let second = stmt_strings(*yes, first);
            statement_grows(*yes, first);
            if let Some(no) = no {
                statement_grows(*no, second);
                growing_is_transitive(first, second, stmt_strings(*no, second));
                if in_statement(e, *no) {
                    every_literal_of_a_statement_is_pooled(e, *no, second);
                }
            }
            if e == *condition {
                every_literal_of_an_expression_is_pooled(e, pool);
                pooled_stays(e, first, stmt_strings(statement, pool));
            } else if in_statement(e, *yes) {
                every_literal_of_a_statement_is_pooled(e, *yes, first);
                pooled_stays(e, second, stmt_strings(statement, pool));
            }
        },
        StmtType::Do(body, condition) => {
            body_and_condition(e, statement, *body, *condition, pool);
        },
        StmtType::While(condition, body) => {
            body_and_condition(e, statement, *body, *condition, pool);
        },
        StmtType::For(init, condition, step, body) => {
            let first = stmt_strings(*init, pool);
            let second = optional_strings(condition, first);
            let third = optional_strings(step, second);
            let last = stmt_strings(*body, third);
            optional_grows(condition, first);
            optional_grows(step, second);
            statement_grows(*body, third);
            growing_is_transitive(second, third, last);
            growing_is_transitive(first, second, last);
            if in_statement(e, *init) {
                every_literal_of_a_statement_is_pooled(e, *init, pool);
                pooled_stays(e, first, last);
            } else if condition == Some(Box::new(e)) {
                optional_is_pooled(e, condition, first);
                pooled_stays(e, second, last);
            } else if step == Some(Box::new(e)) {
                optional_is_pooled(e, step, second);
                pooled_stays(e, third, last);
            } else {
                every_literal_of_a_statement_is_pooled(e, *body, third);
            }
        },
        StmtType::Switch(selector, body) => {
            let first = expr_strings(*selector, pool);
            statement_grows(*body, first);
            if e == *selector {
                every_literal_of_an_expression_is_pooled(e, pool);
                pooled_stays(e, first, stmt_strings(*body, first));
            } else {
                every_literal_of_a_statement_is_pooled(e, *body, first);
            }
        },
        StmtType::Label(_, body) => every_literal_of_a_statement_is_pooled(e, *body, pool),
        StmtType::Case(_, body) => every_literal_of_a_statement_is_pooled(e, *body, pool),
        StmtType::Default(body) => every_literal_of_a_statement_is_pooled(e, *body, pool),
        StmtType::Expr(expression) => every_literal_of_an_expression_is_pooled(e, pool),
        StmtType::Return(value) => optional_is_pooled(e, value, pool),
        StmtType::Decl(declarations) => literals_of_declarations(e, declarations@, 0, pool),
        _ => {},
    }
}

proof fn body_and_condition(
    e: Expr,
    statement: Stmt,
    body: Stmt,
    condition: Expr,
    pool: Seq<Seq<u8>>,
)
    requires
        e == condition || in_statement(e, body),
        decreases_to!(statement => body),
    ensures
        expr_pooled(e, expr_strings(condition, stmt_strings(body, pool))),
    decreases body, 1nat,
{
    let first = stmt_strings(body, pool);
    if e == condition {
        every_literal_of_an_expression_is_pooled(e, first);
    } else {
        every_literal_of_a_statement_is_pooled(e, body, pool);
        expression_grows(condition, first);
        pooled_stays(e, first, expr_strings(condition, first));
    }
}

proof fn literals_of_statements(e: Expr, statements: Seq<Stmt>, index: nat, pool: Seq<Seq<u8>>)
    requires
        in_statements(e, statements, index),
    ensures
        expr_pooled(e, stmts_strings(statements, index, pool)),
    decreases statements, statements.len() - index,
{
    let next = stmt_strings(statements[index as int], pool);
    if in_statement(e, statements[index as int]) {
        every_literal_of_a_statement_is_pooled(e, statements[index as int], pool);
        statements_grow(statements, index + 1, next);
        pooled_stays(e, next, stmts_strings(statements, index + 1, next));
    } else {
        literals_of_statements(e, statements, index + 1, next);
    }
}

proof fn literals_of_an_initializer(e: Expr, initializer: Initializer, pool: Seq<Seq<u8>>)
    requires
        in_initializer(e, initializer),
    ensures
        expr_pooled(e, initializer_strings(initializer, pool)),
    decreases initializer, 0nat,
{
    match initializer {
        Initializer::Scalar(scalar) => every_literal_of_an_expression_is_pooled(e, pool),
        Initializer::InitializerList(items) => literals_of_items(e, items@, 0, pool),
        Initializer::Zero => {},
        Initializer::FunctionBody(statements) => literals_of_statements(e, statements@, 0, pool),
    }
}

proof fn literals_of_items(e: Expr, items: Seq<Initializer>, index: nat, pool: Seq<Seq<u8>>)
    requires
        in_items(e, items, index),
    ensures
        expr_pooled(e, items_strings(items, index, pool)),
    decreases items, items.len() - index,
{
    let next = initializer_strings(items[index as int], pool);
    if in_initializer(e, items[index as int]) {
        literals_of_an_initializer(e, items[index as int], pool);
        items_grow(items, index + 1, next);
        pooled_stays(e, next, items_strings(items, index + 1, next));
    } else {
        literals_of_items(e, items, index + 1, next);
    }
}

proof fn literals_of_declarations(
    e: Expr,
    declarations: Seq<Declaration>,
    index: nat,
    pool: Seq<Seq<u8>>,
)
    requires
        in_declarations(e, declarations, index),
    ensures
        expr_pooled(e, declarations_strings(declarations, index, pool)),
    decreases declarations, declarations.len() - index,
{
    let declaration = declarations[index as int];
    let next = match declaration.init {
        Some(initializer) => initializer_strings(initializer, pool),
        None => pool,
    };
    if declaration.init is Some && in_initializer(e, declaration.init->0) {
        literals_of_an_initializer(e, declaration.init->0, pool);
        declarations_grow(declarations, index + 1, next);
        pooled_stays(e, next, declarations_strings(declarations, index + 1, next));
    } else {
        literals_of_declarations(e, declarations, index + 1, next);
    }
}

/// Every string literal of a translation unit has an object.
pub proof fn every_literal_of_a_unit_is_pooled(declarations: Seq<Declaration>, e: Expr)
    requires
        in_declarations(e, declarations, 0),
    ensures
        expr_pooled(e, symbols_spec(declarations).tables.strings),
{
    literals_of_declarations(e, declarations, 0, Seq::empty());
}

/// Whether the statement, or one inside it, declares the static object.
pub open spec fn declares_static(statement: Stmt, declaration: Declaration) -> bool
    decreases statement, 0nat,
{
    match statement.data {
        StmtType::Compound(statements) => some_declares_static(statements@, 0, declaration),
        StmtType::Decl(declarations) => declarations@.contains(declaration)
            && declaration.symbol.storage_class == StorageClass::Static && !(
        declaration.symbol.ctype.kind is Function),
        StmtType::If(_, yes, no) => {
            ||| declares_static(*yes, declaration)
            ||| no matches Some(no) && declares_static(*no, declaration)
        },
        StmtType::Do(body, _) => declares_static(*body, declaration),
        StmtType::While(_, body) => declares_static(*body, declaration),
        StmtType::For(init, _, _, body) => declares_static(*init, declaration) || declares_static(
            *body,
            declaration,
        ),
        StmtType::Switch(_, body) => declares_static(*body, declaration),
        StmtType::Label(_, body) => declares_static(*body, declaration),
        StmtType::Case(_, body) => declares_static(*body, declaration),
        StmtType::Default(body) => declares_static(*body, declaration),
        _ => false,
    }
}

/// Whether one of the statements from `index` on declares the static object.
pub open spec fn some_declares_static(
    statements: Seq<Stmt>,
    index: nat,
    declaration: Declaration,
) -> bool
    decreases statements, statements.len() - index,
{
    index < statements.len() && (declares_static(statements[index as int], declaration)
        || some_declares_static(statements, index + 1, declaration))
}

/// Whether what was found first is still there.
spec fn still_found(before: Seq<StaticLocalView>, after: Seq<StaticLocalView>) -> bool {
    forall|local: StaticLocalView| before.contains(local) ==> #[trigger] after.contains(local)
}

proof fn declared_are_found(
    declarations: Seq<Declaration>,
    index: nat,
    function: usize,
    found: Seq<StaticLocalView>,
)
    ensures
        ({
            let after = declared_statics(declarations, index, function, found);
            &&& still_found(found, after)
            &&& forall|i: int|
                index <= i < declarations.len() && (#[trigger] declarations[i]).symbol.storage_class
                    == StorageClass::Static && !(declarations[i].symbol.ctype.kind is Function)
                    ==> after.contains(
                    StaticLocalView { function, declaration: declarations[i] },
                )
        }),
    decreases declarations.len() - index,
{
    if index < declarations.len() {
        let declaration = declarations[index as int];
        let local = StaticLocalView { function, declaration };
        let next = if declaration.symbol.storage_class == StorageClass::Static && !(
        declaration.symbol.ctype.kind is Function) {
            found.push(local)
        } else {
            found
        };
        declared_are_found(declarations, index + 1, function, next);
        assert(still_found(found, next)) by {
            assert forall|one: StaticLocalView|
                found.contains(one) implies #[trigger] next.contains(one) by {
                let k = choose|k: int| 0 <= k < found.len() && found[k] == one;
                assert(next[k] == one);
            }
        }
        if next.len() > found.len() {
            assert(next[found.len() as int] == local);
            assert(next.contains(local));
        }
    }
}

proof fn finding_goes_on(statement: Stmt, function: usize, found: Seq<StaticLocalView>)
    ensures
        still_found(found, stmt_statics(statement, function, found)),
    decreases statement, 0nat,
{
    match statement.data {
        StmtType::Compound(statements) => finding_goes_on_in(statements@, 0, function, found),
        StmtType::Decl(declarations) => declared_are_found(declarations@, 0, function, found),
        StmtType::If(_, yes, no) => {
            finding_goes_on(*yes, function, found);
            if let Some(no) = no {
                finding_goes_on(*no, function, stmt_statics(*yes, function, found));
            }
        },
        StmtType::Do(body, _) => finding_goes_on(*body, function, found),
        StmtType::While(_, body) => finding_goes_on(*body, function, found),
        StmtType::For(init, _, _, body) => {
            finding_goes_on(*init, function, found);
            finding_goes_on(*body, function, stmt_statics(*init, function, found));
        },
        StmtType::Switch(_, body) => finding_goes_on(*body, function, found),
        StmtType::Label(_, body) => finding_goes_on(*body, function, found),
        StmtType::Case(_, body) => finding_goes_on(*body, function, found),
        StmtType::Default(body) => finding_goes_on(*body, function, found),
        _ => {},
    }
}

proof fn finding_goes_on_in(
    statements: Seq<Stmt>,
    index: nat,
    function: usize,
    found: Seq<StaticLocalView>,
)
    ensures
        still_found(found, stmts_statics(statements, index, function, found)),
    decreases statements, statements.len() - index,
{
    if index < statements.len() {
        finding_goes_on(statements[index as int], function, found);
        finding_goes_on_in(
            statements,
            index + 1,
            function,
            stmt_statics(statements[index as int], function, found),
        );
    }
}

/// Every static object that a statement declares is found.
pub proof fn every_static_of_a_statement_is_found(
    statement: Stmt,
    function: usize,
    found: Seq<StaticLocalView>,
    declaration: Declaration,
)
    requires
        declares_static(statement, declaration),
    ensures
        stmt_statics(statement, function, found).contains(
            StaticLocalView { function, declaration },
        ),
    decreases statement, 0nat,
{
    match statement.data {
        StmtType::Compound(statements) => statics_of_statements(
            statements@,
            0,
            function,
            found,
            declaration,
        ),
        StmtType::Decl(declarations) => {
            declared_are_found(declarations@, 0, function, found);
            let i = choose|i: int| 0 <= i < declarations@.len() && declarations@[i] == declaration;
            assert(declarations@[i] == declaration);
        },
        StmtType::If(_, yes, no) => {
            let first = stmt_statics(*yes, function, found);
            if declares_static(*yes, declaration) {
                every_static_of_a_statement_is_found(*yes, function, found, declaration);
                if let Some(no) = no {
                    finding_goes_on(*no, function, first);
                }
            } else if let Some(no) = no {
                every_static_of_a_statement_is_found(*no, function, first, declaration);
            }
        },
        StmtType::Do(body, _) => every_static_of_a_statement_is_found(
            *body,
            function,
            found,
            declaration,
        ),
        StmtType::While(_, body) => every_static_of_a_statement_is_found(
            *body,
            function,
            found,
            declaration,
        ),
        StmtType::For(init, _, _, body) => {
            let first = stmt_statics(*init, function, found);
            if declares_static(*init, declaration) {
                every_static_of_a_statement_is_found(*init, function, found, declaration);
                finding_goes_on(*body, function, first);
            } else {
                every_static_of_a_statement_is_found(*body, function, first, declaration);
            }
        },
        StmtType::Switch(_, body) => every_static_of_a_statement_is_found(
            *body,
            function,
            found,
            declaration,
        ),
        StmtType::Label(_, body) => every_static_of_a_statement_is_found(
            *body,
            function,
            found,
            declaration,
        ),
        StmtType::Case(_, body) => every_static_of_a_statement_is_found(
            *body,
            function,
            found,
            declaration,
        ),
        StmtType::Default(body) => every_static_of_a_statement_is_found(
            *body,
            function,
            found,
            declaration,
        ),
        _ => {},
    }
}

proof fn statics_of_statements(
    statements: Seq<Stmt>,
    index: nat,
    function: usize,
    found: Seq<StaticLocalView>,
    declaration: Declaration,
)
    requires
        some_declares_static(statements, index, declaration),
    ensures
        stmts_statics(statements, index, function, found).contains(
            StaticLocalView { function, declaration },
        ),
    decreases statements, statements.len() - index,
{
    let next = stmt_statics(statements[index as int], function, found);
    if declares_static(statements[index as int], declaration) {
        every_static_of_a_statement_is_found(
            statements[index as int],
            function,
            found,
            declaration,
        );
        finding_goes_on_in(statements, index + 1, function, next);
    } else {
        statics_of_statements(statements, index + 1, function, next, declaration);
    }
}

proof fn units_go_on(declarations: Seq<Declaration>, index: nat, found: Seq<StaticLocalView>)
    ensures
        still_found(found, unit_statics(declarations, index, found)),
    decreases declarations.len() - index,
{
    if index < declarations.len() {
        let next = match declarations[index as int].init {
            Some(Initializer::FunctionBody(body)) => stmts_statics(body@, 0, index as usize, found),
            _ => found,
        };
        if let Some(Initializer::FunctionBody(body)) = declarations[index as int].init {
            finding_goes_on_in(body@, 0, index as usize, found);
        }
        units_go_on(declarations, index + 1, next);
    }
}

/// Every static object that a function of a translation unit declares is
/// found, with the position of the function.
pub proof fn every_static_of_a_unit_is_found(
    declarations: Seq<Declaration>,
    from: nat,
    index: nat,
    body: Vec<Stmt>,
    declaration: Declaration,
    found: Seq<StaticLocalView>,
)
    requires
        from <= index < declarations.len(),
        declarations[index as int].init == Some(Initializer::FunctionBody(body)),
        some_declares_static(body@, 0, declaration),
    ensures
        unit_statics(declarations, from, found).contains(
            StaticLocalView { function: index as usize, declaration },
        ),
    decreases declarations.len() - from,
{
    let next = match declarations[from as int].init {
        Some(Initializer::FunctionBody(body)) => stmts_statics(body@, 0, from as usize, found),
        _ => found,
    };
    if from == index {
        statics_of_statements(body@, 0, index as usize, found, declaration);
        units_go_on(declarations, from + 1, next);
    } else {
        every_static_of_a_unit_is_found(declarations, from + 1, index, body, declaration, next);
    }
}

} // verus!
