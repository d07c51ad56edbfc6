//! What holds of translation units.

use crate::bundle::FunctionView;
use crate::bundle::laws::number_length;
use crate::error::Location;
use crate::hir::{
    Declaration, Expr, ExprType, Field, Initializer, LiteralValue, ScalarInitializer, Stmt,
    StmtType, StorageClass, Type, TypeKind,
};
use crate::lower::init_model::string_for_array;
use crate::lower::state::pool_position;
use crate::text::{decimal, decimal_is_injective, digit_char};
use crate::types::{align_spec, array_length, completed_spec, object_size, size_spec};
use crate::unit::data::{
    constant_value, global_elements_spec, global_members_spec, global_spec, host_size, padded,
    scalar_bytes_spec, scalar_spec, zeros, ObjectState, References,
};
use crate::unit::finish::{
    function_finished, functions_finished, numbered_symbol, unit_finished, BackendOutcome,
};
use crate::unit::plan::{data_object_spec, references_spec, ObjectLimits, Planned};
use crate::unit::statics::StaticLocalView;
use crate::unit::strings::{
    declarations_strings, expr_strings, exprs_strings, initializer_strings, items_strings,
    optional_strings, pooled, stmt_strings, stmts_strings, string_symbol,
};
use crate::unit::symbols::{
    declares_function, declares_type, function_numbers, object_numbers, static_names,
    static_numbers, static_symbol, symbols_spec, unit_names, unit_statics, unit_symbol,
    UnitSymbolsView,
};
use vstd::prelude::*;

verus! {

/// Whether no string is in the pool twice.
pub open spec fn distinct(pool: Seq<Seq<u8>>) -> bool {
    forall|i: int, j: int|
        0 <= i < j < pool.len() ==> (#[trigger] pool[i]) != (#[trigger] pool[j])
}

/// Whether the second pool has everything that the first has, at the same
/// positions, and is free of duplicates where the first is.
pub open spec fn pool_grown(before: Seq<Seq<u8>>, after: Seq<Seq<u8>>) -> bool {
    &&& before.is_prefix_of(after)
    &&& distinct(before) ==> distinct(after)
}

proof fn missing_where_not_found(pool: Seq<Seq<u8>>, bytes: Seq<u8>, from: nat)
    ensures
        pool_position(pool, bytes, from) is None ==> forall|i: int|
            from <= i < pool.len() ==> #[trigger] pool[i] != bytes,
    decreases pool.len() - from,
{
    if from < pool.len() && pool[from as int] != bytes {
        missing_where_not_found(pool, bytes, from + 1);
    }
}

proof fn pooling_grows(pool: Seq<Seq<u8>>, bytes: Seq<u8>)
    ensures
        pool_grown(pool, pooled(pool, bytes)),
{
    missing_where_not_found(pool, bytes, 0);
}

pub proof fn growing_is_transitive(a: Seq<Seq<u8>>, b: Seq<Seq<u8>>, c: Seq<Seq<u8>>)
    requires
        pool_grown(a, b),
        pool_grown(b, c),
    ensures
        pool_grown(a, c),
{
    assert forall|i: int| 0 <= i < a.len() implies a[i] == c[i] by {
        assert(a[i] == b.subrange(0, a.len() as int)[i]);
        assert(b[i] == c.subrange(0, b.len() as int)[i]);
    }
    assert(a =~= c.subrange(0, a.len() as int));
}

pub proof fn expression_grows(e: Expr, pool: Seq<Seq<u8>>)
    ensures
        pool_grown(pool, expr_strings(e, pool)),
    decreases e, 1nat,
{
    match e.expr {
        ExprType::Literal(LiteralValue::Str(bytes)) => pooling_grows(pool, bytes@),
        ExprType::FuncCall(function, arguments) => {
            expression_grows(*function, pool);
            let next = expr_strings(*function, pool);
            expressions_grow(arguments@, 0, next);
            growing_is_transitive(pool, next, exprs_strings(arguments@, 0, next));
        },
        ExprType::Member(value, _) => expression_grows(*value, pool),
        ExprType::PostIncrement(value, _) => expression_grows(*value, pool),
        ExprType::Cast(value) => expression_grows(*value, pool),
        ExprType::Deref(value) => expression_grows(*value, pool),
        ExprType::Negate(value) => expression_grows(*value, pool),
        ExprType::BitwiseNot(value) => expression_grows(*value, pool),
        ExprType::StaticRef(value) => expression_grows(*value, pool),
        ExprType::Noop(value) => expression_grows(*value, pool),
        ExprType::Binary(_, left, right) => pair_grows(e, *left, *right, pool),
        ExprType::Comma(left, right) => pair_grows(e, *left, *right, pool),
        ExprType::Ternary(condition, yes, no) => {
            expression_grows(*condition, pool);
            let first = expr_strings(*condition, pool);
            expression_grows(*yes, first);
            let second = expr_strings(*yes, first);
            expression_grows(*no, second);
            growing_is_transitive(pool, first, second);
            growing_is_transitive(pool, second, expr_strings(*no, second));
        },
        _ => {},
    }
}

proof fn pair_grows(e: Expr, left: Expr, right: Expr, pool: Seq<Seq<u8>>)
    requires
        decreases_to!(e => left),
        decreases_to!(e => right),
    ensures
        pool_grown(pool, expr_strings(right, expr_strings(left, pool))),
    decreases e, 0nat,
{
    expression_grows(left, pool);
    let next = expr_strings(left, pool);
    expression_grows(right, next);
    growing_is_transitive(pool, next, expr_strings(right, next));
}

proof fn expressions_grow(expressions: Seq<Expr>, index: nat, pool: Seq<Seq<u8>>)
    ensures
        pool_grown(pool, exprs_strings(expressions, index, pool)),
    decreases expressions, expressions.len() - index,
{
    if index < expressions.len() {
        expression_grows(expressions[index as int], pool);
        let next = expr_strings(expressions[index as int], pool);
        expressions_grow(expressions, index + 1, next);
        growing_is_transitive(pool, next, exprs_strings(expressions, index + 1, next));
    }
}

pub proof fn optional_grows(expression: Option<Box<Expr>>, pool: Seq<Seq<u8>>)
    ensures
        pool_grown(pool, optional_strings(expression, pool)),
{
    if let Some(expression) = expression {
        expression_grows(*expression, pool);
    }
}

pub proof fn initializer_grows(initializer: Initializer, pool: Seq<Seq<u8>>)
    ensures
        pool_grown(pool, initializer_strings(initializer, pool)),
    decreases initializer, 0nat,
{
    match initializer {
        Initializer::Scalar(scalar) => expression_grows(scalar.expression, pool),
        Initializer::InitializerList(items) => items_grow(items@, 0, pool),
        Initializer::Zero => {},
        Initializer::FunctionBody(statements) => statements_grow(statements@, 0, pool),
    }
}

pub proof fn items_grow(items: Seq<Initializer>, index: nat, pool: Seq<Seq<u8>>)
    ensures
        pool_grown(pool, items_strings(items, index, pool)),
    decreases items, items.len() - index,
{
    if index < items.len() {
        initializer_grows(items[index as int], pool);
        let next = initializer_strings(items[index as int], pool);
        items_grow(items, index + 1, next);
        growing_is_transitive(pool, next, items_strings(items, index + 1, next));
    }
}

pub proof fn statement_grows(statement: Stmt, pool: Seq<Seq<u8>>)
    ensures
        pool_grown(pool, stmt_strings(statement, pool)),
    decreases statement, 0nat,
{
    match statement.data {
        StmtType::Compound(statements) => statements_grow(statements@, 0, pool),
        StmtType::If(condition, yes, no) => {
            expression_grows(*condition, pool);
            let first = expr_strings(*condition, pool);
            statement_grows(*yes, first);
            let second = stmt_strings(*yes, first);
            growing_is_transitive(pool, first, second);
            if let Some(no) = no {
                statement_grows(*no, second);
                growing_is_transitive(pool, second, stmt_strings(*no, second));
            }
        },
        StmtType::Do(body, condition) => {
            statement_grows(*body, pool);
            let next = stmt_strings(*body, pool);
            expression_grows(*condition, next);
            growing_is_transitive(pool, next, expr_strings(*condition, next));
        },
        StmtType::While(condition, body) => {
            statement_grows(*body, pool);
            let next = stmt_strings(*body, pool);
            expression_grows(*condition, next);
            growing_is_transitive(pool, next, expr_strings(*condition, next));
        },
        StmtType::For(init, condition, step, body) => {
            statement_grows(*init, pool);
            let first = stmt_strings(*init, pool);
            optional_grows(condition, first);
            let second = optional_strings(condition, first);
            optional_grows(step, second);
            let third = optional_strings(step, second);
            statement_grows(*body, third);
            growing_is_transitive(pool, first, second);
            growing_is_transitive(pool, second, third);
            growing_is_transitive(pool, third, stmt_strings(*body, third));
        },
        StmtType::Switch(expression, body) => {
            expression_grows(*expression, pool);
            let next = expr_strings(*expression, pool);
            statement_grows(*body, next);
            growing_is_transitive(pool, next, stmt_strings(*body, next));
        },
        StmtType::Label(_, body) => statement_grows(*body, pool),
        StmtType::Case(_, body) => statement_grows(*body, pool),
        StmtType::Default(body) => statement_grows(*body, pool),
        StmtType::Expr(expression) => expression_grows(*expression, pool),
        StmtType::Return(value) => optional_grows(value, pool),
        StmtType::Decl(declarations) => declarations_grow(declarations@, 0, pool),
        _ => {},
    }
}

pub proof fn statements_grow(statements: Seq<Stmt>, index: nat, pool: Seq<Seq<u8>>)
    ensures
        pool_grown(pool, stmts_strings(statements, index, pool)),
    decreases statements, statements.len() - index,
{
    if index < statements.len() {
        statement_grows(statements[index as int], pool);
        let next = stmt_strings(statements[index as int], pool);
        statements_grow(statements, index + 1, next);
        growing_is_transitive(pool, next, stmts_strings(statements, index + 1, next));
    }
}

pub proof fn declarations_grow(declarations: Seq<Declaration>, index: nat, pool: Seq<Seq<u8>>)
    ensures
        pool_grown(pool, declarations_strings(declarations, index, pool)),
    decreases declarations, declarations.len() - index,
{
    if index < declarations.len() {
        let next = match declarations[index as int].init {
            Some(initializer) => initializer_strings(initializer, pool),
            None => pool,
        };
        if let Some(initializer) = declarations[index as int].init {
            initializer_grows(initializer, pool);
        }
        declarations_grow(declarations, index + 1, next);
        growing_is_transitive(pool, next, declarations_strings(declarations, index + 1, next));
    }
}

/// A translation unit holds each string literal once: equal literals share
/// one data object.
pub proof fn equal_string_literals_share_an_object(declarations: Seq<Declaration>)
    ensures
        distinct(symbols_spec(declarations).tables.strings),
{
    declarations_grow(declarations, 0, Seq::empty());
}

/// Whether every string literal of an expression is in the pool.
pub open spec fn expr_pooled(e: Expr, pool: Seq<Seq<u8>>) -> bool
    decreases e, 0nat,
{
    match e.expr {
        ExprType::Literal(LiteralValue::Str(bytes)) => pool.contains(bytes@),
        ExprType::FuncCall(function, arguments) => expr_pooled(*function, pool) && exprs_pooled(
            arguments@,
            0,
            pool,
        ),
        ExprType::Member(value, _) => expr_pooled(*value, pool),
        ExprType::PostIncrement(value, _) => expr_pooled(*value, pool),
        ExprType::Cast(value) => expr_pooled(*value, pool),
        ExprType::Deref(value) => expr_pooled(*value, pool),
        ExprType::Negate(value) => expr_pooled(*value, pool),
        ExprType::BitwiseNot(value) => expr_pooled(*value, pool),
        ExprType::StaticRef(value) => expr_pooled(*value, pool),
        ExprType::Noop(value) => expr_pooled(*value, pool),
        ExprType::Binary(_, left, right) => expr_pooled(*left, pool) && expr_pooled(*right, pool),
        ExprType::Comma(left, right) => expr_pooled(*left, pool) && expr_pooled(*right, pool),
        ExprType::Ternary(condition, yes, no) => expr_pooled(*condition, pool) && expr_pooled(
            *yes,
            pool,
        ) && expr_pooled(*no, pool),
        _ => true,
    }
}

/// Whether every string literal of the expressions from `index` on is in the
/// pool.
pub open spec fn exprs_pooled(expressions: Seq<Expr>, index: nat, pool: Seq<Seq<u8>>) -> bool
    decreases expressions, expressions.len() - index,
{
    index < expressions.len() ==> expr_pooled(expressions[index as int], pool) && exprs_pooled(
        expressions,
        index + 1,
        pool,
    )
}

pub proof fn pooled_stays(e: Expr, before: Seq<Seq<u8>>, after: Seq<Seq<u8>>)
    requires
        before.is_prefix_of(after),
        expr_pooled(e, before),
    ensures
        expr_pooled(e, after),
    decreases e, 0nat,
{
    match e.expr {
        ExprType::Literal(LiteralValue::Str(bytes)) => {
            let k = choose|k: int| 0 <= k < before.len() && before[k] == bytes@;
            assert(after.subrange(0, before.len() as int)[k] == after[k]);
            assert(after[k] == bytes@);
        },
        ExprType::FuncCall(function, arguments) => {
            pooled_stays(*function, before, after);
            all_pooled_stay(arguments@, 0, before, after);
        },
        ExprType::Member(value, _) => pooled_stays(*value, before, after),
        ExprType::PostIncrement(value, _) => pooled_stays(*value, before, after),
        ExprType::Cast(value) => pooled_stays(*value, before, after),
        ExprType::Deref(value) => pooled_stays(*value, before, after),
        ExprType::Negate(value) => pooled_stays(*value, before, after),
        ExprType::BitwiseNot(value) => pooled_stays(*value, before, after),
        ExprType::StaticRef(value) => pooled_stays(*value, before, after),
        ExprType::Noop(value) => pooled_stays(*value, before, after),
        ExprType::Binary(_, left, right) => {
            pooled_stays(*left, before, after);
            pooled_stays(*right, before, after);
        },
        ExprType::Comma(left, right) => {
            pooled_stays(*left, before, after);
            pooled_stays(*right, before, after);
        },
        ExprType::Ternary(condition, yes, no) => {
            pooled_stays(*condition, before, after);
            pooled_stays(*yes, before, after);
            pooled_stays(*no, before, after);
        },
        _ => {},
    }
}

proof fn all_pooled_stay(
    expressions: Seq<Expr>,
    index: nat,
    before: Seq<Seq<u8>>,
    after: Seq<Seq<u8>>,
)
    requires
        before.is_prefix_of(after),
        exprs_pooled(expressions, index, before),
    ensures
        exprs_pooled(expressions, index, after),
    decreases expressions, expressions.len() - index,
{
    if index < expressions.len() {
        pooled_stays(expressions[index as int], before, after);
        all_pooled_stay(expressions, index + 1, before, after);
    }
}

proof fn found_where_listed(pool: Seq<Seq<u8>>, bytes: Seq<u8>, from: nat)
    ensures
        pool_position(pool, bytes, from) is Some ==> pool.contains(bytes),
    decreases pool.len() - from,
{
    if from < pool.len() {
        if pool[from as int] == bytes {
            assert(pool.contains(bytes));
        } else {
            found_where_listed(pool, bytes, from + 1);
        }
    }
}

/// Collecting the string literals of an expression misses none: each of them
/// is in the pool afterwards.
pub proof fn every_literal_of_an_expression_is_pooled(e: Expr, pool: Seq<Seq<u8>>)
    ensures
        expr_pooled(e, expr_strings(e, pool)),
    decreases e, 0nat,
{
    match e.expr {
        ExprType::Literal(LiteralValue::Str(bytes)) => {
            found_where_listed(pool, bytes@, 0);
            let after = pooled(pool, bytes@);
            if pool_position(pool, bytes@, 0) is None {
                assert(after[pool.len() as int] == bytes@);
            }
        },
        ExprType::FuncCall(function, arguments) => {
            every_literal_of_an_expression_is_pooled(*function, pool);
            let next = expr_strings(*function, pool);
            expressions_grow(arguments@, 0, next);
            literals_are_pooled(arguments@, 0, next);
            pooled_stays(*function, next, exprs_strings(arguments@, 0, next));
        },
        ExprType::Member(value, _) => every_literal_of_an_expression_is_pooled(*value, pool),
        ExprType::PostIncrement(value, _) => every_literal_of_an_expression_is_pooled(
            *value,
            pool,
        ),
        ExprType::Cast(value) => every_literal_of_an_expression_is_pooled(*value, pool),
        ExprType::Deref(value) => every_literal_of_an_expression_is_pooled(*value, pool),
        ExprType::Negate(value) => every_literal_of_an_expression_is_pooled(*value, pool),
        ExprType::BitwiseNot(value) => every_literal_of_an_expression_is_pooled(*value, pool),
        ExprType::StaticRef(value) => every_literal_of_an_expression_is_pooled(*value, pool),
        ExprType::Noop(value) => every_literal_of_an_expression_is_pooled(*value, pool),
        ExprType::Binary(_, left, right) => {
            every_literal_of_an_expression_is_pooled(*left, pool);
            let next = expr_strings(*left, pool);
            every_literal_of_an_expression_is_pooled(*right, next);
            expression_grows(*right, next);
            pooled_stays(*left, next, expr_strings(*right, next));
        },
        ExprType::Comma(left, right) => {
            every_literal_of_an_expression_is_pooled(*left, pool);
            let next = expr_strings(*left, pool);
            every_literal_of_an_expression_is_pooled(*right, next);
            expression_grows(*right, next);
            pooled_stays(*left, next, expr_strings(*right, next));
        },
        ExprType::Ternary(condition, yes, no) => {
            every_literal_of_an_expression_is_pooled(*condition, pool);
            let first = expr_strings(*condition, pool);
            every_literal_of_an_expression_is_pooled(*yes, first);
            expression_grows(*yes, first);
            let second = expr_strings(*yes, first);
            pooled_stays(*condition, first, second);
            every_literal_of_an_expression_is_pooled(*no, second);
            expression_grows(*no, second);
            let third = expr_strings(*no, second);
            pooled_stays(*condition, second, third);
            pooled_stays(*yes, second, third);
        },
        _ => {},
    }
}

proof fn literals_are_pooled(expressions: Seq<Expr>, index: nat, pool: Seq<Seq<u8>>)
    ensures
        exprs_pooled(expressions, index, exprs_strings(expressions, index, pool)),
    decreases expressions, expressions.len() - index,
{
    if index < expressions.len() {
        let e = expressions[index as int];
        every_literal_of_an_expression_is_pooled(e, pool);
        let next = expr_strings(e, pool);
        literals_are_pooled(expressions, index + 1, next);
        expressions_grow(expressions, index + 1, next);
        pooled_stays(e, next, exprs_strings(expressions, index + 1, next));
    }
}

/// The data objects of string literals have distinct names.
pub proof fn string_objects_have_distinct_names(first: nat, second: nat)
    requires
        string_symbol(first) == string_symbol(second),
    ensures
        first == second,
{
    let prefix = "__cosmic_str_"@;
    assert(decimal(first) =~= string_symbol(first).skip(prefix.len() as int));
    assert(decimal(second) =~= string_symbol(second).skip(prefix.len() as int));
    decimal_is_injective(first, second);
}

/// A number in base ten has no underscore.
proof fn decimal_has_digits(value: nat)
    ensures
        forall|i: int| 0 <= i < decimal(value).len() ==> #[trigger] decimal(value)[i] != '_',
    decreases value,
{
    let last = value % 10;
    assert(digit_char(last) == (48 + last) as char);
    assert((48 + last) as char as u32 == 48 + last);
    assert('_' as u32 == 95);
    if value >= 10 {
        decimal_has_digits(value / 10);
        assert forall|i: int| 0 <= i < decimal(value).len() implies #[trigger] decimal(value)[i]
            != '_' by {
            if i < decimal(value / 10).len() {
                assert(decimal(value)[i] == decimal(value / 10)[i]);
            }
        }
    }
}

/// A number ends where an underscore starts.
proof fn numbers_end_at_underscores(first: nat, second: nat, left: Seq<char>, right: Seq<char>)
    requires
        decimal(first) + "_"@ + left == decimal(second) + "_"@ + right,
    ensures
        first == second,
        left == right,
{
    reveal_strlit("_");
    let a = decimal(first);
    let b = decimal(second);
    let whole = a + "_"@ + left;
    let other = b + "_"@ + right;
    decimal_has_digits(first);
    decimal_has_digits(second);
    assert(whole[a.len() as int] == '_');
    assert(other[b.len() as int] == '_');
    if a.len() < b.len() {
        assert(other[a.len() as int] == b[a.len() as int]);
    } else if b.len() < a.len() {
        assert(whole[b.len() as int] == a[b.len() as int]);
    }
    assert(a =~= whole.take(a.len() as int));
    assert(b =~= other.take(b.len() as int));
    decimal_is_injective(first, second);
    assert(left =~= whole.skip(a.len() as int + 1));
    assert(right =~= other.skip(b.len() as int + 1));
}

/// Static objects that functions declare have distinct names, whatever they
/// are called in the source.
pub proof fn static_locals_have_distinct_names(
    first: nat,
    second: nat,
    left: StaticLocalView,
    right: StaticLocalView,
)
    requires
        static_symbol(first, left) == static_symbol(second, right),
    ensures
        first == second,
        left.function == right.function,
        left.declaration.symbol.name@ == right.declaration.symbol.name@,
{
    let prefix = "__cosmic_static_local_"@;
    let a = decimal(first) + "_"@ + left.declaration.symbol.name@;
    let b = decimal(second) + "_"@ + right.declaration.symbol.name@;
    let x = decimal(left.function as nat) + "_"@ + a;
    let y = decimal(right.function as nat) + "_"@ + b;
    assert(x =~= static_symbol(first, left).skip(prefix.len() as int));
    assert(y =~= static_symbol(second, right).skip(prefix.len() as int));
    numbers_end_at_underscores(left.function as nat, right.function as nat, a, b);
    numbers_end_at_underscores(
        first,
        second,
        left.declaration.symbol.name@,
        right.declaration.symbol.name@,
    );
}

/// Static objects at the top level have distinct names.
pub proof fn static_globals_have_distinct_names(
    first: nat,
    second: nat,
    left: Declaration,
    right: Declaration,
)
    requires
        left.symbol.storage_class == StorageClass::Static && !declares_function(left),
        right.symbol.storage_class == StorageClass::Static && !declares_function(right),
        unit_symbol(first, left) == unit_symbol(second, right),
    ensures
        first == second,
{
    let prefix = "__cosmic_static_global_"@;
    let x = decimal(first) + "_"@ + left.symbol.name@;
    let y = decimal(second) + "_"@ + right.symbol.name@;
    assert(x =~= unit_symbol(first, left).skip(prefix.len() as int));
    assert(y =~= unit_symbol(second, right).skip(prefix.len() as int));
    numbers_end_at_underscores(first, second, left.symbol.name@, right.symbol.name@);
}

/// Whether each number leads back to its key.
spec fn numbered(numbers: Map<u32, usize>, keys: Seq<u32>) -> bool {
    forall|key: u32| #[trigger]
        numbers.contains_key(key) ==> numbers[key] < keys.len() && keys[numbers[key] as int] == key
}

proof fn functions_are_numbered(
    declarations: Seq<Declaration>,
    index: nat,
    numbers: Map<u32, usize>,
    keys: Seq<u32>,
)
    requires
        declarations.len() <= usize::MAX,
        declarations.len() <= keys.len(),
        forall|i: int| 0 <= i < declarations.len() ==> keys[i] == (#[trigger] declarations[i]).symbol.key,
        numbered(numbers, keys),
    ensures
        numbered(function_numbers(declarations, index, numbers), keys),
    decreases declarations.len() - index,
{
    if index < declarations.len() {
        let declaration = declarations[index as int];
        let next = if declares_function(declaration) {
            numbers.insert(declaration.symbol.key, index as usize)
        } else {
            numbers
        };
        functions_are_numbered(declarations, index + 1, next, keys);
    }
}

proof fn objects_are_numbered(
    declarations: Seq<Declaration>,
    index: nat,
    numbers: Map<u32, usize>,
    keys: Seq<u32>,
)
    requires
        declarations.len() <= usize::MAX,
        declarations.len() <= keys.len(),
        forall|i: int| 0 <= i < declarations.len() ==> keys[i] == (#[trigger] declarations[i]).symbol.key,
        numbered(numbers, keys),
    ensures
        numbered(object_numbers(declarations, index, numbers), keys),
    decreases declarations.len() - index,
{
    if index < declarations.len() {
        let declaration = declarations[index as int];
        let next = if !declares_function(declaration) && !declares_type(declaration) {
            numbers.insert(declaration.symbol.key, index as usize)
        } else {
            numbers
        };
        objects_are_numbered(declarations, index + 1, next, keys);
    }
}

proof fn statics_are_numbered(
    locals: Seq<StaticLocalView>,
    ordinal: nat,
    first: usize,
    numbers: Map<u32, usize>,
    keys: Seq<u32>,
)
    requires
        first + locals.len() == keys.len(),
        keys.len() <= usize::MAX,
        forall|i: int|
            0 <= i < locals.len() ==> keys[first + i] == (
            #[trigger] locals[i]).declaration.symbol.key,
        numbered(numbers, keys),
    ensures
        numbered(static_numbers(locals, ordinal, first, numbers), keys),
    decreases locals.len() - ordinal,
{
    if ordinal < locals.len() {
        let next = numbers.insert(
            locals[ordinal as int].declaration.symbol.key,
            first.wrapping_add(ordinal as usize),
        );
        statics_are_numbered(locals, ordinal + 1, first, next, keys);
    }
}

/// The numbers that lowering gives to functions and objects lead back to
/// their linkage names: a relocation to the number of a symbol is a
/// relocation to that symbol.
pub proof fn numbers_lead_back_to_symbols(declarations: Seq<Declaration>, key: u32)
    requires
        symbols_spec(declarations).keys.len() <= usize::MAX,
        symbols_spec(declarations).names.contains_key(key),
    ensures
        ({
            let symbols = symbols_spec(declarations);
            let functions = symbols.tables.functions;
            let globals = symbols.tables.globals;
            &&& functions.contains_key(key) ==> numbered_symbol(
                functions,
                symbols,
                functions[key] as nat,
            ) == Some(symbols.names[key])
            &&& globals.contains_key(key) ==> numbered_symbol(
                globals,
                symbols,
                globals[key] as nat,
            ) == Some(symbols.names[key])
        }),
{
    let symbols = symbols_spec(declarations);
    let locals = unit_statics(declarations, 0, Seq::empty());
    functions_are_numbered(declarations, 0, Map::empty(), symbols.keys);
    objects_are_numbered(declarations, 0, Map::empty(), symbols.keys);
    statics_are_numbered(
        locals,
        0,
        declarations.len() as usize,
        object_numbers(declarations, 0, Map::empty()),
        symbols.keys,
    );
}

proof fn names_stay(declarations: Seq<Declaration>, index: nat, names: Map<u32, Seq<char>>, key: u32)
    requires
        names.contains_key(key),
    ensures
        unit_names(declarations, index, names).contains_key(key),
    decreases declarations.len() - index,
{
    if index < declarations.len() {
        let declaration = declarations[index as int];
        let next = if declares_type(declaration) {
            names
        } else {
            names.insert(declaration.symbol.key, unit_symbol(index, declaration))
        };
        names_stay(declarations, index + 1, next, key);
    }
}

proof fn declarations_are_named(
    declarations: Seq<Declaration>,
    index: nat,
    names: Map<u32, Seq<char>>,
    position: int,
)
    requires
        index <= position < declarations.len(),
        !declares_type(declarations[position]),
    ensures
        unit_names(declarations, index, names).contains_key(declarations[position].symbol.key),
    decreases declarations.len() - index,
{
    let declaration = declarations[index as int];
    let next = if declares_type(declaration) {
        names
    } else {
        names.insert(declaration.symbol.key, unit_symbol(index, declaration))
    };
    if index == position {
        names_stay(declarations, index + 1, next, declaration.symbol.key);
    } else {
        declarations_are_named(declarations, index + 1, next, position);
    }
}

proof fn static_names_stay(
    locals: Seq<StaticLocalView>,
    ordinal: nat,
    names: Map<u32, Seq<char>>,
    key: u32,
)
    requires
        names.contains_key(key),
    ensures
        static_names(locals, ordinal, names).contains_key(key),
    decreases locals.len() - ordinal,
{
    if ordinal < locals.len() {
        let local = locals[ordinal as int];
        static_names_stay(
            locals,
            ordinal + 1,
            names.insert(local.declaration.symbol.key, static_symbol(ordinal, local)),
            key,
        );
    }
}

proof fn statics_are_named(
    locals: Seq<StaticLocalView>,
    ordinal: nat,
    names: Map<u32, Seq<char>>,
    position: int,
)
    requires
        ordinal <= position < locals.len(),
    ensures
        static_names(locals, ordinal, names).contains_key(
            locals[position].declaration.symbol.key,
        ),
    decreases locals.len() - ordinal,
{
    let local = locals[ordinal as int];
    let next = names.insert(local.declaration.symbol.key, static_symbol(ordinal, local));
    if ordinal == position {
        static_names_stay(locals, ordinal + 1, next, local.declaration.symbol.key);
    } else {
        statics_are_named(locals, ordinal + 1, next, position);
    }
}

/// Everything that takes storage has a linkage name: each declaration that
/// declares no type, and each static object that a function declares.
pub proof fn every_object_has_a_linkage_name(declarations: Seq<Declaration>)
    ensures
        forall|i: int|
            0 <= i < declarations.len() && !declares_type(#[trigger] declarations[i])
                ==> symbols_spec(declarations).names.contains_key(declarations[i].symbol.key),
        forall|i: int|
            0 <= i < unit_statics(declarations, 0, Seq::empty()).len() ==> symbols_spec(
                declarations,
            ).names.contains_key(
                (#[trigger] unit_statics(
                    declarations,
                    0,
                    Seq::empty(),
                )[i]).declaration.symbol.key,
            ),
{
    let locals = unit_statics(declarations, 0, Seq::empty());
    let names = unit_names(declarations, 0, Map::empty());
    assert forall|i: int|
        0 <= i < declarations.len() && !declares_type(
            #[trigger] declarations[i],
        ) implies symbols_spec(declarations).names.contains_key(
        declarations[i].symbol.key,
    ) by {
        declarations_are_named(declarations, 0, Map::empty(), i);
        static_names_stay(locals, 0, names, declarations[i].symbol.key);
    }
    assert forall|i: int| 0 <= i < locals.len() implies symbols_spec(
        declarations,
    ).names.contains_key((#[trigger] locals[i]).declaration.symbol.key) by {
        statics_are_named(locals, 0, names, i);
    }
}

proof fn elements_keep_the_size(
    object: ObjectState,
    references: References,
    base: usize,
    element: Type,
    element_size: usize,
    items: Seq<Initializer>,
    index: nat,
    location: Location,
)
    ensures
        global_elements_spec(
            object,
            references,
            base,
            element,
            element_size,
            items,
            index,
            location,
        ).0.bytes.len() == object.bytes.len(),
    decreases items, items.len() - index,
{
    if index < items.len() {
        let offset = base + index * element_size;
        if offset <= usize::MAX {
            let item = items[index as int];
            initialization_keeps_the_size(
                object,
                references,
                offset as usize,
                element,
                None,
                item,
                location,
            );
            if let (next, Ok(_)) = global_spec(
                object,
                references,
                offset as usize,
                element,
                None,
                item,
                location,
            ) {
                elements_keep_the_size(
                    next,
                    references,
                    base,
                    element,
                    element_size,
                    items,
                    index + 1,
                    location,
                );
            }
        }
    }
}

proof fn members_keep_the_size(
    object: ObjectState,
    references: References,
    base: usize,
    fields: Seq<Field>,
    items: Seq<Initializer>,
    index: nat,
    offset: usize,
    location: Location,
)
    ensures
        global_members_spec(
            object,
            references,
            base,
            fields,
            items,
            index,
            offset,
            location,
        ).0.bytes.len() == object.bytes.len(),
    decreases items, items.len() - index,
{
    if index < items.len() && index < fields.len() {
        let ctype = fields[index as int].ctype;
        let item = items[index as int];
        if let Ok(align) = host_size(
            align_spec(ctype, location),
            location,
            "struct field alignment is too large"@,
        ) {
            let start = padded(offset, align);
            if base + start <= usize::MAX {
                let at = (base + start) as usize;
                initialization_keeps_the_size(object, references, at, ctype, None, item, location);
                if let (next, Ok(_)) = global_spec(
                    object,
                    references,
                    at,
                    ctype,
                    None,
                    item,
                    location,
                ) {
                    if let Ok(size) = host_size(
                        size_spec(ctype, location),
                        location,
                        "struct field is too large"@,
                    ) {
                        if start + size <= usize::MAX {
                            members_keep_the_size(
                                next,
                                references,
                                base,
                                fields,
                                items,
                                index + 1,
                                (start + size) as usize,
                                location,
                            );
                        }
                    }
                }
            }
        }
    }
}

/// Writing an initializer does not change the size of an object.
pub proof fn initialization_keeps_the_size(
    object: ObjectState,
    references: References,
    base: usize,
    ctype: Type,
    length: Option<u64>,
    initializer: Initializer,
    location: Location,
)
    ensures
        global_spec(
            object,
            references,
            base,
            ctype,
            length,
            initializer,
            location,
        ).0.bytes.len() == object.bytes.len(),
    decreases initializer, 0nat,
{
    if let Initializer::InitializerList(items) = initializer {
        if ctype.scalar {
            if items@.len() == 1 {
                initialization_keeps_the_size(
                    object,
                    references,
                    base,
                    ctype,
                    None,
                    items@[0],
                    location,
                );
            }
        } else {
            match (ctype.kind, array_length(ctype, length)) {
                (TypeKind::Array(element, _), Some(_)) => {
                    if let Ok(size) = host_size(
                        size_spec(*element, location),
                        location,
                        "global array element is too large"@,
                    ) {
                        elements_keep_the_size(
                            object,
                            references,
                            base,
                            *element,
                            size,
                            items@,
                            0,
                            location,
                        );
                    }
                },
                (TypeKind::Struct(fields), _) => {
                    members_keep_the_size(
                        object,
                        references,
                        base,
                        fields@,
                        items@,
                        0,
                        0,
                        location,
                    );
                },
                (TypeKind::Union(fields), _) => {
                    if items@.len() == 1 && fields@.len() > 0 {
                        initialization_keeps_the_size(
                            object,
                            references,
                            base,
                            fields@[0].ctype,
                            None,
                            items@[0],
                            location,
                        );
                    }
                },
                _ => {},
            }
        }
    }
}

/// Whether the members from `index` on end inside `size` bytes, the next free
/// byte being at `offset`.
pub open spec fn members_end_inside(
    fields: Seq<Field>,
    index: nat,
    offset: usize,
    size: nat,
) -> bool
    decreases fields.len() - index,
{
    if index >= fields.len() {
        true
    } else {
        match (fields[index as int].ctype.align, fields[index as int].ctype.size) {
            (Ok(align), Ok(width)) => if align <= usize::MAX {
                let start = padded(offset, align as usize);
                &&& start + width <= size
                &&& start + width <= usize::MAX ==> members_end_inside(
                    fields,
                    index + 1,
                    (start + width) as usize,
                    size,
                )
            } else {
                true
            },
            _ => true,
        }
    }
}

/// Whether objects of the type are large enough for what they consist of: an
/// array for its elements, a struct or union for its members, a pointer for an
/// address. An array's missing bound is `length`.
pub open spec fn well_sized(ctype: Type, length: Option<u64>) -> bool
    decreases ctype,
{
    match object_size(ctype, length) {
        Err(_) => true,
        Ok(size) => if ctype.scalar {
            &&& !(ctype.kind is Array)
            &&& ctype.kind is Pointer || ctype.kind is Function ==> size >= 4
        } else {
            match ctype.kind {
                TypeKind::Array(element, _) => {
                    &&& well_sized(*element, None)
                    &&& (element.size, array_length(ctype, length)) matches (Ok(width), Some(count))
                        ==> count * width <= size
                },
                TypeKind::Struct(fields) => {
                    &&& forall|i: int|
                        0 <= i < fields@.len() ==> well_sized((#[trigger] fields@[i]).ctype, None)
                    &&& members_end_inside(fields@, 0, 0, size as nat)
                },
                TypeKind::Union(fields) => fields@.len() > 0 ==> {
                    &&& well_sized(fields@[0].ctype, None)
                    &&& fields@[0].ctype.size matches Ok(width) && width <= size
                },
                _ => true,
            }
        },
    }
}

/// Whether no string literal is longer than the array of characters that it
/// initializes.
pub open spec fn strings_fit(ctype: Type, length: Option<u64>, initializer: Initializer) -> bool
    decreases initializer,
{
    ctype.scalar || match initializer {
        Initializer::Scalar(scalar) => (
            string_for_array(ctype, scalar.expression),
            object_size(ctype, length),
        ) matches (Some(string), Ok(size)) ==> string.len() <= size,
        Initializer::InitializerList(items) => match ctype.kind {
            TypeKind::Array(element, _) => forall|i: int|
                0 <= i < items@.len() ==> strings_fit(*element, None, #[trigger] items@[i]),
            TypeKind::Struct(fields) => forall|i: int|
                0 <= i < items@.len() && i < fields@.len() ==> strings_fit(
                    fields@[i].ctype,
                    None,
                    #[trigger] items@[i],
                ),
            TypeKind::Union(fields) => items@.len() == 1 && fields@.len() > 0 ==> strings_fit(
                fields@[0].ctype,
                None,
                items@[0],
            ),
            _ => true,
        },
        _ => true,
    }
}

/// Whether an object differs from what it was only in `size` bytes from `base`
/// on: the other bytes and the earlier relocations are the same, and every
/// relocation that was added fills four of those bytes.
pub open spec fn written_inside(
    before: ObjectState,
    after: ObjectState,
    base: int,
    size: int,
) -> bool {
    &&& after.bytes.len() == before.bytes.len()
    &&& forall|i: int|
        0 <= i < before.bytes.len() && !(base <= i < base + size) ==> #[trigger] after.bytes[i]
            == before.bytes[i]
    &&& before.relocations.is_prefix_of(after.relocations)
    &&& forall|i: int|
        before.relocations.len() <= i < after.relocations.len() ==> base <= (
        #[trigger] after.relocations[i]).offset && after.relocations[i].offset + 4 <= base + size
}

/// What is written inside a part of an object after what was written inside
/// the object is written inside the object.
proof fn parts_are_inside(
    first: ObjectState,
    second: ObjectState,
    third: ObjectState,
    base: int,
    size: int,
    part: int,
    width: int,
)
    requires
        written_inside(first, second, base, size),
        written_inside(second, third, part, width),
        base <= part,
        part + width <= base + size,
    ensures
        written_inside(first, third, base, size),
{
    assert forall|i: int|
        0 <= i < first.bytes.len() && !(base <= i < base + size) implies #[trigger] third.bytes[i]
        == first.bytes[i] by {
        assert(third.bytes[i] == second.bytes[i]);
        assert(second.bytes[i] == first.bytes[i]);
    }
    assert forall|i: int| first.relocations.len() <= i < third.relocations.len() implies base <= (
    #[trigger] third.relocations[i]).offset && third.relocations[i].offset + 4 <= base + size by {
        if i < second.relocations.len() {
            assert(third.relocations[i] == second.relocations[i]);
        }
    }
}

proof fn scalar_is_written_inside(
    object: ObjectState,
    references: References,
    base: usize,
    ctype: Type,
    scalar: ScalarInitializer,
    location: Location,
)
    requires
        ctype.scalar,
        ctype.size is Ok,
        ctype.kind is Pointer || ctype.kind is Function ==> ctype.size->Ok_0 >= 4,
        scalar_spec(object, references, base, ctype, scalar, location).1 is Ok,
    ensures
        written_inside(
            object,
            scalar_spec(object, references, base, ctype, scalar, location).0,
            base as int,
            ctype.size->Ok_0 as int,
        ),
{
    let after = scalar_spec(object, references, base, ctype, scalar, location).0;
    if let Ok(value) = scalar_bytes_spec(scalar, ctype, location) {
        let number = constant_value(scalar.folded->Ok_0, scalar.folded_is_zero)->Ok_0;
        number_length(number, ctype.size->Ok_0 as nat);
    }
    assert(object.relocations.is_prefix_of(after.relocations));
}

proof fn elements_are_written_inside(
    object: ObjectState,
    references: References,
    base: usize,
    element: Type,
    width: usize,
    items: Seq<Initializer>,
    index: nat,
    size: nat,
    location: Location,
)
    requires
        index <= items.len(),
        items.len() * width <= size,
        well_sized(element, None),
        object_size(element, None) == Ok::<u64, Seq<char>>(width as u64),
        forall|i: int| 0 <= i < items.len() ==> strings_fit(element, None, #[trigger] items[i]),
        global_elements_spec(
            object,
            references,
            base,
            element,
            width,
            items,
            index,
            location,
        ).1 is Ok,
    ensures
        written_inside(
            object,
            global_elements_spec(
                object,
                references,
                base,
                element,
                width,
                items,
                index,
                location,
            ).0,
            base as int,
            size as int,
        ),
    decreases items, items.len() - index,
{
    if index < items.len() {
        let offset = base + index * width;
        let item = items[index as int];
        initialization_stays_inside(
            object,
            references,
            offset as usize,
            element,
            None,
            item,
            location,
        );
        let next = global_spec(
            object,
            references,
            offset as usize,
            element,
            None,
            item,
            location,
        ).0;
        assert((index + 1) * width <= items.len() * width) by (nonlinear_arith)
            requires
                index + 1 <= items.len(),
        ;
        assert((index + 1) * width == index * width + width) by (nonlinear_arith);
        assert(index * width >= 0) by (nonlinear_arith);
        assert(written_inside(object, object, base as int, size as int));
        parts_are_inside(object, object, next, base as int, size as int, offset, width as int);
        elements_are_written_inside(
            next,
            references,
            base,
            element,
            width,
            items,
            index + 1,
            size,
            location,
        );
        let after = global_elements_spec(
            next,
            references,
            base,
            element,
            width,
            items,
            index + 1,
            location,
        ).0;
        parts_are_inside(
            object,
            next,
            after,
            base as int,
            size as int,
            base as int,
            size as int,
        );
    }
}

proof fn members_are_written_inside(
    object: ObjectState,
    references: References,
    base: usize,
    fields: Seq<Field>,
    items: Seq<Initializer>,
    index: nat,
    offset: usize,
    size: nat,
    location: Location,
)
    requires
        index <= items.len(),
        items.len() <= fields.len(),
        forall|i: int| 0 <= i < fields.len() ==> well_sized((#[trigger] fields[i]).ctype, None),
        members_end_inside(fields, index, offset, size),
        forall|i: int|
            0 <= i < items.len() ==> strings_fit(fields[i].ctype, None, #[trigger] items[i]),
        global_members_spec(
            object,
            references,
            base,
            fields,
            items,
            index,
            offset,
            location,
        ).1 is Ok,
    ensures
        written_inside(
            object,
            global_members_spec(
                object,
                references,
                base,
                fields,
                items,
                index,
                offset,
                location,
            ).0,
            base as int,
            size as int,
        ),
    decreases items, items.len() - index,
{
    if index < items.len() {
        let ctype = fields[index as int].ctype;
        let item = items[index as int];
        let align = ctype.align->Ok_0;
        let width = ctype.size->Ok_0;
        let start = padded(offset, align as usize);
        let at = (base + start) as usize;
        initialization_stays_inside(object, references, at, ctype, None, item, location);
        let next = global_spec(object, references, at, ctype, None, item, location).0;
        assert(written_inside(object, object, base as int, size as int));
        parts_are_inside(
            object,
            object,
            next,
            base as int,
            size as int,
            at as int,
            width as int,
        );
        let end = (start + width) as usize;
        members_are_written_inside(
            next,
            references,
            base,
            fields,
            items,
            index + 1,
            end,
            size,
            location,
        );
        let after = global_members_spec(
            next,
            references,
            base,
            fields,
            items,
            index + 1,
            end,
            location,
        ).0;
        parts_are_inside(
            object,
            next,
            after,
            base as int,
            size as int,
            base as int,
            size as int,
        );
    }
}

/// Writing an initializer for an object stays inside the object: of an object
/// around it, the other bytes and the earlier relocations are as before, and
/// every relocation that is added lies inside. The sizes of the types must be
/// those of their members, and no string longer than its array.
pub proof fn initialization_stays_inside(
    object: ObjectState,
    references: References,
    base: usize,
    ctype: Type,
    length: Option<u64>,
    initializer: Initializer,
    location: Location,
)
    requires
        object_size(ctype, length) is Ok,
        well_sized(ctype, length),
        strings_fit(ctype, length, initializer),
        global_spec(object, references, base, ctype, length, initializer, location).1 is Ok,
    ensures
        written_inside(
            object,
            global_spec(object, references, base, ctype, length, initializer, location).0,
            base as int,
            object_size(ctype, length)->Ok_0 as int,
        ),
    decreases initializer, 0nat,
{
    let size = object_size(ctype, length)->Ok_0;
    match initializer {
        Initializer::Scalar(scalar) => {
            if ctype.scalar {
                scalar_is_written_inside(object, references, base, ctype, *scalar, location);
            }
        },
        Initializer::InitializerList(items) => {
            if ctype.scalar {
                initialization_stays_inside(
                    object,
                    references,
                    base,
                    ctype,
                    None,
                    items@[0],
                    location,
                );
            } else {
                match (ctype.kind, array_length(ctype, length)) {
                    (TypeKind::Array(element, _), Some(count)) => {
                        let width = element.size->Ok_0;
                        assert(items@.len() * width <= count * width) by (nonlinear_arith)
                            requires
                                items@.len() <= count,
                        ;
                        elements_are_written_inside(
                            object,
                            references,
                            base,
                            *element,
                            width as usize,
                            items@,
                            0,
                            size as nat,
                            location,
                        );
                    },
                    (TypeKind::Struct(fields), _) => {
                        members_are_written_inside(
                            object,
                            references,
                            base,
                            fields@,
                            items@,
                            0,
                            0,
                            size as nat,
                            location,
                        );
                    },
                    (TypeKind::Union(fields), _) => {
                        if items@.len() == 1 {
                            initialization_stays_inside(
                                object,
                                references,
                                base,
                                fields@[0].ctype,
                                None,
                                items@[0],
                                location,
                            );
                        }
                    },
                    _ => {},
                }
            }
        },
        _ => {},
    }
}

/// A data object is as large as its type, and zero where it has no
/// initializer.
pub proof fn a_data_object_has_the_size_of_its_type(
    declaration: Declaration,
    symbols: UnitSymbolsView,
    limits: ObjectLimits,
)
    requires
        data_object_spec(declaration, symbols, limits) is Ok,
    ensures
        ({
            let object = data_object_spec(declaration, symbols, limits)->Ok_0;
            let ctype = *declaration.symbol.ctype;
            let length = completed_spec(ctype, declaration.init, declaration.location)->Ok_0;
            &&& object_size(ctype, length) == Ok::<u64, Seq<char>>(object.bytes.len() as u64)
            &&& declaration.init is None ==> object.bytes == zeros(object.bytes.len())
            &&& declaration.init is None ==> object.relocations.len() == 0
        }),
{
    let ctype = *declaration.symbol.ctype;
    let location = declaration.location;
    let length = completed_spec(ctype, declaration.init, location)->Ok_0;
    let size = object_size(ctype, length)->Ok_0;
    let blank = ObjectState { bytes: zeros(size as nat), relocations: Seq::empty() };
    if let Some(initializer) = declaration.init {
        initialization_keeps_the_size(
            blank,
            references_spec(symbols),
            0,
            ctype,
            length,
            initializer,
            location,
        );
    }
}

/// Every relocation of a data object fills four of its bytes.
pub proof fn a_data_object_holds_its_relocations(
    declaration: Declaration,
    symbols: UnitSymbolsView,
    limits: ObjectLimits,
)
    requires
        data_object_spec(declaration, symbols, limits) is Ok,
        ({
            let ctype = *declaration.symbol.ctype;
            let length = completed_spec(ctype, declaration.init, declaration.location)->Ok_0;
            &&& well_sized(ctype, length)
            &&& declaration.init matches Some(initializer) ==> strings_fit(
                ctype,
                length,
                initializer,
            )
        }),
    ensures
        ({
            let object = data_object_spec(declaration, symbols, limits)->Ok_0;
            forall|i: int|
                0 <= i < object.relocations.len() ==> (#[trigger] object.relocations[i]).offset + 4
                    <= object.bytes.len()
        }),
{
    let ctype = *declaration.symbol.ctype;
    let location = declaration.location;
    let length = completed_spec(ctype, declaration.init, location)->Ok_0;
    let size = object_size(ctype, length)->Ok_0;
    let blank = ObjectState { bytes: zeros(size as nat), relocations: Seq::empty() };
    if let Some(initializer) = declaration.init {
        initialization_stays_inside(
            blank,
            references_spec(symbols),
            0,
            ctype,
            length,
            initializer,
            location,
        );
    }
}

proof fn finished_functions_are_whole(
    symbols: UnitSymbolsView,
    planned: Planned,
    outcomes: Seq<BackendOutcome>,
    index: nat,
    found: Seq<FunctionView>,
)
    requires
        found.len() == index,
        index <= planned.functions.len(),
        forall|i: int|
            0 <= i < index ==> (#[trigger] found[i]).name == planned.functions[i].name
                && found[i].code.len() > 0 && found[i].code.len() % 2 == 0,
    ensures
        functions_finished(symbols, planned, outcomes, index, found) matches Ok(functions) ==> {
            &&& functions.len() == planned.functions.len()
            &&& forall|i: int|
                0 <= i < functions.len() ==> (#[trigger] functions[i]).name
                    == planned.functions[i].name && functions[i].code.len() > 0
                    && functions[i].code.len() % 2 == 0
        },
    decreases planned.functions.len() - index,
{
    if index < planned.functions.len() {
        if let Ok(function) = function_finished(
            symbols,
            planned.functions[index as int].name,
            outcomes[index as int],
        ) {
            finished_functions_are_whole(
                symbols,
                planned,
                outcomes,
                index + 1,
                found.push(function),
            );
        }
    }
}

/// A finished bundle holds the planned functions in order, each with whole
/// instruction words, and the planned data.
pub proof fn a_finished_bundle_holds_what_was_planned(
    symbols: UnitSymbolsView,
    planned: Planned,
    outcomes: Seq<BackendOutcome>,
)
    requires
        unit_finished(symbols, planned, outcomes) is Ok,
    ensures
        ({
            let artifact = unit_finished(symbols, planned, outcomes)->Ok_0;
            &&& artifact.data == planned.data
            &&& artifact.functions.len() == planned.functions.len()
            &&& artifact.functions.len() > 0
            &&& forall|i: int|
                0 <= i < artifact.functions.len() ==> (#[trigger] artifact.functions[i]).name
                    == planned.functions[i].name && artifact.functions[i].code.len() > 0
                    && artifact.functions[i].code.len() % 2 == 0
        }),
{
    finished_functions_are_whole(symbols, planned, outcomes, 0, Seq::empty());
}

} // verus!
