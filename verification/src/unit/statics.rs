//! The static objects that functions declare.

use crate::hir::{Declaration, Stmt, StmtType, StorageClass, TypeKind};
use vstd::prelude::*;

verus! {

/// A static object declared in a function, with the position of the function.
pub struct StaticLocal<'a> {
    pub function: usize,
    pub declaration: &'a Declaration,
}

/// What a [`StaticLocal`] says.
pub struct StaticLocalView {
    pub function: usize,
    pub declaration: Declaration,
}

impl View for StaticLocal<'_> {
    type V = StaticLocalView;

    open spec fn view(&self) -> StaticLocalView {
        StaticLocalView { function: self.function, declaration: *self.declaration }
    }
}

/// What a list of static objects says.
pub open spec fn statics_view(found: Seq<StaticLocal<'_>>) -> Seq<StaticLocalView> {
    Seq::new(found.len(), |i: int| found[i]@)
}

/// Whether a declaration inside a function declares a static object.
pub open spec fn is_static_object(declaration: Declaration) -> bool {
    declaration.symbol.storage_class == StorageClass::Static
        && !(declaration.symbol.ctype.kind is Function)
}

/// The static objects of a statement, after those found before it.
pub open spec fn stmt_statics(
    statement: Stmt,
    function: usize,
    found: Seq<StaticLocalView>,
) -> Seq<StaticLocalView>
    decreases statement, 0nat,
{
    match statement.data {
        StmtType::Compound(statements) => stmts_statics(statements@, 0, function, found),
        StmtType::Decl(declarations) => declared_statics(declarations@, 0, function, found),
        StmtType::If(_, yes, no) => {
            let found = stmt_statics(*yes, function, found);
            match no {
                Some(no) => stmt_statics(*no, function, found),
                None => found,
            }
        },
        StmtType::Do(body, _) => stmt_statics(*body, function, found),
        StmtType::While(_, body) => stmt_statics(*body, function, found),
        StmtType::For(init, _, _, body) => stmt_statics(
            *body,
            function,
            stmt_statics(*init, function, found),
        ),
        StmtType::Switch(_, body) => stmt_statics(*body, function, found),
        StmtType::Label(_, body) => stmt_statics(*body, function, found),
        StmtType::Case(_, body) => stmt_statics(*body, function, found),
        StmtType::Default(body) => stmt_statics(*body, function, found),
        _ => found,
    }
}

/// The static objects of the statements from `index` on.
pub open spec fn stmts_statics(
    statements: Seq<Stmt>,
    index: nat,
    function: usize,
    found: Seq<StaticLocalView>,
) -> Seq<StaticLocalView>
    decreases statements, statements.len() - index,
{
    if index >= statements.len() {
        found
    } else {
        stmts_statics(
            statements,
            index + 1,
            function,
            stmt_statics(statements[index as int], function, found),
        )
    }
}

/// The static objects among the declarations from `index` on.
pub open spec fn declared_statics(
    declarations: Seq<Declaration>,
    index: nat,
    function: usize,
    found: Seq<StaticLocalView>,
) -> Seq<StaticLocalView>
    decreases declarations.len() - index,
{
    if index >= declarations.len() {
        found
    } else {
        let declaration = declarations[index as int];
        declared_statics(
            declarations,
            index + 1,
            function,
            if is_static_object(declaration) {
                found.push(StaticLocalView { function, declaration })
            } else {
                found
            },
        )
    }
}

/// Adds the static objects of a list of statements.
pub fn collect_static_locals<'a>(
    statements: &'a Vec<Stmt>,
    function: usize,
    found: &mut Vec<StaticLocal<'a>>,
)
    ensures
        statics_view(final(found)@) == stmts_statics(
            statements@,
            0,
            function,
            statics_view(old(found)@),
        ),
    decreases statements@, statements@.len() + 1,
{
    let mut index: usize = 0;
    while index < statements.len()
        invariant
            index <= statements@.len(),
            stmts_statics(statements@, index as nat, function, statics_view(found@))
                == stmts_statics(statements@, 0, function, statics_view(old(found)@)),
        decreases statements@.len() - index,
    {
        collect_static_locals_stmt(&statements[index], function, found);
        index += 1;
    }
}

/// Adds the static objects of a statement.
fn collect_static_locals_stmt<'a>(
    statement: &'a Stmt,
    function: usize,
    found: &mut Vec<StaticLocal<'a>>,
)
    ensures
        statics_view(final(found)@) == stmt_statics(
            *statement,
            function,
            statics_view(old(found)@),
        ),
    decreases statement, 0nat,
{
    match &statement.data {
        StmtType::Compound(statements) => {
            collect_static_locals(statements, function, found);
        },
        StmtType::Decl(declarations) => {
            collect_static_declarations(declarations, function, found);
        },
        StmtType::If(_, yes, no) => {
            collect_static_locals_stmt(yes, function, found);
            if let Some(no) = no {
                collect_static_locals_stmt(no, function, found);
            }
        },
        StmtType::Do(body, _) | StmtType::While(_, body) => {
            collect_static_locals_stmt(body, function, found);
        },
        StmtType::For(init, _, _, body) => {
            collect_static_locals_stmt(init, function, found);
            collect_static_locals_stmt(body, function, found);
        },
        StmtType::Switch(_, body)
        | StmtType::Label(_, body)
        | StmtType::Case(_, body)
        | StmtType::Default(body) => {
            collect_static_locals_stmt(body, function, found);
        },
        StmtType::Expr(_)
        | StmtType::Goto(_)
        | StmtType::Continue
        | StmtType::Break
        | StmtType::Return(_) => {},
    }
}

/// Adds the static objects among the declarations of one statement.
fn collect_static_declarations<'a>(
    declarations: &'a Vec<Declaration>,
    function: usize,
    found: &mut Vec<StaticLocal<'a>>,
)
    ensures
        statics_view(final(found)@) == declared_statics(
            declarations@,
            0,
            function,
            statics_view(old(found)@),
        ),
{
    let mut index: usize = 0;
    while index < declarations.len()
        invariant
            index <= declarations@.len(),
            declared_statics(declarations@, index as nat, function, statics_view(found@))
                == declared_statics(declarations@, 0, function, statics_view(old(found)@)),
        decreases declarations@.len() - index,
    {
        let declaration = &declarations[index];
        if declaration.symbol.storage_class == StorageClass::Static && !matches!(
            declaration.symbol.ctype.kind,
            TypeKind::Function(_)
        ) {
            let ghost before = found@;
            let local = StaticLocal { function, declaration };
            found.push(local);
            assert(statics_view(found@) =~= statics_view(before).push(local@));
        }
        index += 1;
    }
}

} // verus!
