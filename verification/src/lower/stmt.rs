//! Lowering of statements.

use crate::error::{outcome, unsupported, Error, Location};
use crate::hir::{Declaration, Expr, Stmt, StmtType};
use crate::ir::{IntCC, IrType, Op, UnaryInst};
use crate::lower::state::{find_case, switches_view, FunctionLowerer, SwitchTargets};
use crate::lower::stmt_model::{
    break_spec, case_blocks_spec, case_spec, continue_spec, declarations_spec, default_spec,
    dispatch_spec, do_spec, fallen, for_head_spec, for_spec, if_spec, kind_name, label_spec,
    labels_from, labels_spec, loop_closed, loop_opened, return_spec, returned_value,
    statements_spec, stmt_spec, switch_head_spec, switch_spec, while_spec, SwitchLabels,
};
use crate::types::{is_by_value_aggregate, is_signed_integer_type};
use vstd::prelude::*;

verus! {

broadcast use vstd::std_specs::hash::group_hash_axioms;

/// The labels of one switch, as they are found.
struct LabelList {
    values: Vec<u64>,
    has_default: bool,
}

impl View for LabelList {
    type V = SwitchLabels;

    closed spec fn view(&self) -> SwitchLabels {
        SwitchLabels { values: self.values@, has_default: self.has_default }
    }
}

/// Adds the labels of a switch inside a statement.
fn collect_labels(statement: &Stmt, found: &mut LabelList)
    ensures
        final(found)@ == labels_spec(*statement, old(found)@),
    decreases statement, 0nat,
{
    match &statement.data {
        StmtType::Case(value, inner) => {
            found.values.push(*value);
            collect_labels(inner, found);
        },
        StmtType::Default(inner) => {
            found.has_default = true;
            collect_labels(inner, found);
        },
        StmtType::Compound(statements) => {
            collect_labels_in(statements, found);
        },
        StmtType::If(_, yes, no) => {
            collect_labels(yes, found);
            if let Some(no) = no {
                collect_labels(no, found);
            }
        },
        StmtType::While(_, inner) => {
            collect_labels(inner, found);
        },
        StmtType::Do(inner, _) => {
            collect_labels(inner, found);
        },
        StmtType::Label(_, inner) => {
            collect_labels(inner, found);
        },
        StmtType::For(_, _, _, inner) => {
            collect_labels(inner, found);
        },
        _ => {},
    }
}

/// Adds the labels of a switch inside the statements.
fn collect_labels_in(statements: &Vec<Stmt>, found: &mut LabelList)
    ensures
        final(found)@ == labels_from(statements@, 0, old(found)@),
    decreases statements@, statements@.len() + 1,
{
    let mut index: usize = 0;
    while index < statements.len()
        invariant
            index <= statements@.len(),
            labels_from(statements@, index as nat, found@) == labels_from(
                statements@,
                0,
                old(found)@,
            ),
        decreases statements@.len() - index,
    {
        collect_labels(&statements[index], found);
        index += 1;
    }
}

/// The name of a kind of statement. Every kind has one.
pub fn statement_kind(statement: &Stmt) -> (result: &'static str)
    ensures
        result@ == kind_name(*statement),
{
    match &statement.data {
        StmtType::Compound(_) => "compound",
        StmtType::If(_, _, _) => "if",
        StmtType::Do(_, _) => "do",
        StmtType::While(_, _) => "while",
        StmtType::For(_, _, _, _) => "for",
        StmtType::Switch(_, _) => "switch",
        StmtType::Label(_, _) => "label",
        StmtType::Case(_, _) => "case",
        StmtType::Default(_) => "default",
        StmtType::Expr(_) => "expr",
        StmtType::Goto(_) => "goto",
        StmtType::Continue => "continue",
        StmtType::Break => "break",
        StmtType::Return(_) => "return",
        StmtType::Decl(_) => "decl",
    }
}

impl<'c> FunctionLowerer<'c> {
    /// Opens a loop.
    fn open_loop(&mut self, next: usize, exit: usize)
        ensures
            final(self)@ == loop_opened(old(self)@, next, exit),
    {
        self.terminated = false;
        self.loop_targets.push((next, exit));
        self.break_targets.push(exit);
    }

    /// Closes the innermost loop.
    fn close_loop(&mut self)
        ensures
            final(self)@ == loop_closed(old(self)@),
    {
        let _ = self.break_targets.pop();
        let _ = self.loop_targets.pop();
    }

    /// Jumps to `block`, unless the current block has ended.
    fn fall_into(&mut self, block: usize)
        ensures
            final(self)@ == fallen(old(self)@, block),
    {
        if !self.terminated {
            self.emit(Op::Jump { block });
        }
    }

    /// Lowers a statement.
    pub fn compile_stmt(&mut self, statement: &Stmt) -> (result: Result<(), Error>)
        ensures
            (final(self)@, outcome(result)) == stmt_spec(old(self)@, *statement),
        decreases statement, 1nat,
    {
        // A label starts a new reachable block even when the preceding
        // statement ended its own, for example with goto or return.
        if let StmtType::Label(label, inner) = &statement.data {
            return self.compile_label(*label, inner);
        }
        if self.terminated && !matches!(
            statement.data,
            StmtType::Compound(_) | StmtType::Case(_, _) | StmtType::Default(_)
        ) {
            return Ok(());
        }
        match &statement.data {
            // Nothing is pruned here: labels, including case and default
            // labels, can restore reachability after a terminating statement.
            StmtType::Compound(statements) => self.compile_statements(statements),
            StmtType::Decl(declarations) => self.compile_declarations(declarations),
            StmtType::Expr(expression) => {
                let _ = self.compile_expr(expression)?;
                Ok(())
            },
            StmtType::Return(value) => {
                let value = match value {
                    Some(expression) => Some(&**expression),
                    None => None,
                };
                self.compile_return(value, statement.location)
            },
            StmtType::If(condition, yes, no) => self.compile_if(statement, condition, yes, no),
            StmtType::Do(body, condition) => self.compile_do(body, condition),
            StmtType::For(init, condition, step, body) => {
                self.compile_for(statement, init, condition, step, body)
            },
            StmtType::While(condition, body) => self.compile_while(condition, body),
            StmtType::Break => self.compile_break(statement.location),
            StmtType::Goto(label) => {
                let block: usize = self.label_block(*label);
                self.emit(Op::Jump { block });
                self.terminated = true;
                Ok(())
            },
            StmtType::Continue => self.compile_continue(statement.location),
            StmtType::Switch(expression, body) => self.compile_switch(expression, body),
            StmtType::Case(value, inner) => self.compile_case(*value, inner, statement.location),
            StmtType::Default(inner) => self.compile_default(inner, statement.location),
            StmtType::Label(_, _) => Ok(()),
        }
    }

    /// Lowers a list of statements.
    pub fn compile_statements(&mut self, statements: &Vec<Stmt>) -> (result: Result<(), Error>)
        ensures
            (final(self)@, outcome(result)) == statements_spec(old(self)@, statements@, 0),
        decreases statements@, statements@.len() + 1,
    {
        let ghost start = self@;
        let mut index: usize = 0;
        while index < statements.len()
            invariant
                index <= statements@.len(),
                start == old(self)@,
                statements_spec(self@, statements@, index as nat) == statements_spec(
                    start,
                    statements@,
                    0,
                ),
            decreases statements@.len() - index,
        {
            self.compile_stmt(&statements[index])?;
            index += 1;
        }
        Ok(())
    }

    /// Lowers the declarations of one declaration statement.
    fn compile_declarations(&mut self, declarations: &Vec<Declaration>) -> (result: Result<
        (),
        Error,
    >)
        ensures
            (final(self)@, outcome(result)) == declarations_spec(old(self)@, declarations@, 0),
    {
        let mut index: usize = 0;
        while index < declarations.len()
            invariant
                index <= declarations@.len(),
                declarations_spec(self@, declarations@, index as nat) == declarations_spec(
                    old(self)@,
                    declarations@,
                    0,
                ),
            decreases declarations@.len() - index,
        {
            self.compile_local(&declarations[index])?;
            index += 1;
        }
        Ok(())
    }

    /// Lowers a labelled statement.
    fn compile_label(&mut self, label: u32, inner: &Stmt) -> (result: Result<(), Error>)
        ensures
            (final(self)@, outcome(result)) == label_spec(old(self)@, label, *inner),
        decreases inner, 2nat,
    {
        let block: usize = self.label_block(label);
        self.fall_into(block);
        self.switch_to_block(block);
        self.terminated = false;
        self.compile_stmt(inner)
    }

    /// Brings a value to the machine type that the function returns.
    fn convert_returned(&mut self, value: usize, expression: &Expr) -> (result: usize)
        ensures
            (final(self)@, result) == returned_value(old(self)@, value, expression.ctype),
    {
        match self.return_type {
            Some(ty) => {
                let value_ty = self.value_type(value);
                if value_ty == ty {
                    value
                } else if value_ty.bits() < ty.bits() {
                    let inst = if is_signed_integer_type(&expression.ctype) {
                        UnaryInst::Sextend
                    } else {
                        UnaryInst::Uextend
                    };
                    self.emit(Op::Unary { inst, ty, value })
                } else {
                    self.emit(Op::Unary { inst: UnaryInst::Ireduce, ty, value })
                }
            },
            None => value,
        }
    }

    /// Lowers a return.
    fn compile_return(&mut self, value: Option<&Expr>, location: Location) -> (result: Result<
        (),
        Error,
    >)
        ensures
            (final(self)@, outcome(result)) == return_spec(
                old(self)@,
                (match value {
                    Some(expression) => Some(*expression),
                    None => None,
                }),
                location,
            ),
    {
        if let Some(destination) = self.aggregate_return_address {
            let expression = match value {
                Some(expression) => expression,
                None => {
                    return Err(
                        unsupported(
                            location,
                            "aggregate-returning function requires a return value",
                        ),
                    );
                },
            };
            if !is_by_value_aggregate(&expression.ctype) {
                return Err(
                    unsupported(
                        location,
                        "aggregate return expression must have struct or union type",
                    ),
                );
            }
            let source: usize = self.compile_expr(expression)?;
            self.copy_aggregate_value(destination, source, &expression.ctype, location)?;
            self.emit(Op::Return);
            self.terminated = true;
            return Ok(());
        }
        match value {
            Some(expression) => {
                let value: usize = self.compile_expr(expression)?;
                let value: usize = self.convert_returned(value, expression);
                self.emit(Op::ReturnValue { value });
            },
            None => {
                self.emit(Op::Return);
            },
        }
        self.terminated = true;
        Ok(())
    }

    /// Lowers a choice between two statements.
    fn compile_if(
        &mut self,
        statement: &Stmt,
        condition: &Expr,
        yes: &Stmt,
        no: &Option<Box<Stmt>>,
    ) -> (result: Result<(), Error>)
        requires
            statement.data matches StmtType::If(c, y, n) && *c == *condition && *y == *yes && n
                == *no,
        ensures
            (final(self)@, outcome(result)) == if_spec(old(self)@, *statement),
        decreases statement, 0nat,
    {
        let condition: usize = self.compile_condition(condition)?;
        let yes_block: usize = self.emit(Op::CreateBlock);
        let no_block: usize = self.emit(Op::CreateBlock);
        let merge_block: usize = self.emit(Op::CreateBlock);
        self.emit(Op::Branch { condition, yes: yes_block, no: no_block });

        self.switch_to_sealed(yes_block);
        self.terminated = false;
        self.compile_stmt(yes)?;
        let yes_ended = self.terminated;
        self.fall_into(merge_block);

        self.switch_to_sealed(no_block);
        self.terminated = false;
        if let Some(no) = no {
            self.compile_stmt(no)?;
        }
        let no_ended = self.terminated;
        self.fall_into(merge_block);

        if !(yes_ended && no_ended) {
            self.switch_to_sealed(merge_block);
            self.terminated = false;
        }
        Ok(())
    }

    /// Lowers a loop that tests its condition after the body.
    ///
    /// The body's block has an edge back from the condition, so it is sealed
    /// only after that edge has been built.
    fn compile_do(&mut self, body: &Stmt, condition: &Expr) -> (result: Result<(), Error>)
        ensures
            (final(self)@, outcome(result)) == do_spec(old(self)@, *body, *condition),
        decreases body, 2nat,
    {
        let body_block: usize = self.emit(Op::CreateBlock);
        let condition_block: usize = self.emit(Op::CreateBlock);
        let exit: usize = self.emit(Op::CreateBlock);
        self.emit(Op::Jump { block: body_block });
        self.switch_to_block(body_block);
        self.open_loop(condition_block, exit);
        self.compile_stmt(body)?;
        self.close_loop();
        self.fall_into(condition_block);

        self.switch_to_block(condition_block);
        let condition: usize = self.compile_condition(condition)?;
        self.emit(Op::Branch { condition, yes: body_block, no: exit });
        self.emit(Op::SealBlock { block: condition_block });
        self.emit(Op::SealBlock { block: body_block });

        self.switch_to_sealed(exit);
        self.terminated = false;
        Ok(())
    }

    /// Lowers a loop that tests its condition before the body.
    fn compile_while(&mut self, condition: &Expr, body: &Stmt) -> (result: Result<(), Error>)
        ensures
            (final(self)@, outcome(result)) == while_spec(old(self)@, *condition, *body),
        decreases body, 2nat,
    {
        let header: usize = self.emit(Op::CreateBlock);
        let body_block: usize = self.emit(Op::CreateBlock);
        let exit: usize = self.emit(Op::CreateBlock);
        self.emit(Op::Jump { block: header });
        self.switch_to_block(header);
        let condition: usize = self.compile_condition(condition)?;
        self.emit(Op::Branch { condition, yes: body_block, no: exit });

        self.switch_to_sealed(body_block);
        self.open_loop(header, exit);
        self.compile_stmt(body)?;
        self.close_loop();
        self.fall_into(header);

        self.emit(Op::SealBlock { block: header });
        self.switch_to_sealed(exit);
        self.terminated = false;
        Ok(())
    }

    /// Leads from the head of a `for` loop to its body or past it.
    fn compile_for_head(
        &mut self,
        condition: &Option<Box<Expr>>,
        body_block: usize,
        exit: usize,
    ) -> (result: Result<(), Error>)
        ensures
            (final(self)@, outcome(result)) == for_head_spec(
                old(self)@,
                *condition,
                body_block,
                exit,
            ),
    {
        match condition {
            Some(condition) => {
                let condition: usize = self.compile_condition(condition)?;
                self.emit(Op::Branch { condition, yes: body_block, no: exit });
            },
            None => {
                self.emit(Op::Jump { block: body_block });
            },
        }
        Ok(())
    }

    /// Lowers a loop with a start, a condition and a step.
    fn compile_for(
        &mut self,
        statement: &Stmt,
        init: &Stmt,
        condition: &Option<Box<Expr>>,
        step: &Option<Box<Expr>>,
        body: &Stmt,
    ) -> (result: Result<(), Error>)
        requires
            statement.data matches StmtType::For(i, c, s, b) && *i == *init && c == *condition && s
                == *step && *b == *body,
        ensures
            (final(self)@, outcome(result)) == for_spec(old(self)@, *statement),
        decreases statement, 0nat,
    {
        self.compile_stmt(init)?;
        if self.terminated {
            return Ok(());
        }
        let header: usize = self.emit(Op::CreateBlock);
        let body_block: usize = self.emit(Op::CreateBlock);
        let step_block: usize = self.emit(Op::CreateBlock);
        let exit: usize = self.emit(Op::CreateBlock);
        self.emit(Op::Jump { block: header });
        self.switch_to_block(header);
        self.compile_for_head(condition, body_block, exit)?;

        self.switch_to_sealed(body_block);
        self.open_loop(step_block, exit);
        self.compile_stmt(body)?;
        self.close_loop();
        self.fall_into(step_block);

        self.switch_to_sealed(step_block);
        self.terminated = false;
        if let Some(step) = step {
            let _ = self.compile_expr(step)?;
        }
        self.emit(Op::Jump { block: header });

        self.emit(Op::SealBlock { block: header });
        self.switch_to_sealed(exit);
        self.terminated = false;
        Ok(())
    }

    /// Lowers a jump out of the innermost loop or switch.
    fn compile_break(&mut self, location: Location) -> (result: Result<(), Error>)
        ensures
            (final(self)@, outcome(result)) == break_spec(old(self)@, location),
    {
        let open: usize = self.break_targets.len();
        if open == 0 {
            return Err(unsupported(location, "break outside a SIA32 loop or switch"));
        }
        let block: usize = self.break_targets[open - 1];
        self.emit(Op::Jump { block });
        self.terminated = true;
        Ok(())
    }

    /// Lowers a jump to the next round of the innermost loop.
    fn compile_continue(&mut self, location: Location) -> (result: Result<(), Error>)
        ensures
            (final(self)@, outcome(result)) == continue_spec(old(self)@, location),
    {
        let open: usize = self.loop_targets.len();
        if open == 0 {
            return Err(unsupported(location, "continue outside a SIA32 loop"));
        }
        let block: usize = self.loop_targets[open - 1].0;
        self.emit(Op::Jump { block });
        self.terminated = true;
        Ok(())
    }

    /// Makes one block for each case value.
    fn create_case_blocks(&mut self, values: &Vec<u64>) -> (result: Vec<(u64, usize)>)
        ensures
            (final(self)@, result@) == case_blocks_spec(old(self)@, values@, 0, Seq::empty()),
    {
        let mut cases: Vec<(u64, usize)> = Vec::new();
        assert(cases@ =~= Seq::empty());
        let mut index: usize = 0;
        while index < values.len()
            invariant
                index <= values@.len(),
                case_blocks_spec(self@, values@, index as nat, cases@) == case_blocks_spec(
                    old(self)@,
                    values@,
                    0,
                    Seq::empty(),
                ),
            decreases values@.len() - index,
        {
            let value: u64 = values[index];
            if find_case(&cases, value).is_none() {
                let block: usize = self.emit(Op::CreateBlock);
                cases.push((value, block));
            }
            index += 1;
        }
        cases
    }

    /// Tests the selector against each case value.
    fn dispatch_cases(&mut self, selector: usize, ty: IrType, cases: &Vec<(u64, usize)>) -> (result:
        usize)
        ensures
            (final(self)@, result) == dispatch_spec(
                old(self)@,
                selector,
                ty,
                cases@,
                0,
                old(self)@.block,
            ),
    {
        let mut dispatch: usize = self.block;
        let mut index: usize = 0;
        while index < cases.len()
            invariant
                index <= cases@.len(),
                dispatch_spec(self@, selector, ty, cases@, index as nat, dispatch)
                    == dispatch_spec(old(self)@, selector, ty, cases@, 0, old(self)@.block),
            decreases cases@.len() - index,
        {
            let (value, target) = cases[index];
            if index != 0 {
                self.switch_to_block(dispatch);
            }
            let next: usize = self.emit(Op::CreateBlock);
            let constant: usize = self.emit(
                Op::Iconst { ty, value: #[verifier::truncate] (value as i64) },
            );
            let condition: usize = self.emit(
                Op::CompareInt { condition: IntCC::Equal, left: selector, right: constant },
            );
            self.emit(Op::Branch { condition, yes: target, no: next });
            dispatch = next;
            index += 1;
        }
        dispatch
    }

    /// Makes the blocks of a switch and the tests that lead to them.
    fn open_switch(&mut self, selector: usize, body: &Stmt) -> (result: (SwitchTargets, usize))
        ensures
            (final(self)@, result.0@, result.1) == switch_head_spec(old(self)@, selector, *body),
    {
        let ty = self.value_type(selector);
        let mut labels = LabelList { values: Vec::new(), has_default: false };
        assert(labels@.values =~= Seq::empty());
        collect_labels(body, &mut labels);
        let cases = self.create_case_blocks(&labels.values);
        let default = if labels.has_default {
            Some(self.emit(Op::CreateBlock))
        } else {
            None
        };
        let exit: usize = self.emit(Op::CreateBlock);
        let dispatch: usize = self.dispatch_cases(selector, ty, &cases);
        self.switch_to_block(dispatch);
        let block: usize = match default {
            Some(block) => block,
            None => exit,
        };
        self.emit(Op::Jump { block });
        (SwitchTargets { cases, default }, exit)
    }

    /// Lowers a switch.
    fn compile_switch(&mut self, expression: &Expr, body: &Stmt) -> (result: Result<(), Error>)
        ensures
            (final(self)@, outcome(result)) == switch_spec(old(self)@, *expression, *body),
        decreases body, 2nat,
    {
        let selector: usize = self.compile_expr(expression)?;
        let (targets, exit) = self.open_switch(selector, body);
        let ghost before = self.switch_cases@;
        self.switch_cases.push(targets);
        assert(switches_view(self.switch_cases@) =~= switches_view(before).push(targets@));
        self.break_targets.push(exit);
        // The dispatch block has ended. The body's labels are still visited,
        // and other statements are skipped until one of them is reached.
        self.terminated = true;
        self.compile_stmt(body)?;
        let _ = self.break_targets.pop();
        let ghost before = self.switch_cases@;
        let _ = self.switch_cases.pop();
        assert(before.len() > 0 ==> switches_view(self.switch_cases@) =~= switches_view(
            before,
        ).drop_last());
        self.fall_into(exit);
        self.switch_to_block(exit);
        self.terminated = false;
        Ok(())
    }

    /// Lowers a statement after a case label.
    fn compile_case(&mut self, value: u64, inner: &Stmt, location: Location) -> (result: Result<
        (),
        Error,
    >)
        ensures
            (final(self)@, outcome(result)) == case_spec(old(self)@, value, *inner, location),
        decreases inner, 2nat,
    {
        let open: usize = self.switch_cases.len();
        if open == 0 {
            return Err(unsupported(location, "case outside a SIA32 switch"));
        }
        match find_case(&self.switch_cases[open - 1].cases, value) {
            None => Err(unsupported(location, "case outside a SIA32 switch")),
            Some(target) => {
                self.fall_into(target);
                self.switch_to_block(target);
                self.terminated = false;
                self.compile_stmt(inner)
            },
        }
    }

    /// Lowers a statement after a default label.
    fn compile_default(&mut self, inner: &Stmt, location: Location) -> (result: Result<(), Error>)
        ensures
            (final(self)@, outcome(result)) == default_spec(old(self)@, *inner, location),
        decreases inner, 2nat,
    {
        let open: usize = self.switch_cases.len();
        if open == 0 {
            return Err(unsupported(location, "default outside a SIA32 switch"));
        }
        match self.switch_cases[open - 1].default {
            None => Err(unsupported(location, "default outside a SIA32 switch")),
            Some(target) => {
                self.fall_into(target);
                self.switch_to_block(target);
                self.terminated = false;
                self.compile_stmt(inner)
            },
        }
    }
}

} // verus!
