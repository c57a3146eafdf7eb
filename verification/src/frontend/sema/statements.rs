//! Analysis of statements and inline assembly.

use crate::common::diagnostics::{Diagnostic, Span};
use crate::common::string_interner::Symbol;
use crate::common::text::{concat3, lossy_text};
use crate::common::types::{CType, Ty};
use crate::frontend::parser::ast::{
    AsmOperand, AsmStatement, BlockItem, BuiltinKind, Expression, ForInit, Statement, UnaryOp,
};
use crate::frontend::sema::analysis::{
    asm_checked, bare_return, block, case_seen, case_statement, compound_statement, condition,
    constraint_checked, declaration, default_statement, do_while_statement, evaluated,
    exit_statement, expression, for_head, for_start, for_statement, goto_checked, goto_statement,
    if_statement, is_lvalue, jumped, labeled_statement, labels_declared, local_labels, loop_body,
    operands_checked, optional, return_checked, return_statement, returned, statement,
    statement_inner, switch_body, switch_checked, switch_statement, targets_referenced,
    while_statement,
};
use crate::frontend::sema::analyzer::SemanticAnalyzer;
use crate::frontend::sema::scope::ScopeKind;
use crate::frontend::sema::state::State;
use std::collections::HashMap;
use vstd::prelude::*;

verus! {

broadcast use vstd::std_specs::hash::group_hash_axioms;

fn is_void(t: &CType) -> (r: bool)
    ensures
        r == (t@ == Ty::Void),
{
    match t {
        CType::Void => true,
        _ => false,
    }
}

proof fn lemma_for_start_is(st: State, init: Option<ForInit>)
    ensures
        init is None ==> for_start(st, init) == (st, true),
        init matches Some(ForInit::Declaration(d)) ==> for_start(st, init) == declaration(st, *d),
        init matches Some(ForInit::Expression(e)) ==> for_start(st, init) == evaluated(
            expression(st, *e),
        ),
{
    reveal(for_start);
}

/// Whether an expression has the form of an lvalue.
fn names_object(e: &Expression) -> (r: bool)
    ensures
        r == is_lvalue(*e),
    decreases e,
{
    match e {
        Expression::Identifier { .. } => true,
        Expression::StringLiteral { .. } => true,
        Expression::CompoundLiteral { .. } => true,
        Expression::ArraySubscript { .. } => true,
        Expression::PointerMemberAccess { .. } => true,
        Expression::MemberAccess { object, .. } => names_object(object),
        Expression::Parenthesized { inner, .. } => names_object(inner),
        Expression::UnaryOp { op, operand, .. } => match op {
            UnaryOp::Deref => true,
            UnaryOp::RealPart | UnaryOp::ImagPart => names_object(operand),
            _ => false,
        },
        Expression::Generic { .. } => true,
        Expression::BuiltinCall { builtin, .. } => match builtin {
            BuiltinKind::ChooseExpr => true,
            _ => false,
        },
        _ => false,
    }
}

impl<'a> SemanticAnalyzer<'a> {
    /// Analyzes a statement. Nesting beyond the limit is refused.
    pub fn analyze_statement(&mut self, stmt: &Statement) -> (r: Result<(), ()>)
        ensures
            final(self)@ == statement(old(self)@, *stmt).0,
            (r is Ok) == statement(old(self)@, *stmt).1,
            *final(final(self).diagnostics) == *final(old(self).diagnostics),
        decreases stmt, 3int,
    {
        match self.check_recursion_depth(Span::dummy()) {
            Ok(_) => {},
            Err(_) => {
                return Err(());
            },
        }
        let result: Result<(), ()> = self.analyze_statement_inner(stmt);
        self.decrement_recursion_depth();
        result
    }

    /// Analyzes the items of a block; the caller enters and leaves its scope.
    pub fn analyze_compound_statement(&mut self, items: &Vec<BlockItem>)
        ensures
            final(self)@ == block(old(self)@, items@, 0),
            *final(final(self).diagnostics) == *final(old(self).diagnostics),
        decreases items@, items@.len() + 1,
    {
        let ghost st = self@;
        let ghost engine = *final(self.diagnostics);
        let mut i: usize = 0;
        #[verifier::loop_isolation(false)]
        while i < items.len()
            invariant
                i <= items@.len(),
                block(self@, items@, i as int) == block(st, items@, 0),
                *final(self.diagnostics) == engine,
            decreases items@.len() - i,
        {
            match &items[i] {
                BlockItem::Declaration(d) => {
                    let _ = self.analyze_declaration(d);
                },
                BlockItem::Statement(s) => {
                    let _ = self.analyze_statement(s);
                },
            }
            i += 1;
        }
    }

    fn enter_block(&mut self)
        ensures
            final(self)@ == old(self)@.enter(ScopeKind::Block),
            *final(final(self).diagnostics) == *final(old(self).diagnostics),
    {
        self.scopes.push_scope(ScopeKind::Block);
        self.symbols.enter_scope();
    }

    fn leave_block(&mut self)
        ensures
            final(self)@ == old(self)@.leave(),
            *final(final(self).diagnostics) == *final(old(self).diagnostics),
    {
        self.symbols.leave_scope();
        self.scopes.pop_scope();
    }

    fn analyze_loop_body(&mut self, body: &Statement) -> (r: Result<(), ()>)
        ensures
            final(self)@ == loop_body(old(self)@, *body).0,
            (r is Ok) == loop_body(old(self)@, *body).1,
            *final(final(self).diagnostics) == *final(old(self).diagnostics),
        decreases body, 4int,
    {
        let prev: bool = self.in_loop;
        self.in_loop = true;
        let result: Result<(), ()> = self.analyze_statement(body);
        self.in_loop = prev;
        result
    }

    fn analyze_discarded(&mut self, e: &Expression) -> (r: Result<(), ()>)
        ensures
            final(self)@ == evaluated(expression(old(self)@, *e)).0,
            (r is Ok) == evaluated(expression(old(self)@, *e)).1,
            *final(final(self).diagnostics) == *final(old(self).diagnostics),
        decreases e, 3int,
    {
        proof {
            reveal(evaluated);
        }
        match self.analyze_expression(e) {
            Ok(_) => Ok(()),
            Err(_) => Err(()),
        }
    }

    fn analyze_optional(&mut self, e: &Option<Box<Expression>>) -> (r: Result<(), ()>)
        ensures
            final(self)@ == optional(old(self)@, *e).0,
            (r is Ok) == optional(old(self)@, *e).1,
            *final(final(self).diagnostics) == *final(old(self).diagnostics),
        decreases e, 0int,
    {
        match e {
            None => Ok(()),
            Some(x) => self.analyze_discarded(x),
        }
    }

    fn analyze_for_init(&mut self, init: &Option<ForInit>) -> (r: Result<(), ()>)
        ensures
            final(self)@ == for_start(old(self)@, *init).0,
            (r is Ok) == for_start(old(self)@, *init).1,
            *final(final(self).diagnostics) == *final(old(self).diagnostics),
        decreases init, 0int,
    {
        proof {
            lemma_for_start_is(self@, *init);
        }
        match init {
            None => Ok(()),
            Some(ForInit::Declaration(d)) => self.analyze_declaration(d),
            Some(ForInit::Expression(e)) => self.analyze_discarded(e),
        }
    }

    fn analyze_condition(&mut self, e: &Expression, span: Span, message: &str) -> (r: Result<
        (),
        (),
    >)
        ensures
            final(self)@ == condition(expression(old(self)@, *e), span, message@).0,
            (r is Ok) == condition(expression(old(self)@, *e), span, message@).1,
            *final(final(self).diagnostics) == *final(old(self).diagnostics),
        decreases e, 4int,
    {
        proof {
            reveal(condition);
        }
        let t: CType = self.analyze_expression(e)?;
        self.check_branch(&t, span, message);
        Ok(())
    }

    fn analyze_switch_body(&mut self, body: &Statement) -> (r: Result<(), ()>)
        ensures
            final(self)@ == switch_body(old(self)@, *body).0,
            (r is Ok) == switch_body(old(self)@, *body).1,
            *final(final(self).diagnostics) == *final(old(self).diagnostics),
        decreases body, 4int,
    {
        let prev_in_switch: bool = self.in_switch;
        let prev_default: bool = self.switch_has_default;
        let mut prev_cases: HashMap<i128, Span> = HashMap::new();
        std::mem::swap(&mut self.switch_case_values, &mut prev_cases);
        self.in_switch = true;
        self.switch_has_default = false;
        let result: Result<(), ()> = self.analyze_statement(body);
        self.in_switch = prev_in_switch;
        self.switch_case_values = prev_cases;
        self.switch_has_default = prev_default;
        result
    }

    fn check_switch(&mut self, t: &CType, span: Span)
        ensures
            final(self)@ == switch_checked(old(self)@, t@, span),
            *final(final(self).diagnostics) == *final(old(self).diagnostics),
    {
        proof {
            reveal(switch_checked);
        }
        if !self.is_integer_type(t) {
            self.diagnostics.emit_error(
                span,
                "switch controlling expression is not an integer type",
            );
        }
    }

    fn check_goto(&mut self, t: &CType, span: Span)
        ensures
            final(self)@ == goto_checked(old(self)@, t@, span),
            *final(final(self).diagnostics) == *final(old(self).diagnostics),
    {
        proof {
            reveal(goto_checked);
        }
        if !self.is_pointer_type(t) {
            self.diagnostics.emit_error(span, "argument to computed goto is not a pointer");
        }
    }

    fn check_return(&mut self, t: &CType, span: Span)
        ensures
            final(self)@ == return_checked(old(self)@, t@, span),
            *final(final(self).diagnostics) == *final(old(self).diagnostics),
    {
        proof {
            reveal(return_checked);
        }
        match &self.current_function_return_type {
            Some(f) => {
                if is_void(f) && !is_void(t) {
                    self.diagnostics.emit_error(span, "void function should not return a value");
                }
            },
            None => {},
        }
    }

    fn check_bare_return(&mut self, span: Span)
        ensures
            final(self)@ == bare_return(old(self)@, span),
            *final(final(self).diagnostics) == *final(old(self).diagnostics),
    {
        proof {
            reveal(bare_return);
        }
        match &self.current_function_return_type {
            Some(f) => {
                if !is_void(f) {
                    self.diagnostics.emit_warning(
                        span,
                        "non-void function should return a value",
                    );
                }
            },
            None => {},
        }
    }

    fn see_case(&mut self, value: &Expression, span: Span)
        ensures
            final(self)@ == case_seen(old(self)@, *value, span),
            *final(final(self).diagnostics) == *final(old(self).diagnostics),
    {
        proof {
            reveal(case_seen);
        }
        match value {
            Expression::IntegerLiteral { value: v, .. } => {
                let key: i128 = *v as i128;
                let previous: Option<Span> = match self.switch_case_values.get(&key) {
                    Some(s) => Some(*s),
                    None => None,
                };
                match previous {
                    Some(s) => {
                        self.diagnostics.emit(
                            Diagnostic::error(span, "duplicate case value").with_note(
                                s,
                                "previous case defined here",
                            ),
                        );
                    },
                    None => {
                        self.switch_case_values.insert(key, span);
                    },
                }
            },
            _ => {},
        }
    }

    fn analyze_statement_inner(&mut self, stmt: &Statement) -> (r: Result<(), ()>)
        ensures
            final(self)@ == statement_inner(old(self)@, *stmt).0,
            (r is Ok) == statement_inner(old(self)@, *stmt).1,
            *final(final(self).diagnostics) == *final(old(self).diagnostics),
        decreases stmt, 2int,
    {
        match stmt {
            Statement::Compound(_) => self.analyze_block(stmt),
            Statement::Expression(e) => self.analyze_optional(e),
            Statement::If { .. } => self.analyze_if(stmt),
            Statement::Switch { .. } => self.analyze_switch(stmt),
            Statement::While { .. } => self.analyze_while(stmt),
            Statement::DoWhile { .. } => self.analyze_do_while(stmt),
            Statement::For { .. } => self.analyze_for(stmt),
            Statement::Goto { .. } => self.analyze_goto(stmt),
            Statement::ComputedGoto { .. } => self.analyze_goto(stmt),
            Statement::Continue { .. } => self.analyze_exit(stmt),
            Statement::Break { .. } => self.analyze_exit(stmt),
            Statement::Return { .. } => self.analyze_return(stmt),
            Statement::Labeled { .. } => self.analyze_labeled(stmt),
            Statement::Case { .. } => self.analyze_case(stmt),
            Statement::CaseRange { .. } => self.analyze_case(stmt),
            Statement::Default { .. } => self.analyze_default(stmt),
            Statement::Declaration(d) => self.analyze_declaration(d),
            Statement::Asm(a) => self.analyze_asm_statement(a),
            Statement::LocalLabel(labels, span) => {
                self.declare_local_labels(labels, *span);
                Ok(())
            },
        }
    }

    fn analyze_block(&mut self, stmt: &Statement) -> (r: Result<(), ()>)
        requires
            stmt is Compound,
        ensures
            final(self)@ == compound_statement(old(self)@, *stmt).0,
            (r is Ok) == compound_statement(old(self)@, *stmt).1,
            *final(final(self).diagnostics) == *final(old(self).diagnostics),
        decreases stmt, 1int,
    {
        match stmt {
            Statement::Compound(c) => {
                self.enter_block();
                self.analyze_compound_statement(&c.items);
                self.leave_block();
                Ok(())
            },
            _ => Err(()),
        }
    }

    fn analyze_if(&mut self, stmt: &Statement) -> (r: Result<(), ()>)
        requires
            stmt is If,
        ensures
            final(self)@ == if_statement(old(self)@, *stmt).0,
            (r is Ok) == if_statement(old(self)@, *stmt).1,
            *final(final(self).diagnostics) == *final(old(self).diagnostics),
        decreases stmt, 1int,
    {
        match stmt {
            Statement::If { condition, then_branch, else_branch, span } => {
                self.analyze_condition(
                    condition,
                    *span,
                    "controlling expression of 'if' is not scalar",
                )?;
                self.analyze_statement(then_branch)?;
                match else_branch {
                    Some(x) => self.analyze_statement(x),
                    None => Ok(()),
                }
            },
            _ => Err(()),
        }
    }

    fn analyze_switch(&mut self, stmt: &Statement) -> (r: Result<(), ()>)
        requires
            stmt is Switch,
        ensures
            final(self)@ == switch_statement(old(self)@, *stmt).0,
            (r is Ok) == switch_statement(old(self)@, *stmt).1,
            *final(final(self).diagnostics) == *final(old(self).diagnostics),
        decreases stmt, 1int,
    {
        match stmt {
            Statement::Switch { condition, body, span } => {
                let cond_ty: CType = self.analyze_expression(condition)?;
                self.check_switch(&cond_ty, *span);
                self.analyze_switch_body(body)
            },
            _ => Err(()),
        }
    }

    fn analyze_while(&mut self, stmt: &Statement) -> (r: Result<(), ()>)
        requires
            stmt is While,
        ensures
            final(self)@ == while_statement(old(self)@, *stmt).0,
            (r is Ok) == while_statement(old(self)@, *stmt).1,
            *final(final(self).diagnostics) == *final(old(self).diagnostics),
        decreases stmt, 1int,
    {
        match stmt {
            Statement::While { condition, body, span } => {
                self.analyze_condition(
                    condition,
                    *span,
                    "controlling expression of 'while' is not scalar",
                )?;
                self.analyze_loop_body(body)
            },
            _ => Err(()),
        }
    }

    fn analyze_do_while(&mut self, stmt: &Statement) -> (r: Result<(), ()>)
        requires
            stmt is DoWhile,
        ensures
            final(self)@ == do_while_statement(old(self)@, *stmt).0,
            (r is Ok) == do_while_statement(old(self)@, *stmt).1,
            *final(final(self).diagnostics) == *final(old(self).diagnostics),
        decreases stmt, 1int,
    {
        match stmt {
            Statement::DoWhile { body, condition, span } => {
                self.analyze_loop_body(body)?;
                self.analyze_condition(
                    condition,
                    *span,
                    "controlling expression of 'do-while' is not scalar",
                )
            },
            _ => Err(()),
        }
    }

    fn analyze_for_head(&mut self, stmt: &Statement) -> (r: Result<(), ()>)
        ensures
            final(self)@ == for_head(old(self)@, *stmt).0,
            (r is Ok) == for_head(old(self)@, *stmt).1,
            *final(final(self).diagnostics) == *final(old(self).diagnostics),
        decreases stmt, 0int,
    {
        proof {
            reveal(for_start);
        }
        match stmt {
            Statement::For { init, condition, increment, .. } => {
                self.analyze_for_init(init)?;
                self.analyze_optional(condition)?;
                self.analyze_optional(increment)
            },
            _ => Ok(()),
        }
    }

    fn analyze_for(&mut self, stmt: &Statement) -> (r: Result<(), ()>)
        requires
            stmt is For,
        ensures
            final(self)@ == for_statement(old(self)@, *stmt).0,
            (r is Ok) == for_statement(old(self)@, *stmt).1,
            *final(final(self).diagnostics) == *final(old(self).diagnostics),
        decreases stmt, 1int,
    {
        match stmt {
            Statement::For { body, .. } => {
                self.enter_block();
                let head: Result<(), ()> = self.analyze_for_head(stmt);
                let result: Result<(), ()> = match head {
                    Ok(_) => self.analyze_loop_body(body),
                    Err(_) => Err(()),
                };
                self.leave_block();
                result
            },
            _ => Err(()),
        }
    }

    fn analyze_goto(&mut self, stmt: &Statement) -> (r: Result<(), ()>)
        requires
            stmt is Goto
                || stmt is ComputedGoto,
        ensures
            final(self)@ == goto_statement(old(self)@, *stmt).0,
            (r is Ok) == goto_statement(old(self)@, *stmt).1,
            *final(final(self).diagnostics) == *final(old(self).diagnostics),
        decreases stmt, 1int,
    {
        proof {
            reveal(jumped);
        }
        match stmt {
            Statement::Goto { label, span } => {
                self.scopes.reference_label(*label, *span);
                Ok(())
            },
            Statement::ComputedGoto { target, span } => {
                let ty: CType = self.analyze_expression(target)?;
                self.check_goto(&ty, *span);
                Ok(())
            },
            _ => Err(()),
        }
    }

    fn analyze_exit(&mut self, stmt: &Statement) -> (r: Result<(), ()>)
        requires
            stmt is Continue
                || stmt is Break,
        ensures
            r is Ok,
            final(self)@ == exit_statement(old(self)@, *stmt),
            *final(final(self).diagnostics) == *final(old(self).diagnostics),
        decreases stmt, 1int,
    {
        match stmt {
            Statement::Continue { span } => {
                if !self.in_loop {
                    self.diagnostics.emit_error(
                        *span,
                        "'continue' statement not in loop statement",
                    );
                }
                Ok(())
            },
            Statement::Break { span } => {
                if !self.in_loop && !self.in_switch {
                    self.diagnostics.emit_error(
                        *span,
                        "'break' statement not in loop or switch statement",
                    );
                }
                Ok(())
            },
            _ => Err(()),
        }
    }

    fn analyze_return(&mut self, stmt: &Statement) -> (r: Result<(), ()>)
        requires
            stmt is Return,
        ensures
            final(self)@ == return_statement(old(self)@, *stmt).0,
            (r is Ok) == return_statement(old(self)@, *stmt).1,
            *final(final(self).diagnostics) == *final(old(self).diagnostics),
        decreases stmt, 1int,
    {
        proof {
            reveal(returned);
        }
        match stmt {
            Statement::Return { value, span } => {
                match value {
                    Some(x) => {
                        let ret_ty: CType = self.analyze_expression(x)?;
                        self.check_return(&ret_ty, *span);
                    },
                    None => {
                        self.check_bare_return(*span);
                    },
                }
                Ok(())
            },
            _ => Err(()),
        }
    }

    fn analyze_labeled(&mut self, stmt: &Statement) -> (r: Result<(), ()>)
        requires
            stmt is Labeled,
        ensures
            final(self)@ == labeled_statement(old(self)@, *stmt).0,
            (r is Ok) == labeled_statement(old(self)@, *stmt).1,
            *final(final(self).diagnostics) == *final(old(self).diagnostics),
        decreases stmt, 1int,
    {
        match stmt {
            Statement::Labeled { label, statement: x, span, .. } => {
                self.scopes.define_label(*label, *span, self.diagnostics);
                self.analyze_statement(x)
            },
            _ => Err(()),
        }
    }

    fn analyze_case(&mut self, stmt: &Statement) -> (r: Result<(), ()>)
        requires
            stmt is Case
                || stmt is CaseRange,
        ensures
            final(self)@ == case_statement(old(self)@, *stmt).0,
            (r is Ok) == case_statement(old(self)@, *stmt).1,
            *final(final(self).diagnostics) == *final(old(self).diagnostics),
        decreases stmt, 1int,
    {
        match stmt {
            Statement::Case { value, statement: x, span } => {
                if !self.in_switch {
                    self.diagnostics.emit_error(
                        *span,
                        "'case' label not within a switch statement",
                    );
                }
                self.see_case(value, *span);
                self.analyze_statement(x)
            },
            Statement::CaseRange { statement: x, span, .. } => {
                if !self.in_switch {
                    self.diagnostics.emit_error(
                        *span,
                        "'case' label not within a switch statement",
                    );
                }
                self.analyze_statement(x)
            },
            _ => Err(()),
        }
    }

    fn analyze_default(&mut self, stmt: &Statement) -> (r: Result<(), ()>)
        requires
            stmt is Default,
        ensures
            final(self)@ == default_statement(old(self)@, *stmt).0,
            (r is Ok) == default_statement(old(self)@, *stmt).1,
            *final(final(self).diagnostics) == *final(old(self).diagnostics),
        decreases stmt, 1int,
    {
        match stmt {
            Statement::Default { statement: x, span } => {
                if !self.in_switch {
                    self.diagnostics.emit_error(
                        *span,
                        "'default' label not within a switch statement",
                    );
                }
                if self.switch_has_default {
                    self.diagnostics.emit_error(*span, "multiple default labels in one switch");
                }
                self.switch_has_default = true;
                self.analyze_statement(x)
            },
            _ => Err(()),
        }
    }

    fn declare_local_labels(&mut self, labels: &Vec<Symbol>, span: Span)
        ensures
            final(self)@ == labels_declared(old(self)@, labels@, span),
            *final(final(self).diagnostics) == *final(old(self).diagnostics),
    {
        proof {
            reveal(labels_declared);
        }
        let ghost st = self@;
        let ghost engine = *final(self.diagnostics);
        let mut i: usize = 0;
        #[verifier::loop_isolation(false)]
        while i < labels.len()
            invariant
                i <= labels@.len(),
                local_labels(self@, labels@, i as int, span) == local_labels(st, labels@, 0, span),
                *final(self.diagnostics) == engine,
            decreases labels@.len() - i,
        {
            self.scopes.declare_label(labels[i], span, true, self.diagnostics);
            i += 1;
        }
    }

    fn check_constraint(&mut self, o: &AsmOperand, is_output: bool)
        ensures
            final(self)@ == constraint_checked(old(self)@, *o, is_output),
            *final(final(self).diagnostics) == *final(old(self).diagnostics),
    {
        proof {
            reveal(constraint_checked);
        }
        let equals: bool = o.constraint.len() > 0 && o.constraint[0] == 0x3d;
        let plus: bool = o.constraint.len() > 0 && o.constraint[0] == 0x2b;
        if is_output {
            if !equals && !plus {
                let text: String = lossy_text(o.constraint.as_slice());
                let message: String = concat3(
                    "invalid output constraint '",
                    text.as_str(),
                    "': must start with '=' or '+'",
                );
                self.diagnostics.emit_error(o.span, message.as_str());
            }
            if !names_object(&o.expression) {
                self.diagnostics.emit_error(o.span, "asm output operand is not an lvalue");
            }
        } else {
            if equals {
                let text: String = lossy_text(o.constraint.as_slice());
                let message: String = concat3(
                    "invalid input constraint '",
                    text.as_str(),
                    "': input constraints must not start with '='",
                );
                self.diagnostics.emit_error(o.span, message.as_str());
            }
        }
    }

    fn check_operands(
        &mut self,
        os: &Vec<AsmOperand>,
        is_output: bool,
        seen: &mut HashMap<u32, Span>,
    )
        ensures
            final(self)@ == operands_checked(
                old(self)@,
                old(seen)@,
                os@,
                0,
                is_output,
            ).0,
            final(seen)@ == operands_checked(
                old(self)@,
                old(seen)@,
                os@,
                0,
                is_output,
            ).1,
            *final(final(self).diagnostics) == *final(old(self).diagnostics),
    {
        let ghost st = self@;
        let ghost names = seen@;
        let ghost engine = *final(self.diagnostics);
        let mut i: usize = 0;
        #[verifier::loop_isolation(false)]
        while i < os.len()
            invariant
                i <= os@.len(),
                operands_checked(self@, seen@, os@, i as int, is_output) == operands_checked(
                    st,
                    names,
                    os@,
                    0,
                    is_output,
                ),
                *final(self.diagnostics) == engine,
            decreases os@.len() - i,
        {
            let o: &AsmOperand = &os[i];
            self.check_constraint(o, is_output);
            match o.symbolic_name {
                None => {},
                Some(n) => {
                    let previous: Option<Span> = match seen.get(&n.0) {
                        Some(s) => Some(*s),
                        None => None,
                    };
                    match previous {
                        Some(s) => {
                            self.diagnostics.emit(
                                Diagnostic::error(
                                    o.span,
                                    "duplicate asm operand name",
                                ).with_note(s, "previous operand with this name"),
                            );
                        },
                        None => {
                            seen.insert(n.0, o.span);
                        },
                    }
                },
            }
            i += 1;
        }
    }

    /// Checks inline assembly: constraints, what outputs are written to, names of
    /// operands, jump targets. It never fails; what is wrong is reported.
    pub fn analyze_asm_statement(&mut self, code: &AsmStatement) -> (r: Result<(), ()>)
        ensures
            r is Ok,
            final(self)@ == asm_checked(old(self)@, *code),
            *final(final(self).diagnostics) == *final(old(self).diagnostics),
    {
        proof {
            reveal(asm_checked);
        }
        let mut seen: HashMap<u32, Span> = HashMap::new();
        self.check_operands(&code.outputs, true, &mut seen);
        self.check_operands(&code.inputs, false, &mut seen);
        let ghost st = self@;
        let ghost engine = *final(self.diagnostics);
        let labels: &Vec<Symbol> = &code.goto_labels;
        let mut i: usize = 0;
        #[verifier::loop_isolation(false)]
        while i < labels.len()
            invariant
                i <= labels@.len(),
                targets_referenced(self@, labels@, i as int, code.span) == targets_referenced(
                    st,
                    labels@,
                    0,
                    code.span,
                ),
                *final(self.diagnostics) == engine,
            decreases labels@.len() - i,
        {
            self.scopes.reference_label(labels[i], code.span);
            i += 1;
        }
        Ok(())
    }
}

} // verus!
