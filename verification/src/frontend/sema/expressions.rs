//! Analysis of expressions.

use crate::common::diagnostics::Span;
use crate::common::string_interner::Symbol;
use crate::common::types::{opt_ty, pointer_to, res_ty, strip, types_of, void_ptr, CType, Ty};
use crate::frontend::parser::ast::{
    span_of, BlockItem, Expression, GenericAssociation, Statement,
};
use crate::frontend::sema::analysis::{
    arguments, arrow_access, assigned, association, associations_checked, block_value,
    branch_checked, controlling, expression, expression_inner, literal_type, matches_any, met,
    selection, selection_checked, sequence, subscripted,
};
use crate::frontend::sema::analyzer::SemanticAnalyzer;
use crate::frontend::sema::scope::ScopeKind;
use crate::frontend::sema::typing::{generic_match, types_match};
use vstd::prelude::*;

verus! {

broadcast use crate::common::types::group_type_models;

fn matches_one(t: &CType, seen: &Vec<CType>) -> (r: bool)
    ensures
        r == matches_any(t@, types_of(seen@)),
{
    let mut i: usize = 0;
    while i < seen.len()
        invariant
            i <= seen@.len(),
            forall|j: int| 0 <= j < i ==> !generic_match(t@, #[trigger] types_of(seen@)[j]),
        decreases seen@.len() - i,
    {
        if types_match(t, &seen[i]) {
            assert(generic_match(t@, types_of(seen@)[i as int]));
            return true;
        }
        i += 1;
    }
    false
}

fn controlling_type(t: &CType) -> (r: CType)
    ensures
        r@ == controlling(t@),
{
    let decayed: CType = match strip(t) {
        CType::Array(elem, _) => pointer_to((&**elem).clone()),
        CType::Function { .. } => pointer_to(t.clone()),
        _ => t.clone(),
    };
    strip(&decayed).clone()
}

impl<'a> SemanticAnalyzer<'a> {
    /// Where an expression stands.
    pub fn expression_span(&self, expr: &Expression) -> (r: Span)
        ensures
            r == span_of(*expr),
    {
        proof {
            reveal(span_of);
        }
        match expr {
            Expression::IntegerLiteral { span, .. } => *span,
            Expression::FloatLiteral { span, .. } => *span,
            Expression::StringLiteral { span, .. } => *span,
            Expression::CharLiteral { span, .. } => *span,
            Expression::Identifier { span, .. } => *span,
            Expression::Parenthesized { span, .. } => *span,
            Expression::ArraySubscript { span, .. } => *span,
            Expression::FunctionCall { span, .. } => *span,
            Expression::MemberAccess { span, .. } => *span,
            Expression::PointerMemberAccess { span, .. } => *span,
            Expression::PostIncrement { span, .. } => *span,
            Expression::PostDecrement { span, .. } => *span,
            Expression::PreIncrement { span, .. } => *span,
            Expression::PreDecrement { span, .. } => *span,
            Expression::UnaryOp { span, .. } => *span,
            Expression::SizeofExpr { span, .. } => *span,
            Expression::SizeofType { span, .. } => *span,
            Expression::AlignofType { span, .. } => *span,
            Expression::AlignofExpr { span, .. } => *span,
            Expression::Cast { span, .. } => *span,
            Expression::Binary { span, .. } => *span,
            Expression::Conditional { span, .. } => *span,
            Expression::Assignment { span, .. } => *span,
            Expression::Comma { span, .. } => *span,
            Expression::CompoundLiteral { span, .. } => *span,
            Expression::StatementExpression { span, .. } => *span,
            Expression::BuiltinCall { span, .. } => *span,
            Expression::Generic { span, .. } => *span,
            Expression::AddressOfLabel { span, .. } => *span,
        }
    }

    fn type_of_literal(&self, expr: &Expression) -> (r: CType)
        ensures
            r@ == literal_type(self@, *expr),
    {
        proof {
            reveal(literal_type);
        }
        match expr {
            Expression::IntegerLiteral { value, suffix, is_hex_or_octal, .. } =>
            self.integer_literal_type(*value, suffix, *is_hex_or_octal),
            Expression::FloatLiteral { suffix, .. } => self.float_literal_type(suffix),
            Expression::StringLiteral { prefix, .. } => self.string_literal_type(prefix),
            Expression::CharLiteral { prefix, .. } => self.char_literal_type(prefix),
            _ => CType::Int,
        }
    }

    fn subscript(&mut self, base: &CType, span: Span) -> (r: Result<CType, ()>)
        ensures
            final(self)@ == subscripted(old(self)@, base@, span).0,
            res_ty(r) == subscripted(old(self)@, base@, span).1,
            *final(final(self).diagnostics) == *final(old(self).diagnostics),
    {
        proof {
            reveal(subscripted);
        }
        match self.get_pointee_type(base) {
            Some(elem) => Ok(elem),
            None => {
                if self.is_fallback_type(base) {
                    Ok(CType::Int)
                } else {
                    self.diagnostics.emit_error(
                        span,
                        "subscripted value is not an array or pointer",
                    );
                    Err(())
                }
            },
        }
    }

    fn access_through_pointer(&mut self, t: &CType, member: Symbol, span: Span) -> (r: Result<
        CType,
        (),
    >)
        ensures
            final(self)@ == arrow_access(old(self)@, t@, member, span).0,
            res_ty(r) == arrow_access(old(self)@, t@, member, span).1,
            *final(final(self).diagnostics) == *final(old(self).diagnostics),
    {
        proof {
            reveal(arrow_access);
        }
        match self.get_pointee_type(t) {
            Some(target) => self.resolve_member_type(&target, member, span),
            None => {
                if self.is_fallback_type(t) {
                    Ok(CType::Int)
                } else {
                    self.diagnostics.emit_error(
                        span,
                        "member reference base type is not a pointer",
                    );
                    Err(())
                }
            },
        }
    }

    /// Reports a value that cannot control a branch.
    pub fn check_branch(&mut self, t: &CType, span: Span, message: &str)
        ensures
            final(self)@ == branch_checked(old(self)@, t@, span, message@),
            *final(final(self).diagnostics) == *final(old(self).diagnostics),
    {
        proof {
            reveal(branch_checked);
        }
        if !self.is_scalar_type(t) {
            self.diagnostics.emit_error(span, message);
        }
    }

    fn check_assignment(&mut self, t: &CType, span: Span)
        ensures
            final(self)@ == assigned(old(self)@, t@, span),
            *final(final(self).diagnostics) == *final(old(self).diagnostics),
    {
        proof {
            reveal(assigned);
        }
        if self.is_const_qualified(t) {
            self.diagnostics.emit_error(
                span,
                "assignment of read-only variable (const-qualified)",
            );
        }
    }

    fn meet(&self, a: &CType, b: &CType) -> (r: CType)
        ensures
            r@ == met(a@, b@),
    {
        proof {
            reveal(met);
        }
        self.common_type(a, b)
    }

    /// Analyzes an expression and returns its type. Nesting beyond the limit is
    /// refused.
    pub fn analyze_expression(&mut self, expr: &Expression) -> (r: Result<CType, ()>)
        ensures
            final(self)@ == expression(old(self)@, *expr).0,
            res_ty(r) == expression(old(self)@, *expr).1,
            *final(final(self).diagnostics) == *final(old(self).diagnostics),
        decreases expr, 2int,
    {
        let span: Span = self.expression_span(expr);
        match self.check_recursion_depth(span) {
            Ok(_) => {},
            Err(_) => {
                return Err(());
            },
        }
        let result: Result<CType, ()> = self.analyze_expression_inner(expr);
        self.decrement_recursion_depth();
        result
    }

    fn analyze_expression_inner(&mut self, expr: &Expression) -> (r: Result<CType, ()>)
        ensures
            final(self)@ == expression_inner(old(self)@, *expr).0,
            res_ty(r) == expression_inner(old(self)@, *expr).1,
            *final(final(self).diagnostics) == *final(old(self).diagnostics),
        decreases expr, 1int,
    {
        match expr {
            Expression::IntegerLiteral { .. } => Ok(self.type_of_literal(expr)),
            Expression::FloatLiteral { .. } => Ok(self.type_of_literal(expr)),
            Expression::StringLiteral { .. } => Ok(self.type_of_literal(expr)),
            Expression::CharLiteral { .. } => Ok(self.type_of_literal(expr)),
            Expression::Identifier { name, span } => self.analyze_identifier(*name, *span),
            Expression::Parenthesized { inner, .. } => self.analyze_expression(inner),
            Expression::ArraySubscript { .. } => self.analyze_subscript(expr),
            Expression::FunctionCall { .. } => self.analyze_call(expr),
            Expression::MemberAccess { .. } => self.analyze_member_access(expr),
            Expression::PointerMemberAccess { .. } => self.analyze_pointer_member_access(expr),
            Expression::PostIncrement { operand, .. } => self.analyze_expression(operand),
            Expression::PostDecrement { operand, .. } => self.analyze_expression(operand),
            Expression::PreIncrement { operand, .. } => self.analyze_expression(operand),
            Expression::PreDecrement { operand, .. } => self.analyze_expression(operand),
            Expression::UnaryOp { .. } => self.analyze_unary(expr),
            Expression::SizeofExpr { .. } => self.analyze_measure(expr),
            Expression::SizeofType { .. } => self.analyze_measure(expr),
            Expression::AlignofType { .. } => self.analyze_measure(expr),
            Expression::AlignofExpr { .. } => self.analyze_measure(expr),
            Expression::Cast { .. } => self.analyze_cast(expr),
            Expression::Binary { .. } => self.analyze_binary(expr),
            Expression::Conditional { .. } => self.analyze_conditional(expr),
            Expression::Assignment { .. } => self.analyze_assignment(expr),
            Expression::Comma { exprs, .. } => self.analyze_sequence(exprs),
            Expression::CompoundLiteral { .. } => Ok(self.analyze_compound_literal(expr)),
            Expression::StatementExpression { .. } => self.analyze_block_expression(expr),
            Expression::BuiltinCall { builtin, args, .. } => Ok(
                self.analyze_builtin_call(*builtin, args),
            ),
            Expression::Generic { .. } => self.analyze_generic(expr),
            Expression::AddressOfLabel { label, span } => {
                self.scopes.reference_label(*label, *span);
                Ok(void_ptr())
            },
        }
    }

    fn analyze_subscript(&mut self, expr: &Expression) -> (r: Result<CType, ()>)
        requires
            expr is ArraySubscript,
        ensures
            final(self)@ == expression_inner(old(self)@, *expr).0,
            res_ty(r) == expression_inner(old(self)@, *expr).1,
            *final(final(self).diagnostics) == *final(old(self).diagnostics),
        decreases expr, 0int,
    {
        match expr {
            Expression::ArraySubscript { base, index, span } => {
                let base_ty: CType = self.analyze_expression(base)?;
                let _index_ty: CType = self.analyze_expression(index)?;
                self.subscript(&base_ty, *span)
            },
            _ => Err(()),
        }
    }

    fn analyze_call(&mut self, expr: &Expression) -> (r: Result<CType, ()>)
        requires
            expr is FunctionCall,
        ensures
            final(self)@ == expression_inner(old(self)@, *expr).0,
            res_ty(r) == expression_inner(old(self)@, *expr).1,
            *final(final(self).diagnostics) == *final(old(self).diagnostics),
        decreases expr, 0int,
    {
        match expr {
            Expression::FunctionCall { callee, args, span } => {
                let callee_ty: CType = self.analyze_expression(callee)?;
                self.analyze_arguments(args)?;
                self.resolve_function_call_type(&callee_ty, *span)
            },
            _ => Err(()),
        }
    }

    fn analyze_member_access(&mut self, expr: &Expression) -> (r: Result<CType, ()>)
        requires
            expr is MemberAccess,
        ensures
            final(self)@ == expression_inner(old(self)@, *expr).0,
            res_ty(r) == expression_inner(old(self)@, *expr).1,
            *final(final(self).diagnostics) == *final(old(self).diagnostics),
        decreases expr, 0int,
    {
        match expr {
            Expression::MemberAccess { object, member, span } => {
                let obj_ty: CType = self.analyze_expression(object)?;
                self.resolve_member_type(&obj_ty, *member, *span)
            },
            _ => Err(()),
        }
    }

    fn analyze_pointer_member_access(&mut self, expr: &Expression) -> (r: Result<CType, ()>)
        requires
            expr is PointerMemberAccess,
        ensures
            final(self)@ == expression_inner(old(self)@, *expr).0,
            res_ty(r) == expression_inner(old(self)@, *expr).1,
            *final(final(self).diagnostics) == *final(old(self).diagnostics),
        decreases expr, 0int,
    {
        match expr {
            Expression::PointerMemberAccess { object, member, span } => {
                let obj_ty: CType = self.analyze_expression(object)?;
                self.access_through_pointer(&obj_ty, *member, *span)
            },
            _ => Err(()),
        }
    }

    fn analyze_unary(&mut self, expr: &Expression) -> (r: Result<CType, ()>)
        requires
            expr is UnaryOp,
        ensures
            final(self)@ == expression_inner(old(self)@, *expr).0,
            res_ty(r) == expression_inner(old(self)@, *expr).1,
            *final(final(self).diagnostics) == *final(old(self).diagnostics),
        decreases expr, 0int,
    {
        match expr {
            Expression::UnaryOp { op, operand, span } => {
                let operand_ty: CType = self.analyze_expression(operand)?;
                self.resolve_unary_op_type(*op, &operand_ty, *span)
            },
            _ => Err(()),
        }
    }

    fn analyze_measure(&mut self, expr: &Expression) -> (r: Result<CType, ()>)
        requires
            expr is SizeofExpr || expr is SizeofType || expr is AlignofType || expr is AlignofExpr,
        ensures
            final(self)@ == expression_inner(old(self)@, *expr).0,
            res_ty(r) == expression_inner(old(self)@, *expr).1,
            *final(final(self).diagnostics) == *final(old(self).diagnostics),
        decreases expr, 0int,
    {
        match expr {
            Expression::SizeofExpr { operand, .. } => {
                let _ = self.analyze_expression(operand);
                Ok(self.size_t_type())
            },
            Expression::SizeofType { .. } => Ok(self.size_t_type()),
            Expression::AlignofType { .. } => Ok(self.size_t_type()),
            Expression::AlignofExpr { expr: inner, .. } => {
                let _ = self.analyze_expression(inner);
                Ok(self.size_t_type())
            },
            _ => Err(()),
        }
    }

    fn analyze_cast(&mut self, expr: &Expression) -> (r: Result<CType, ()>)
        requires
            expr is Cast,
        ensures
            final(self)@ == expression_inner(old(self)@, *expr).0,
            res_ty(r) == expression_inner(old(self)@, *expr).1,
            *final(final(self).diagnostics) == *final(old(self).diagnostics),
        decreases expr, 0int,
    {
        match expr {
            Expression::Cast { ty_name, operand, .. } => {
                let _operand_ty: CType = self.analyze_expression(operand)?;
                Ok(self.type_of_cast(ty_name))
            },
            _ => Err(()),
        }
    }

    fn analyze_binary(&mut self, expr: &Expression) -> (r: Result<CType, ()>)
        requires
            expr is Binary,
        ensures
            final(self)@ == expression_inner(old(self)@, *expr).0,
            res_ty(r) == expression_inner(old(self)@, *expr).1,
            *final(final(self).diagnostics) == *final(old(self).diagnostics),
        decreases expr, 0int,
    {
        match expr {
            Expression::Binary { op, left, right, .. } => {
                let left_ty: CType = self.analyze_expression(left)?;
                let right_ty: CType = self.analyze_expression(right)?;
                Ok(self.resolve_binary_op_type(*op, &left_ty, &right_ty))
            },
            _ => Err(()),
        }
    }

    fn analyze_conditional(&mut self, expr: &Expression) -> (r: Result<CType, ()>)
        requires
            expr is Conditional,
        ensures
            final(self)@ == expression_inner(old(self)@, *expr).0,
            res_ty(r) == expression_inner(old(self)@, *expr).1,
            *final(final(self).diagnostics) == *final(old(self).diagnostics),
        decreases expr, 0int,
    {
        match expr {
            Expression::Conditional { condition, then_expr, else_expr, span } => {
                let cond_ty: CType = self.analyze_expression(condition)?;
                self.check_branch(
                    &cond_ty,
                    *span,
                    "controlling expression of conditional is not scalar",
                );
                let then_ty: CType = match then_expr {
                    Some(x) => self.analyze_expression(x)?,
                    None => cond_ty.clone(),
                };
                let else_ty: CType = self.analyze_expression(else_expr)?;
                Ok(self.meet(&then_ty, &else_ty))
            },
            _ => Err(()),
        }
    }

    fn analyze_assignment(&mut self, expr: &Expression) -> (r: Result<CType, ()>)
        requires
            expr is Assignment,
        ensures
            final(self)@ == expression_inner(old(self)@, *expr).0,
            res_ty(r) == expression_inner(old(self)@, *expr).1,
            *final(final(self).diagnostics) == *final(old(self).diagnostics),
        decreases expr, 0int,
    {
        match expr {
            Expression::Assignment { target, value, span, .. } => {
                let target_ty: CType = self.analyze_expression(target)?;
                let _value_ty: CType = self.analyze_expression(value)?;
                self.check_assignment(&target_ty, *span);
                Ok(target_ty)
            },
            _ => Err(()),
        }
    }

    fn analyze_block_expression(&mut self, expr: &Expression) -> (r: Result<CType, ()>)
        requires
            expr is StatementExpression,
        ensures
            final(self)@ == expression_inner(old(self)@, *expr).0,
            res_ty(r) == expression_inner(old(self)@, *expr).1,
            *final(final(self).diagnostics) == *final(old(self).diagnostics),
        decreases expr, 0int,
    {
        match expr {
            Expression::StatementExpression { compound, .. } => {
                self.scopes.push_scope(ScopeKind::Block);
                self.symbols.enter_scope();
                let result: Result<CType, ()> = self.analyze_statement_expression(&compound.items);
                self.symbols.leave_scope();
                self.scopes.pop_scope();
                result
            },
            _ => Err(()),
        }
    }

    fn analyze_compound_literal(&mut self, expr: &Expression) -> (r: CType)
        requires
            expr is CompoundLiteral,
        ensures
            final(self)@ == expression_inner(old(self)@, *expr).0,
            Some(r@) == expression_inner(old(self)@, *expr).1,
            *final(final(self).diagnostics) == *final(old(self).diagnostics),
        decreases expr, 0int,
    {
        match expr {
            Expression::CompoundLiteral { ty_name, initializer: init, .. } => {
                let t: CType = self.type_of_cast(ty_name);
                let _ = self.analyze_initializer(init);
                t
            },
            _ => CType::Void,
        }
    }

    fn analyze_generic(&mut self, expr: &Expression) -> (r: Result<CType, ()>)
        requires
            expr is Generic,
        ensures
            final(self)@ == expression_inner(old(self)@, *expr).0,
            res_ty(r) == expression_inner(old(self)@, *expr).1,
            *final(final(self).diagnostics) == *final(old(self).diagnostics),
        decreases expr, 0int,
    {
        match expr {
            Expression::Generic { controlling: c, associations, span } => {
                let ctrl_ty: CType = self.analyze_expression(c)?;
                self.resolve_generic_selection(&ctrl_ty, associations, *span)
            },
            _ => Err(()),
        }
    }

    fn analyze_arguments(&mut self, args: &Vec<Expression>) -> (r: Result<(), ()>)
        ensures
            final(self)@ == arguments(old(self)@, args@, 0).0,
            (r is Ok) == arguments(old(self)@, args@, 0).1,
            *final(final(self).diagnostics) == *final(old(self).diagnostics),
        decreases args@, args@.len() + 1,
    {
        let ghost st = self@;
        let ghost engine = *final(self.diagnostics);
        let mut i: usize = 0;
        #[verifier::loop_isolation(false)]
        while i < args.len()
            invariant
                i <= args@.len(),
                arguments(self@, args@, i as int) == arguments(st, args@, 0),
                *final(self.diagnostics) == engine,
            decreases args@.len() - i,
        {
            match self.analyze_expression(&args[i]) {
                Ok(_) => {},
                Err(_) => {
                    return Err(());
                },
            }
            i += 1;
        }
        Ok(())
    }

    fn analyze_sequence(&mut self, exprs: &Vec<Expression>) -> (r: Result<CType, ()>)
        ensures
            final(self)@ == sequence(old(self)@, exprs@, 0, Ty::Void).0,
            res_ty(r) == sequence(old(self)@, exprs@, 0, Ty::Void).1,
            *final(final(self).diagnostics) == *final(old(self).diagnostics),
        decreases exprs@, exprs@.len() + 1,
    {
        let ghost st = self@;
        let ghost engine = *final(self.diagnostics);
        let mut last: CType = CType::Void;
        let mut i: usize = 0;
        #[verifier::loop_isolation(false)]
        while i < exprs.len()
            invariant
                i <= exprs@.len(),
                sequence(self@, exprs@, i as int, last@) == sequence(st, exprs@, 0, Ty::Void),
                *final(self.diagnostics) == engine,
            decreases exprs@.len() - i,
        {
            match self.analyze_expression(&exprs[i]) {
                Ok(t) => {
                    last = t;
                },
                Err(_) => {
                    return Err(());
                },
            }
            i += 1;
        }
        Ok(last)
    }

    /// Analyzes the items of a statement expression and returns the type of the
    /// last expression statement among them.
    fn analyze_statement_expression(&mut self, items: &Vec<BlockItem>) -> (r: Result<CType, ()>)
        ensures
            final(self)@ == block_value(old(self)@, items@, 0, Ty::Void).0,
            res_ty(r) == block_value(old(self)@, items@, 0, Ty::Void).1,
            *final(final(self).diagnostics) == *final(old(self).diagnostics),
        decreases items@, items@.len() + 1,
    {
        let ghost st = self@;
        let ghost engine = *final(self.diagnostics);
        let mut last: CType = CType::Void;
        let mut i: usize = 0;
        #[verifier::loop_isolation(false)]
        while i < items.len()
            invariant
                i <= items@.len(),
                block_value(self@, items@, i as int, last@) == block_value(
                    st,
                    items@,
                    0,
                    Ty::Void,
                ),
                *final(self.diagnostics) == engine,
            decreases items@.len() - i,
        {
            match &items[i] {
                BlockItem::Declaration(d) => {
                    let _ = self.analyze_declaration(d);
                },
                BlockItem::Statement(Statement::Expression(Some(e))) => {
                    match self.analyze_expression(e) {
                        Ok(t) => {
                            last = t;
                        },
                        Err(_) => {
                            return Err(());
                        },
                    }
                },
                BlockItem::Statement(s) => {
                    let _ = self.analyze_statement(s);
                },
            }
            i += 1;
        }
        Ok(last)
    }

    /// Checks that no two associations of a `_Generic` stand for one type, and
    /// that there is one default at most.
    fn check_associations(&mut self, associations: &Vec<GenericAssociation>, span: Span) -> (r:
        Result<(), ()>)
        ensures
            final(self)@ == selection_checked(old(self)@, associations@, span).0,
            (r is Ok) == selection_checked(old(self)@, associations@, span).1,
            *final(final(self).diagnostics) == *final(old(self).diagnostics),
    {
        proof {
            reveal(selection_checked);
        }
        let ghost st = self@;
        let ghost engine = *final(self.diagnostics);
        let mut seen: Vec<CType> = Vec::new();
        let mut seen_default: bool = false;
        let mut i: usize = 0;
        assert(types_of(seen@) =~= Seq::<Ty>::empty());
        #[verifier::loop_isolation(false)]
        while i < associations.len()
            invariant
                i <= associations@.len(),
                associations_checked(
                    self@,
                    associations@,
                    i as int,
                    types_of(seen@),
                    seen_default,
                    span,
                ) == associations_checked(st, associations@, 0, Seq::empty(), false, span),
                *final(self.diagnostics) == engine,
            decreases associations@.len() - i,
        {
            match &associations[i].ty_name {
                Some(tn) => {
                    let named: CType = self.type_of_cast(tn);
                    let t: CType = strip(&named).clone();
                    if matches_one(&t, &seen) {
                        self.diagnostics.emit_warning(
                            span,
                            "duplicate type name in _Generic association",
                        );
                    }
                    let ghost before = types_of(seen@);
                    let ghost model = t@;
                    seen.push(t);
                    assert(types_of(seen@) =~= before.push(model));
                },
                None => {
                    if seen_default {
                        self.diagnostics.emit_error(
                            span,
                            "duplicate default case in _Generic association",
                        );
                        return Err(());
                    }
                    seen_default = true;
                },
            }
            i += 1;
        }
        Ok(())
    }

    /// Selects an association of a `_Generic` and returns its type. What controls
    /// the selection decays and loses its qualifiers. Two associations for one type
    /// earn a warning, two defaults are an error.
    pub fn resolve_generic_selection(
        &mut self,
        controlled_by: &CType,
        associations: &Vec<GenericAssociation>,
        span: Span,
    ) -> (r: Result<CType, ()>)
        ensures
            final(self)@ == selection(old(self)@, controlled_by@, associations@, span).0,
            res_ty(r) == selection(old(self)@, controlled_by@, associations@, span).1,
            *final(final(self).diagnostics) == *final(old(self).diagnostics),
        decreases associations@, associations@.len() + 2,
    {
        self.check_associations(associations, span)?;
        let t: CType = controlling_type(controlled_by);
        self.select_association(&t, associations, span)
    }

    fn select_association(
        &mut self,
        t: &CType,
        associations: &Vec<GenericAssociation>,
        span: Span,
    ) -> (r: Result<CType, ()>)
        ensures
            final(self)@ == association(old(self)@, t@, associations@, 0, None, span).0,
            res_ty(r) == association(old(self)@, t@, associations@, 0, None, span).1,
            *final(final(self).diagnostics) == *final(old(self).diagnostics),
        decreases associations@, associations@.len() + 1,
    {
        let ghost st = self@;
        let ghost engine = *final(self.diagnostics);
        let mut fallback: Option<CType> = None;
        let mut i: usize = 0;
        #[verifier::loop_isolation(false)]
        while i < associations.len()
            invariant
                i <= associations@.len(),
                association(self@, t@, associations@, i as int, opt_ty(fallback), span)
                    == association(st, t@, associations@, 0, None, span),
                *final(self.diagnostics) == engine,
            decreases associations@.len() - i,
        {
            let a: &GenericAssociation = &associations[i];
            match &a.ty_name {
                Some(tn) => {
                    let named: CType = self.type_of_cast(tn);
                    if types_match(t, strip(&named)) {
                        return self.analyze_expression(&a.expression);
                    }
                },
                None => {
                    match self.analyze_expression(&a.expression) {
                        Ok(d) => {
                            fallback = Some(d);
                        },
                        Err(_) => {
                            return Err(());
                        },
                    }
                },
            }
            i += 1;
        }
        match fallback {
            Some(d) => Ok(d),
            None => {
                self.diagnostics.emit_error(
                    span,
                    "_Generic selection has no matching association",
                );
                Err(())
            },
        }
    }
}

} // verus!
