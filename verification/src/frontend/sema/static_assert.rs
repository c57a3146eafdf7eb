//! Static assertions and the constant expressions in them.

use crate::common::layout::{
    align_with_tags, alignof_ctype_resolved, size_with_tags, sizeof_ctype_resolved,
};
use crate::common::target::Target;
use crate::common::text::{lossy_text, own, utf8_lossy};
use crate::common::types::{CType, Ty};
use crate::frontend::parser::ast::{
    BinaryOp, BuiltinKind, Expression, StaticAssert, StringSegment,
};
use crate::frontend::sema::analyzer::SemanticAnalyzer;
use crate::frontend::sema::constants::{
    eval_operation, eval_prefix, operation, prefix_operation, segments_len, truth,
};
use crate::frontend::sema::resolve::{const_value, inferred, named_type};
use crate::frontend::sema::state::State;
use vstd::prelude::*;

verus! {

/// A value after conversion to a type: reduced to the width of an integer type,
/// and left alone for any other.
pub open spec fn converted(v: i128, t: Ty, target: Target) -> i128
    decreases t,
{
    match t {
        Ty::Qualified(inner, _) => converted(v, *inner, target),
        Ty::Typedef { underlying, .. } => converted(v, *underlying, target),
        Ty::Enum { underlying_type, .. } => converted(v, *underlying_type, target),
        Ty::Bool => truth(v != 0),
        Ty::Char | Ty::SChar => (v as i8) as i128,
        Ty::UChar => (v as u8) as i128,
        Ty::Short => (v as i16) as i128,
        Ty::UShort => (v as u16) as i128,
        Ty::Int => (v as i32) as i128,
        Ty::UInt => (v as u32) as i128,
        Ty::Long => if target.is_lp64() {
            (v as i64) as i128
        } else {
            (v as i32) as i128
        },
        Ty::ULong => if target.is_lp64() {
            (v as u64) as i128
        } else {
            (v as u32) as i128
        },
        Ty::LongLong => (v as i64) as i128,
        Ty::ULongLong => (v as u64) as i128,
        _ => v,
    }
}

/// What `sizeof` says of an expression. A string literal is an array.
pub open spec fn size_of_expression(st: State, e: Expression) -> i128 {
    match e {
        Expression::StringLiteral { segments, .. } => segments_len(
            0,
            segments@,
            0,
        ).wrapping_add(1) as i128,
        _ => size_with_tags(inferred(st, e), st.target, st.tags) as i128,
    }
}

/// Value of the condition of a static assertion, where it can be evaluated.
/// `&&` and `||` do not ask for the value of an operand that cannot matter.
pub open spec fn condition_value(st: State, e: Expression) -> Option<i128>
    decreases e,
{
    match e {
        Expression::IntegerLiteral { value, .. } => Some(value as i128),
        Expression::CharLiteral { value, .. } => Some(value as i128),
        Expression::Identifier { name, .. } => st.enums.get(st.text(name)),
        Expression::Parenthesized { inner, .. } => condition_value(st, *inner),
        Expression::UnaryOp { op, operand, .. } => match condition_value(st, *operand) {
            Some(v) => prefix_operation(op, v),
            None => None,
        },
        Expression::Binary { op, left, right, .. } => match condition_value(st, *left) {
            None => None,
            Some(l) => if op == BinaryOp::LogicalAnd && l == 0 {
                Some(0)
            } else if op == BinaryOp::LogicalOr && l != 0 {
                Some(1)
            } else {
                match condition_value(st, *right) {
                    Some(r) => operation(op, l, r),
                    None => None,
                }
            },
        },
        Expression::Conditional { condition, then_expr, else_expr, .. } => match condition_value(
            st,
            *condition,
        ) {
            None => None,
            Some(c) => if c != 0 {
                match then_expr {
                    Some(t) => condition_value(st, *t),
                    None => Some(c),
                }
            } else {
                condition_value(st, *else_expr)
            },
        },
        Expression::Cast { ty_name, operand, .. } => match condition_value(st, *operand) {
            Some(v) => Some(converted(v, named_type(st, *ty_name), st.target)),
            None => None,
        },
        Expression::SizeofType { ty_name, .. } => Some(
            size_with_tags(named_type(st, *ty_name), st.target, st.tags) as i128,
        ),
        Expression::SizeofExpr { operand, .. } => Some(size_of_expression(st, *operand)),
        Expression::AlignofType { ty_name, .. } => Some(
            align_with_tags(named_type(st, *ty_name), st.target, st.tags) as i128,
        ),
        Expression::AlignofExpr { expr, .. } => Some(
            align_with_tags(inferred(st, *expr), st.target, st.tags) as i128,
        ),
        Expression::BuiltinCall { builtin, .. } => if builtin == BuiltinKind::Offsetof {
            match const_value(st, e) {
                Some(v) => Some(v as i128),
                None => None,
            }
        } else {
            None
        },
        _ => None,
    }
}

/// What a failed assertion reports.
pub open spec fn failure_text(message: Option<Vec<u8>>) -> Seq<char> {
    match message {
        Some(m) => "static assertion failed: "@ + utf8_lossy(m@),
        None => "static assertion failed"@,
    }
}

/// A static assertion: it fails, and reports, where its condition is known to be
/// zero.
#[verifier::opaque]
pub open spec fn static_assertion(st: State, a: StaticAssert) -> (State, bool) {
    if condition_value(st, *a.condition) == Some(0i128) {
        (st.error(a.span, failure_text(a.message)), false)
    } else {
        (st, true)
    }
}

fn convert(v: i128, t: &CType, target: Target) -> (r: i128)
    ensures
        r == converted(v, t@, target),
    decreases t,
{
    let lp64: bool = target.long_size() == 8;
    match t {
        CType::Qualified(inner, _) => convert(v, inner, target),
        CType::Typedef { underlying, .. } => convert(v, underlying, target),
        CType::Enum { underlying_type, .. } => convert(v, underlying_type, target),
        CType::Bool => if v != 0 {
            1
        } else {
            0
        },
        CType::Char | CType::SChar => (v as i8) as i128,
        CType::UChar => (v as u8) as i128,
        CType::Short => (v as i16) as i128,
        CType::UShort => (v as u16) as i128,
        CType::Int => (v as i32) as i128,
        CType::UInt => (v as u32) as i128,
        CType::Long => if lp64 {
            (v as i64) as i128
        } else {
            (v as i32) as i128
        },
        CType::ULong => if lp64 {
            (v as u64) as i128
        } else {
            (v as u32) as i128
        },
        CType::LongLong => (v as i64) as i128,
        CType::ULongLong => (v as u64) as i128,
        _ => v,
    }
}

fn string_size(segments: &Vec<StringSegment>) -> (r: usize)
    ensures
        r == segments_len(0, segments@, 0).wrapping_add(1),
{
    let mut total: usize = 0;
    let mut i: usize = 0;
    while i < segments.len()
        invariant
            i <= segments@.len(),
            segments_len(total, segments@, i as int) == segments_len(0, segments@, 0),
        decreases segments@.len() - i,
    {
        total = total.wrapping_add(segments[i].value.len());
        i += 1;
    }
    total.wrapping_add(1)
}

impl<'a> SemanticAnalyzer<'a> {
    /// Value of the condition of a static assertion.
    pub fn eval_condition(&self, e: &Expression) -> (r: Option<i128>)
        ensures
            r == condition_value(self@, *e),
        decreases e,
    {
        match e {
            Expression::IntegerLiteral { value, .. } => Some(*value as i128),
            Expression::CharLiteral { value, .. } => Some(*value as i128),
            Expression::Identifier { name, .. } => match self.enum_constant_values.get(
                self.interner.resolve(*name),
            ) {
                Some(v) => Some(*v),
                None => None,
            },
            Expression::Parenthesized { inner, .. } => self.eval_condition(inner),
            Expression::UnaryOp { op, operand, .. } => match self.eval_condition(operand) {
                Some(v) => eval_prefix(*op, v),
                None => None,
            },
            Expression::Binary { op, left, right, .. } => match self.eval_condition(left) {
                None => None,
                Some(l) => if *op == BinaryOp::LogicalAnd && l == 0 {
                    Some(0)
                } else if *op == BinaryOp::LogicalOr && l != 0 {
                    Some(1)
                } else {
                    match self.eval_condition(right) {
                        Some(r) => eval_operation(*op, l, r),
                        None => None,
                    }
                },
            },
            Expression::Conditional { condition, then_expr, else_expr, .. } => {
                match self.eval_condition(condition) {
                    None => None,
                    Some(c) => if c != 0 {
                        match then_expr {
                            Some(t) => self.eval_condition(t),
                            None => Some(c),
                        }
                    } else {
                        self.eval_condition(else_expr)
                    },
                }
            },
            Expression::Cast { ty_name, operand, .. } => match self.eval_condition(operand) {
                Some(v) => {
                    let t: CType = self.resolve_type_name(ty_name);
                    Some(convert(v, &t, self.target))
                },
                None => None,
            },
            Expression::SizeofType { ty_name, .. } => {
                let t: CType = self.resolve_type_name(ty_name);
                Some(sizeof_ctype_resolved(&t, self.target, &self.tag_types_by_name) as i128)
            },
            Expression::SizeofExpr { operand, .. } => Some(self.eval_size_of_expression(operand)),
            Expression::AlignofType { ty_name, .. } => {
                let t: CType = self.resolve_type_name(ty_name);
                Some(alignof_ctype_resolved(&t, self.target, &self.tag_types_by_name) as i128)
            },
            Expression::AlignofExpr { expr, .. } => {
                let t: CType = self.infer_typeof_expr_type(expr);
                Some(alignof_ctype_resolved(&t, self.target, &self.tag_types_by_name) as i128)
            },
            Expression::BuiltinCall { builtin, .. } => {
                if *builtin == BuiltinKind::Offsetof {
                    match self.try_eval_attr_const_expr(e) {
                        Some(v) => Some(v as i128),
                        None => None,
                    }
                } else {
                    None
                }
            },
            _ => None,
        }
    }

    fn eval_size_of_expression(&self, e: &Expression) -> (r: i128)
        ensures
            r == size_of_expression(self@, *e),
    {
        match e {
            Expression::StringLiteral { segments, .. } => string_size(segments) as i128,
            _ => {
                let t: CType = self.infer_typeof_expr_type(e);
                sizeof_ctype_resolved(&t, self.target, &self.tag_types_by_name) as i128
            },
        }
    }

    /// Checks a static assertion.
    pub fn handle_static_assert(&mut self, a: &StaticAssert) -> (r: Result<(), ()>)
        ensures
            final(self)@ == static_assertion(old(self)@, *a).0,
            (r is Ok) == static_assertion(old(self)@, *a).1,
            *final(final(self).diagnostics) == *final(old(self).diagnostics),
    {
        proof {
            reveal(static_assertion);
        }
        let v: Option<i128> = self.eval_condition(&a.condition);
        match v {
            Some(0) => {
                match &a.message {
                    Some(m) => {
                        let text: String = lossy_text(m.as_slice());
                        let mut message: String = own("static assertion failed: ");
                        message.append(text.as_str());
                        self.diagnostics.emit_error(a.span, message.as_str());
                    },
                    None => {
                        self.diagnostics.emit_error(a.span, "static assertion failed");
                    },
                }
                Err(())
            },
            _ => Ok(()),
        }
    }
}

} // verus!
