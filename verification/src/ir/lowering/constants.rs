//! Constant expressions and the type names in them.

use crate::common::layout::{plain_size, sizeof_ctype};
use crate::common::target::Target;
use crate::common::types::{pointer_to, pointer_ty, CType, Ty};
use crate::frontend::parser::ast::{
    AbstractDeclarator, DirectAbstractDeclarator, Expression, Pointer, TypeName, UnaryOp,
};
use crate::frontend::sema::analyzer::SemanticAnalyzer;
use crate::frontend::sema::constants::{eval_operation, operation};
use crate::frontend::sema::resolve::{listed_type, stated_length};
use crate::frontend::sema::state::State;
use vstd::hash_map::StringHashMap;
use vstd::prelude::*;

verus! {

broadcast use crate::common::types::group_type_models;

/// `t` behind the layers of a pointer; qualifiers do not count here.
pub open spec fn bare_pointers(t: Ty, p: Pointer) -> Ty
    decreases p,
{
    match p.inner {
        Some(inner) => bare_pointers(pointer_ty(t), *inner),
        None => pointer_ty(t),
    }
}

/// The type of an abstract declarator on top of `base`.
pub open spec fn bare_abstract(st: State, base: Ty, a: AbstractDeclarator) -> Ty
    decreases a, 1int,
{
    let t = match a.pointer {
        Some(p) => bare_pointers(base, p),
        None => base,
    };
    match a.direct {
        Some(d) => bare_direct(st, t, d),
        None => t,
    }
}

/// The type of a direct abstract declarator on top of `base`. A function counts
/// as a pointer.
pub open spec fn bare_direct(st: State, base: Ty, d: DirectAbstractDeclarator) -> Ty
    decreases d, 0int,
{
    match d {
        DirectAbstractDeclarator::Parenthesized(inner) => bare_abstract(st, base, *inner),
        DirectAbstractDeclarator::Array { size, .. } => Ty::Array(
            Box::new(base),
            stated_length(st, size),
        ),
        DirectAbstractDeclarator::Function { .. } => pointer_ty(base),
    }
}

/// The type that a type name stands for in a constant expression.
pub open spec fn const_type(st: State, tn: TypeName) -> Ty {
    let base = listed_type(st, tn.specifier_qualifiers);
    match tn.abstract_declarator {
        Some(a) => bare_abstract(st, base, a),
        None => base,
    }
}

/// The value of an enumeration constant, if it is known.
pub open spec fn enum_constant(st: State, enums: Map<Seq<char>, i128>, sym: u32) -> Option<i128> {
    if sym < st.names.len() {
        enums.get(st.names[sym as int])
    } else {
        None
    }
}

/// The value of a constant expression: literals, enumeration constants, `sizeof`
/// of a type on x86-64, casts, and what can be computed from these. The last
/// value of a comma expression counts.
pub open spec fn const_int(st: State, enums: Map<Seq<char>, i128>, e: Expression) -> Option<i128>
    decreases e,
{
    match e {
        Expression::IntegerLiteral { value, .. } => Some(value as i128),
        Expression::Identifier { name, .. } => enum_constant(st, enums, name.0),
        Expression::UnaryOp { op, operand, .. } => match const_int(st, enums, *operand) {
            Some(v) => match op {
                UnaryOp::Negate => Some(0i128.wrapping_sub(v)),
                UnaryOp::Plus => Some(v),
                UnaryOp::BitwiseNot => Some(!v),
                _ => None,
            },
            None => None,
        },
        Expression::Binary { op, left, right, .. } => match (
            const_int(st, enums, *left),
            const_int(st, enums, *right),
        ) {
            (Some(l), Some(r)) => operation(op, l, r),
            _ => None,
        },
        Expression::Cast { operand, .. } => const_int(st, enums, *operand),
        Expression::Parenthesized { inner, .. } => const_int(st, enums, *inner),
        Expression::Conditional { condition, then_expr, else_expr, .. } => match const_int(
            st,
            enums,
            *condition,
        ) {
            None => None,
            Some(c) => if c != 0 {
                match then_expr {
                    Some(t) => const_int(st, enums, *t),
                    None => Some(c),
                }
            } else {
                const_int(st, enums, *else_expr)
            },
        },
        Expression::Comma { exprs, .. } => if exprs@.len() > 0 {
            const_int(st, enums, exprs@[exprs@.len() - 1])
        } else {
            None
        },
        Expression::SizeofType { ty_name, .. } => Some(
            plain_size(const_type(st, *ty_name), Target::X86_64) as i128,
        ),
        _ => None,
    }
}

/// The type that a type name stands for in a constant expression.
pub fn resolve_type_name_for_const(tn: &TypeName, sema: &SemanticAnalyzer<'_>) -> (r: CType)
    ensures
        r@ == const_type(sema@, *tn),
{
    let base: CType = sema.type_of_list(&tn.specifier_qualifiers);
    match &tn.abstract_declarator {
        Some(a) => apply_abstract_declarator_const(base, a, sema),
        None => base,
    }
}

fn apply_abstract_declarator_const(
    base: CType,
    a: &AbstractDeclarator,
    sema: &SemanticAnalyzer<'_>,
) -> (r: CType)
    ensures
        r@ == bare_abstract(sema@, base@, *a),
    decreases a, 1int,
{
    let t: CType = match &a.pointer {
        Some(p) => apply_pointer_layers_const(base, p),
        None => base,
    };
    match &a.direct {
        Some(d) => apply_direct_abstract_declarator_const(t, d, sema),
        None => t,
    }
}

fn apply_pointer_layers_const(base: CType, pointer: &Pointer) -> (r: CType)
    ensures
        r@ == bare_pointers(base@, *pointer),
    decreases pointer,
{
    let t: CType = pointer_to(base);
    match &pointer.inner {
        Some(inner) => apply_pointer_layers_const(t, inner),
        None => t,
    }
}

fn apply_direct_abstract_declarator_const(
    base: CType,
    d: &DirectAbstractDeclarator,
    sema: &SemanticAnalyzer<'_>,
) -> (r: CType)
    ensures
        r@ == bare_direct(sema@, base@, *d),
    decreases d, 0int,
{
    match d {
        DirectAbstractDeclarator::Parenthesized(inner) => apply_abstract_declarator_const(
            base,
            inner,
            sema,
        ),
        DirectAbstractDeclarator::Array { size, .. } => CType::Array(
            Box::new(base),
            sema.length_of(size),
        ),
        DirectAbstractDeclarator::Function { .. } => pointer_to(base),
    }
}

/// The value of a constant expression, where it can be found.
pub fn try_eval_const_int_expr_ctx(
    expr: &Expression,
    sema: &SemanticAnalyzer<'_>,
    enums: &StringHashMap<i128>,
) -> (r: Option<i128>)
    ensures
        r == const_int(sema@, enums@, *expr),
    decreases expr,
{
    match expr {
        Expression::IntegerLiteral { value, .. } => Some(*value as i128),
        Expression::Identifier { name, .. } => {
            if (name.0 as usize) < sema.interner.len() {
                match enums.get(sema.interner.resolve(*name)) {
                    Some(v) => Some(*v),
                    None => None,
                }
            } else {
                None
            }
        },
        Expression::UnaryOp { op, operand, .. } => match try_eval_const_int_expr_ctx(
            operand,
            sema,
            enums,
        ) {
            Some(v) => match op {
                UnaryOp::Negate => Some(0i128.wrapping_sub(v)),
                UnaryOp::Plus => Some(v),
                UnaryOp::BitwiseNot => Some(!v),
                _ => None,
            },
            None => None,
        },
        Expression::Binary { op, left, right, .. } => {
            let l: i128 = match try_eval_const_int_expr_ctx(left, sema, enums) {
                Some(v) => v,
                None => {
                    return None;
                },
            };
            match try_eval_const_int_expr_ctx(right, sema, enums) {
                Some(r) => eval_operation(*op, l, r),
                None => None,
            }
        },
        Expression::Cast { operand, .. } => try_eval_const_int_expr_ctx(operand, sema, enums),
        Expression::Parenthesized { inner, .. } => try_eval_const_int_expr_ctx(
            inner,
            sema,
            enums,
        ),
        Expression::Conditional { condition, then_expr, else_expr, .. } => {
            match try_eval_const_int_expr_ctx(condition, sema, enums) {
                None => None,
                Some(c) => if c != 0 {
                    match then_expr {
                        Some(t) => try_eval_const_int_expr_ctx(t, sema, enums),
                        None => Some(c),
                    }
                } else {
                    try_eval_const_int_expr_ctx(else_expr, sema, enums)
                },
            }
        },
        Expression::Comma { exprs, .. } => {
            if exprs.len() > 0 {
                try_eval_const_int_expr_ctx(&exprs[exprs.len() - 1], sema, enums)
            } else {
                None
            }
        },
        Expression::SizeofType { ty_name, .. } => {
            let t: CType = resolve_type_name_for_const(ty_name, sema);
            Some(sizeof_ctype(&t, Target::X86_64) as i128)
        },
        _ => None,
    }
}

} // verus!
