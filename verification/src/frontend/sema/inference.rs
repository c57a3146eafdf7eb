//! What `typeof` infers, and that it agrees with the analysis of the same expression.

use crate::common::diagnostics::Span;
use crate::common::string_interner::Symbol;
use crate::common::types::{stripped, Field, Ty};
use crate::frontend::parser::ast::{Expression, TypeSpecifier, TypeofArg, UnaryOp};
use crate::frontend::sema::identifiers::identifier_use;
use crate::frontend::sema::resolve::{
    inferred, inferred_inside, inferred_prefix, named_type, specified_type,
};
use crate::frontend::sema::state::State;
use crate::frontend::sema::typing::{find_member, inferred_member, member_access, unary_result};
use vstd::prelude::*;

verus! {

/// A name is inferred to be of the type that it was declared with, which is also what
/// the analysis of its use finds.
pub proof fn lemma_name_has_its_declared_type(st: State, e: Expression, t: Ty)
    requires
        e is Identifier,
        st.declared_type(e->Identifier_name) == Some(t),
    ensures
        inferred(st, e) == t,
        identifier_use(st, e->Identifier_name, e->Identifier_span).1 == t,
        identifier_use(st, e->Identifier_name, e->Identifier_span).0.log == st.log,
{
    reveal(identifier_use);
}

/// The address of an expression is inferred to be a pointer to its type, and what
/// stands there to be of that type again. Parentheses and casts are taken as analysis
/// takes them.
pub proof fn lemma_inferred_prefix_types(st: State, e: Expression, a: Expression, d: Expression)
    requires
        a matches Expression::UnaryOp { op, operand, .. } && op == UnaryOp::AddressOf && *operand
            == e,
        d matches Expression::UnaryOp { op, operand, .. } && op == UnaryOp::Deref && *operand == a,
    ensures
        inferred(st, a) matches Ty::Pointer(t, _) && *t == inferred(st, e),
        inferred(st, d) == inferred(st, e),
{
}

/// Where the analysis of a prefix operation other than `__real__` and `__imag__` on
/// something without qualifiers finds a type, inference finds the same.
pub proof fn lemma_inference_agrees_on_prefixes(st: State, op: UnaryOp, t: Ty, span: Span)
    requires
        t == stripped(t),
        op != UnaryOp::RealPart,
        op != UnaryOp::ImagPart,
        unary_result(st, op, t, span).1 is Some,
    ensures
        Some(inferred_prefix(op, t)) == unary_result(st, op, t, span).1,
{
    reveal(unary_result);
}

/// Where the analysis of an access to a member of a struct or union with members finds
/// a type, inference finds the same.
pub proof fn lemma_inference_agrees_on_members(
    st: State,
    t: Ty,
    fields: Seq<Field>,
    member: Symbol,
    span: Span,
)
    requires
        fields.len() > 0,
        match t {
            Ty::Struct { fields: fs, .. } => fs == fields,
            Ty::Union { fields: fs, .. } => fs == fields,
            _ => false,
        },
        member_access(st, t, member, span).1 is Some,
    ensures
        Some(inferred_member(st, t, member)) == member_access(st, t, member, span).1,
        member_access(st, t, member, span).1 == find_member(fields, 0, st.text(member)),
{
    reveal(member_access);
}

/// Inside a statement expression that declares no names inference finds what it finds
/// outside.
pub proof fn lemma_inference_without_locals(st: State, e: Expression)
    ensures
        inferred_inside(st, e, Map::empty()) == inferred(st, e),
    decreases e,
{
    match e {
        Expression::Conditional { then_expr, else_expr, .. } => match then_expr {
            Some(t) => lemma_inference_without_locals(st, *t),
            None => lemma_inference_without_locals(st, *else_expr),
        },
        Expression::Parenthesized { inner, .. } => lemma_inference_without_locals(st, *inner),
        Expression::Comma { exprs, .. } => if exprs@.len() > 0 {
            lemma_inference_without_locals(st, exprs@[exprs@.len() - 1]);
        },
        Expression::Binary { left, .. } => lemma_inference_without_locals(st, *left),
        Expression::UnaryOp { operand, .. } => lemma_inference_without_locals(st, *operand),
        Expression::PostIncrement { operand, .. } => lemma_inference_without_locals(st, *operand),
        Expression::PostDecrement { operand, .. } => lemma_inference_without_locals(st, *operand),
        Expression::PreIncrement { operand, .. } => lemma_inference_without_locals(st, *operand),
        Expression::PreDecrement { operand, .. } => lemma_inference_without_locals(st, *operand),
        _ => {},
    }
}

/// Casts and parentheses are inferred to be of the type that they name or hold, and a
/// call to be of the type that the function returns.
pub proof fn lemma_inferred_operand_types(st: State, e: Expression)
    ensures
        e matches Expression::Cast { ty_name, .. } ==> inferred(st, e) == named_type(st, *ty_name),
        e matches Expression::Parenthesized { inner, .. } ==> inferred(st, e) == inferred(
            st,
            *inner,
        ),
        e matches Expression::FunctionCall { callee, .. } ==> (inferred(st, *callee) matches
            Ty::Function { return_type, .. } ==> inferred(st, e) == *return_type),
        e matches Expression::ArraySubscript { base, .. } ==> (inferred(st, *base) matches
            Ty::Array(t, _) ==> inferred(st, e) == *t),
        e matches Expression::ArraySubscript { base, .. } ==> (inferred(st, *base) matches
            Ty::Pointer(t, _) ==> inferred(st, e) == *t),
{
}

/// `typeof` of an expression is what is inferred for it, and `typeof` of a type name is
/// that type; `_Atomic` of a type name is the atomic type of its specifiers.
pub proof fn lemma_typeof_is_the_type(st: State, specs: Seq<TypeSpecifier>)
    requires
        specs.len() == 1,
    ensures
        specs[0] matches TypeSpecifier::Typeof(TypeofArg::Expression(e)) ==> specified_type(
            st,
            specs,
            Seq::empty(),
        ) == inferred(st, *e),
        specs[0] matches TypeSpecifier::Typeof(TypeofArg::TypeName(tn)) ==> specified_type(
            st,
            specs,
            Seq::empty(),
        ) == named_type(st, *tn),
        specs[0] matches TypeSpecifier::Atomic(tn) ==> (specified_type(
            st,
            specs,
            Seq::empty(),
        ) matches Ty::Atomic(inner) && *inner == specified_type(
            st,
            tn.specifier_qualifiers.type_specifiers@,
            tn.specifier_qualifiers.type_qualifiers@,
        )),
{
}

} // verus!
