//! What the type of an expression owes to its operands.

use crate::common::string_interner::Symbol;
use crate::common::types::{deep_stripped, stripped, Ty};
use crate::frontend::parser::ast::{BlockItem, Expression, Statement};
use crate::frontend::sema::analysis::{
    arguments, arrow_access, block_value, branch_checked, declaration, expression, literal_type,
    met, sequence, statement, subscripted,
};
use crate::frontend::sema::conversions::precision;
use crate::frontend::sema::identifiers::identifier_use;
use crate::frontend::sema::literals::{
    char_literal_ty, float_literal_ty, integer_literal_ty, string_literal_ty,
};
use crate::frontend::sema::resolve::{cast_type, named_type};
use crate::frontend::sema::scope::ScopeKind;
use crate::frontend::sema::state::State;
use crate::frontend::sema::typing::{call_result, member_access, unary_result};
use vstd::prelude::*;

verus! {

/// A literal is of the type that its kind and suffix give on the target.
pub proof fn lemma_literal_expression(st: State, e: Expression)
    requires
        st.depth < st.max_depth,
    ensures
        e matches Expression::IntegerLiteral { value, suffix, is_hex_or_octal, .. } ==> expression(
            st,
            e,
        ).1 == Some(integer_literal_ty(value, suffix, is_hex_or_octal, st.target.is_lp64())),
        e matches Expression::FloatLiteral { suffix, .. } ==> expression(st, e).1 == Some(
            float_literal_ty(suffix),
        ),
        e matches Expression::StringLiteral { prefix, .. } ==> expression(st, e).1 == Some(
            string_literal_ty(prefix),
        ),
        e matches Expression::CharLiteral { prefix, .. } ==> expression(st, e).1 == Some(
            char_literal_ty(prefix),
        ),
{
    reveal(literal_type);
}

/// A declared name is of its declared type.
pub proof fn lemma_name_expression(st: State, e: Expression, t: Ty)
    requires
        st.depth < st.max_depth,
        e is Identifier,
        st.declared_type(e->Identifier_name) == Some(t),
    ensures
        expression(st, e).1 == Some(t),
        expression(st, e).0.log == st.log,
{
    reveal(identifier_use);
    assert(st.deeper().declared_type(e->Identifier_name) == Some(t));
}

/// A compound literal is of the type that it names.
pub proof fn lemma_compound_literal_expression(st: State, e: Expression)
    requires
        st.depth < st.max_depth,
        e is CompoundLiteral,
    ensures
        expression(st, e).1 == Some(named_type(st.deeper(), *e->CompoundLiteral_ty_name)),
{
    reveal(cast_type);
}

/// A call of something of function type is of the type that the function returns, where
/// the function and all arguments have types.
pub proof fn lemma_call_expression(st: State, e: Expression)
    requires
        st.depth < st.max_depth,
        e is FunctionCall,
        ({
            let c = expression(st.deeper(), *e->FunctionCall_callee);
            &&& c.1 is Some
            &&& deep_stripped(c.1->0) is Function
            &&& arguments(c.0, e->FunctionCall_args@, 0).1
        }),
    ensures
        ({
            let c = expression(st.deeper(), *e->FunctionCall_callee);
            expression(st, e).1 == Some(*deep_stripped(c.1->0)->return_type)
        }),
{
    reveal(call_result);
}

/// A subscript has the type of an element of what is subscripted.
pub proof fn lemma_subscript_expression(st: State, e: Expression)
    requires
        st.depth < st.max_depth,
        e is ArraySubscript,
        expression(st, e).1 is Some,
    ensures
        ({
            let b = expression(st.deeper(), *e->ArraySubscript_base);
            &&& b.1 is Some
            &&& stripped(b.1->0) matches Ty::Array(t, _) ==> expression(st, e).1 == Some(*t)
            &&& stripped(b.1->0) matches Ty::Pointer(t, _) ==> expression(st, e).1 == Some(*t)
        }),
{
    reveal(subscripted);
}

/// A member access has the type of the member in the type of the object, and one with `->`
/// that of the member in what the pointer points to.
pub proof fn lemma_member_expression(st: State, e: Expression, object: Expression, member: Symbol)
    requires
        st.depth < st.max_depth,
        (e matches Expression::MemberAccess { object: o, member: m, .. } && *o == object && m
            == member) || (e matches Expression::PointerMemberAccess { object: o, member: m, .. }
            && *o == object && m == member),
        expression(st, e).1 is Some,
    ensures
        ({
            let o = expression(st.deeper(), object);
            &&& o.1 is Some
            &&& e matches Expression::MemberAccess { span, .. } ==> expression(st, e).1
                == member_access(o.0, o.1->0, member, span).1
            &&& e matches Expression::PointerMemberAccess { span, .. } ==> (stripped(
                o.1->0,
            ) matches Ty::Pointer(t, _) ==> expression(st, e).1 == member_access(
                o.0,
                *t,
                member,
                span,
            ).1)
        }),
{
    reveal(arrow_access);
}

/// A prefix operation has the type that it gives to the type of its operand.
pub proof fn lemma_prefix_expression(st: State, e: Expression)
    requires
        st.depth < st.max_depth,
        e is UnaryOp,
    ensures
        ({
            let o = expression(st.deeper(), *e->UnaryOp_operand);
            &&& o.1 is None ==> expression(st, e).1 is None
            &&& o.1 is Some ==> expression(st, e).1 == unary_result(
                o.0,
                e->UnaryOp_op,
                o.1->0,
                e->UnaryOp_span,
            ).1
        }),
{
}

/// A comma expression has the type of its last operand.
pub proof fn lemma_comma_expression(st: State, e: Expression) -> (before: State)
    requires
        st.depth < st.max_depth,
        e is Comma,
        e->Comma_exprs@.len() > 0,
        expression(st, e).1 is Some,
    ensures
        expression(st, e).1 == expression(before, e->Comma_exprs@.last()).1,
{
    lemma_sequence_ends(st.deeper(), e->Comma_exprs@, 0, Ty::Void)
}

proof fn lemma_sequence_ends(st: State, es: Seq<Expression>, i: int, last: Ty) -> (before: State)
    requires
        0 <= i < es.len(),
        sequence(st, es, i, last).1 is Some,
    ensures
        sequence(st, es, i, last).1 == expression(before, es.last()).1,
    decreases es.len() - i,
{
    let r = expression(st, es[i]);
    if i + 1 < es.len() {
        lemma_sequence_ends(r.0, es, i + 1, r.1->0)
    } else {
        assert(sequence(r.0, es, i + 1, r.1->0) == (r.0, r.1));
        st
    }
}

/// A statement expression has the type of the expression statement that it ends with.
pub proof fn lemma_statement_expression_type(
    st: State,
    e: Expression,
    x: Expression,
) -> (before: State)
    requires
        st.depth < st.max_depth,
        e is StatementExpression,
        e->StatementExpression_compound.items@.len() > 0,
        e->StatementExpression_compound.items@.last() matches BlockItem::Statement(
            Statement::Expression(Some(y)),
        ) && *y == x,
        expression(st, e).1 is Some,
    ensures
        expression(st, e).1 == expression(before, x).1,
{
    lemma_block_ends(
        st.deeper().enter(ScopeKind::Block),
        e->StatementExpression_compound.items@,
        0,
        Ty::Void,
        x,
    )
}

proof fn lemma_block_ends(
    st: State,
    items: Seq<BlockItem>,
    i: int,
    last: Ty,
    x: Expression,
) -> (before: State)
    requires
        0 <= i < items.len(),
        items.last() matches BlockItem::Statement(Statement::Expression(Some(y))) && *y == x,
        block_value(st, items, i, last).1 is Some,
    ensures
        block_value(st, items, i, last).1 == expression(before, x).1,
    decreases items.len() - i,
{
    if i + 1 < items.len() {
        match items[i] {
            BlockItem::Declaration(d) => lemma_block_ends(
                declaration(st, *d).0,
                items,
                i + 1,
                last,
                x,
            ),
            BlockItem::Statement(Statement::Expression(Some(y))) => {
                let r = expression(st, *y);
                lemma_block_ends(r.0, items, i + 1, r.1->0, x)
            },
            BlockItem::Statement(s) => lemma_block_ends(
                statement(st, s).0,
                items,
                i + 1,
                last,
                x,
            ),
        }
    } else {
        let r = expression(st, x);
        assert(items[i] == items.last());
        assert(block_value(r.0, items, i + 1, r.1->0) == (r.0, r.1));
        st
    }
}

/// The branches of a conditional, each with the state that it is analyzed in: its second
/// operand behind the condition, and its third behind the second.
pub open spec fn branches(st: State, e: Expression) -> ((State, Option<Ty>), (State, Option<Ty>)) {
    let c = expression(st.deeper(), *e->Conditional_condition);
    let s1 = branch_checked(
        c.0,
        c.1->0,
        e->Conditional_span,
        "controlling expression of conditional is not scalar"@,
    );
    let t = expression(s1, *e->Conditional_then_expr->0);
    (t, expression(t.0, *e->Conditional_else_expr))
}

/// A conditional whose branches are of arithmetic types has the type of one of them, below
/// qualifiers, and the more precise one where one is of a real floating type.
pub proof fn lemma_conditional_expression(st: State, e: Expression)
    requires
        st.depth < st.max_depth,
        e is Conditional,
        e->Conditional_then_expr is Some,
        expression(st, e).1 is Some,
    ensures
        ({
            let b = branches(st, e);
            let r = expression(st, e).1->0;
            let t = b.0.1->0;
            let f = b.1.1->0;
            &&& b.0.1 is Some
            &&& b.1.1 is Some
            &&& !(stripped(t) is Pointer) && !(stripped(f) is Pointer) ==> {
                &&& r == stripped(t) || r == stripped(f)
                &&& precision(r) >= precision(stripped(t))
                &&& precision(r) >= precision(stripped(f))
            }
        }),
{
    reveal(met);
}

/// The second operand of a comma is analyzed behind the first and gives the type.
pub proof fn lemma_comma_of_two(st: State, e: Expression)
    requires
        st.depth < st.max_depth,
        e is Comma,
        e->Comma_exprs@.len() == 2,
        expression(st, e).1 is Some,
    ensures
        ({
            let es = e->Comma_exprs@;
            expression(st, e).1 == expression(expression(st.deeper(), es[0]).0, es[1]).1
        }),
{
    let es = e->Comma_exprs@;
    let a = expression(st.deeper(), es[0]);
    let b = expression(a.0, es[1]);
    assert(sequence(st.deeper(), es, 0, Ty::Void) == sequence(a.0, es, 1, a.1->0));
    assert(sequence(a.0, es, 1, a.1->0) == sequence(b.0, es, 2, b.1->0));
    assert(sequence(b.0, es, 2, b.1->0) == (b.0, b.1));
}

} // verus!
