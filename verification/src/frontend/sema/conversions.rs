//! What the type of an operation owes to the types of its operands.

use crate::common::diagnostics::Span;
use crate::common::layout::plain_size;
use crate::common::target::Target;
use crate::common::types::{
    deep_stripped, lemma_stripping_is_idempotent, stripped, Field, Ty, TypeQualifiers,
};
use crate::frontend::parser::ast::{
    BinaryOp, BuiltinKind, CharPrefix, Expression, FloatSuffix, GenericAssociation, IntegerSuffix,
    StringPrefix, UnaryOp,
};
use crate::common::string_interner::Symbol;
use crate::frontend::sema::analysis::{
    arrow_access, association, controlling, expression, met, subscripted,
};
use crate::frontend::sema::identifiers::builtin_call_type;
use crate::frontend::sema::literals::{
    char_literal_ty, first_fitting, float_literal_ty, integer_literal_ty, literal_candidates,
    string_literal_ty,
};
use crate::frontend::sema::resolve::{cast_type, named_type};
use crate::frontend::sema::scope::tag_by_text;
use crate::frontend::sema::state::State;
use crate::frontend::sema::typing::{
    binary_result, call_result, find_in_unnamed, find_member, generic_match, is_float,
    is_integer, is_pointer, is_scalar,
    member_access, unary_result,
};
use vstd::prelude::*;

verus! {

/// Whether an operation is one of `+`, `-`, `*` and `/`.
pub open spec fn is_four(op: BinaryOp) -> bool {
    op == BinaryOp::Add || op == BinaryOp::Sub || op == BinaryOp::Mul || op == BinaryOp::Div
}

/// How precise a real floating type is: more than zero, and more for a type that
/// holds all values of another.
pub open spec fn precision(t: Ty) -> int {
    match t {
        Ty::Float => 1,
        Ty::Double => 2,
        Ty::LongDouble => 3,
        _ => 0,
    }
}

/// Where an operand of `+`, `-`, `*` or `/` is of a real floating type and none is
/// a pointer, the result is of the most precise floating type among the operands,
/// without qualifiers. The order of the operands does not matter.
pub proof fn lemma_floating_operand_decides(op: BinaryOp, a: Ty, b: Ty)
    requires
        is_four(op),
        !(stripped(a) is Pointer),
        !(stripped(b) is Pointer),
        precision(stripped(a)) > 0 || precision(stripped(b)) > 0,
    ensures
        precision(binary_result(op, a, b)) >= precision(stripped(a)),
        precision(binary_result(op, a, b)) >= precision(stripped(b)),
        binary_result(op, a, b) == stripped(a) || binary_result(op, a, b) == stripped(b),
        binary_result(op, a, b) == binary_result(op, b, a),
{
}

/// Whether a type is an integer type that has a name of its own.
pub open spec fn is_plain_integer(t: Ty) -> bool {
    match t {
        Ty::Bool | Ty::Char | Ty::SChar | Ty::UChar | Ty::Short | Ty::UShort => true,
        Ty::Int | Ty::UInt | Ty::Long | Ty::ULong | Ty::LongLong | Ty::ULongLong => true,
        Ty::Int128 | Ty::UInt128 => true,
        _ => false,
    }
}

/// Where two integers meet, the result is the type of one of them and as large as
/// the larger on every target. An operand that is the larger one on some target
/// decides, whichever side it stands on, and so does any beside a `_Bool`. Of two
/// that are equally large everywhere the left one decides.
pub proof fn lemma_larger_integer_decides(op: BinaryOp, a: Ty, b: Ty, target: Target)
    requires
        is_four(op) || op == BinaryOp::Mod || op == BinaryOp::BitwiseAnd || op
            == BinaryOp::BitwiseOr || op == BinaryOp::BitwiseXor,
        is_plain_integer(stripped(a)),
        is_plain_integer(stripped(b)),
    ensures
        binary_result(op, a, b) == stripped(a) || binary_result(op, a, b) == stripped(b),
        plain_size(binary_result(op, a, b), target) >= plain_size(stripped(a), target),
        plain_size(binary_result(op, a, b), target) >= plain_size(stripped(b), target),
        plain_size(stripped(a), target) > plain_size(stripped(b), target) ==> binary_result(
            op,
            a,
            b,
        ) == stripped(a) && binary_result(op, b, a) == stripped(a),
        stripped(b) is Bool ==> binary_result(op, a, b) == stripped(a) && binary_result(op, b, a)
            == stripped(a),
        !(stripped(a) is Bool) && plain_size(stripped(a), Target::X86_64) == plain_size(
            stripped(b),
            Target::X86_64,
        ) && plain_size(stripped(a), Target::I686) == plain_size(stripped(b), Target::I686)
            ==> binary_result(op, a, b) == stripped(a),
{
}

/// An integer added to a pointer or taken away from it gives that pointer; so does
/// a pointer added to an integer. The difference of two pointers is a `long`.
pub proof fn lemma_pointer_arithmetic(p: Ty, q: Ty, n: Ty)
    requires
        stripped(p) is Pointer,
        stripped(q) is Pointer,
        !(stripped(n) is Pointer),
    ensures
        binary_result(BinaryOp::Add, p, n) == stripped(p),
        binary_result(BinaryOp::Add, n, p) == stripped(p),
        binary_result(BinaryOp::Sub, p, n) == stripped(p),
        binary_result(BinaryOp::Sub, p, q) is Long,
{
}

/// Whether an operation tells whether something holds.
pub open spec fn is_question(op: BinaryOp) -> bool {
    match op {
        BinaryOp::LogicalAnd | BinaryOp::LogicalOr | BinaryOp::Equal | BinaryOp::NotEqual => true,
        BinaryOp::Less | BinaryOp::Greater | BinaryOp::LessEqual | BinaryOp::GreaterEqual => true,
        _ => false,
    }
}

/// A comparison or a logical operation is an `int`, whatever is compared. A shift
/// has the type of what is shifted, whatever it is shifted by.
pub proof fn lemma_operands_that_do_not_matter(op: BinaryOp, a: Ty, b: Ty)
    ensures
        is_question(op) ==> binary_result(op, a, b) is Int,
        op == BinaryOp::ShiftLeft || op == BinaryOp::ShiftRight ==> binary_result(op, a, b) == a,
{
}

/// Qualifiers on the operands do not show in the type of an operation, unless it is
/// a shift; nor do typedef names.
pub proof fn lemma_qualified_operands(op: BinaryOp, a: Ty, b: Ty, q: TypeQualifiers)
    requires
        op != BinaryOp::ShiftLeft,
        op != BinaryOp::ShiftRight,
    ensures
        binary_result(op, Ty::Qualified(Box::new(a), q), b) == binary_result(op, a, b),
        binary_result(op, a, Ty::Qualified(Box::new(b), q)) == binary_result(op, a, b),
        !(binary_result(op, a, b) is Qualified),
        !(binary_result(op, a, b) is Typedef),
{
    lemma_stripping_is_idempotent(a);
    lemma_stripping_is_idempotent(b);
    assert(stripped(Ty::Qualified(Box::new(a), q)) == stripped(a));
    assert(stripped(Ty::Qualified(Box::new(b), q)) == stripped(b));
}

/// Every arithmetic type is either an integer type or a floating type, and none is
/// a pointer; all of these, and what decays to a pointer, can control a branch.
pub proof fn lemma_kinds_of_types(t: Ty)
    requires
        t == stripped(t),
    ensures
        is_plain_integer(t) || t is Enum <==> is_integer(t),
        precision(t) > 0 || t is Complex <==> is_float(t),
        t is Pointer <==> is_pointer(t),
        !(is_integer(t) && is_float(t)),
        !(t is Void || t is Struct || t is Union || t is Atomic) <==> is_scalar(t),
{
    lemma_stripping_is_idempotent(t);
}

/// What stands at the address of a value is the value; an element is what an array
/// consists of; what is neither pointer nor array cannot be dereferenced.
pub proof fn lemma_indirection_undoes_address(st: State, t: Ty, n: Option<usize>, span: Span)
    ensures
        unary_result(st, UnaryOp::AddressOf, t, span) matches (s, Some(p)) && s == st
            && unary_result(st, UnaryOp::Deref, p, span) == (st, Some(t)),
        unary_result(st, UnaryOp::Deref, Ty::Array(Box::new(t), n), span) == (st, Some(t)),
        !(stripped(t) is Pointer) && !(stripped(t) is Array) ==> unary_result(
            st,
            UnaryOp::Deref,
            t,
            span,
        ).1 is None,
{
    reveal(unary_result);
}

/// A sign or `~` keeps the type, `!` is an `int`, and the parts of a complex number
/// are what it is made of.
pub proof fn lemma_other_prefix_types(st: State, t: Ty, span: Span)
    ensures
        unary_result(st, UnaryOp::Plus, t, span) == (st, Some(t)),
        unary_result(st, UnaryOp::Negate, t, span) == (st, Some(t)),
        unary_result(st, UnaryOp::BitwiseNot, t, span) == (st, Some(t)),
        unary_result(st, UnaryOp::LogicalNot, t, span) == (st, Some(Ty::Int)),
        unary_result(st, UnaryOp::RealPart, Ty::Complex(Box::new(t)), span) == (st, Some(t)),
        unary_result(st, UnaryOp::ImagPart, Ty::Complex(Box::new(t)), span) == (st, Some(t)),
{
    reveal(unary_result);
}

/// A call has the type that the function returns, through a pointer as well. What
/// is no function cannot be called.
pub proof fn lemma_call_returns(st: State, t: Ty, q: TypeQualifiers, span: Span)
    ensures
        deep_stripped(t) is Function ==> call_result(st, t, span) == (
            st,
            Some(*deep_stripped(t)->return_type),
        ),
        deep_stripped(t) is Function ==> call_result(st, Ty::Pointer(Box::new(t), q), span)
            == call_result(st, t, span),
        !(deep_stripped(t) is Function) && !(deep_stripped(t) is Pointer) ==> call_result(
            st,
            t,
            span,
        ).1 is None,
{
    reveal(call_result);
}

/// The member of a struct or union that a name stands for is the first one of that
/// name, where no unnamed member comes before it.
pub proof fn lemma_member_has_its_type(
    st: State,
    t: Ty,
    fields: Seq<Field>,
    k: int,
    member: Symbol,
    span: Span,
)
    requires
        match stripped(t) {
            Ty::Struct { fields: fs, .. } => fs == fields,
            Ty::Union { fields: fs, .. } => fs == fields,
            _ => false,
        },
        0 <= k < fields.len(),
        fields[k].name == Some(st.text(member)),
        forall|j: int|
            0 <= j < k ==> (#[trigger] fields[j]).name is Some && fields[j].name != Some(
                st.text(member),
            ),
    ensures
        member_access(st, t, member, span) == (st, Some(fields[k].ty)),
{
    reveal(member_access);
    lemma_first_of_name(fields, 0, k, st.text(member));
}

proof fn lemma_first_of_name(fields: Seq<Field>, i: int, k: int, name: Seq<char>)
    requires
        0 <= i <= k < fields.len(),
        fields[k].name == Some(name),
        forall|j: int|
            0 <= j < k ==> (#[trigger] fields[j]).name is Some && fields[j].name != Some(name),
    ensures
        find_member(fields, i, name) == Some(fields[k].ty),
    decreases k - i,
{
    if i < k {
        lemma_first_of_name(fields, i + 1, k, name);
    }
}

/// A struct or union whose members all have other names has no such member, and
/// that is an error.
pub proof fn lemma_missing_member_is_reported(
    st: State,
    t: Ty,
    fields: Seq<Field>,
    member: Symbol,
    span: Span,
)
    requires
        match stripped(t) {
            Ty::Struct { fields: fs, .. } => fs == fields,
            Ty::Union { fields: fs, .. } => fs == fields,
            _ => false,
        },
        fields.len() > 0,
        forall|j: int|
            0 <= j < fields.len() ==> (#[trigger] fields[j]).name is Some && fields[j].name
                != Some(st.text(member)),
    ensures
        member_access(st, t, member, span).1 is None,
        member_access(st, t, member, span).0.log.len() == st.log.len() + 1,
{
    reveal(member_access);
    lemma_none_of_name(fields, 0, st.text(member));
}

proof fn lemma_none_of_name(fields: Seq<Field>, i: int, name: Seq<char>)
    requires
        0 <= i <= fields.len(),
        forall|j: int|
            0 <= j < fields.len() ==> (#[trigger] fields[j]).name is Some && fields[j].name
                != Some(name),
    ensures
        find_member(fields, i, name) is None,
    decreases fields.len() - i,
{
    if i < fields.len() {
        lemma_none_of_name(fields, i + 1, name);
    }
}

/// An expression `left op right` with `+`, `-`, `*` or `/` has the most precise
/// floating type among its operands, where there is one and no pointer.
pub proof fn lemma_floating_expression(st: State, e: Expression)
    requires
        e is Binary,
        is_four(e->Binary_op),
        st.depth < st.max_depth,
        ({
            let l = expression(st.deeper(), *e->Binary_left);
            let r = expression(l.0, *e->Binary_right);
            &&& l.1 is Some
            &&& r.1 is Some
            &&& !(stripped(l.1->0) is Pointer)
            &&& !(stripped(r.1->0) is Pointer)
            &&& precision(stripped(l.1->0)) > 0 || precision(stripped(r.1->0)) > 0
        }),
    ensures
        ({
            let l = expression(st.deeper(), *e->Binary_left);
            let r = expression(l.0, *e->Binary_right);
            &&& expression(st, e).1 is Some
            &&& precision(expression(st, e).1->0) >= precision(stripped(l.1->0))
            &&& precision(expression(st, e).1->0) >= precision(stripped(r.1->0))
            &&& expression(st, e).1->0 == stripped(l.1->0) || expression(st, e).1->0 == stripped(
                r.1->0,
            )
        }),
{
    let l = expression(st.deeper(), *e->Binary_left);
    let r = expression(l.0, *e->Binary_right);
    lemma_floating_operand_decides(e->Binary_op, l.1->0, r.1->0);
}

/// The two operands of a conditional meet as those of a sum do.
pub proof fn lemma_conditional_operands_meet(a: Ty, b: Ty)
    ensures
        met(a, b) == binary_result(BinaryOp::Add, a, b),
{
    reveal(met);
}

/// An assignment has the type of what is assigned to.
pub proof fn lemma_assignment_has_type_of_target(st: State, e: Expression)
    requires
        e is Assignment,
        expression(st, e).1 is Some,
    ensures
        expression(st, e).1 == expression(st.deeper(), *e->Assignment_target).1,
{
}

/// Parentheses, increments and decrements keep the type of their operand.
pub proof fn lemma_operand_keeps_its_type(st: State, e: Expression)
    requires
        st.depth < st.max_depth,
    ensures
        e is Parenthesized ==> expression(st, e).1 == expression(
            st.deeper(),
            *e->Parenthesized_inner,
        ).1,
        e is PostIncrement ==> expression(st, e).1 == expression(
            st.deeper(),
            *e->PostIncrement_operand,
        ).1,
        e is PostDecrement ==> expression(st, e).1 == expression(
            st.deeper(),
            *e->PostDecrement_operand,
        ).1,
        e is PreIncrement ==> expression(st, e).1 == expression(
            st.deeper(),
            *e->PreIncrement_operand,
        ).1,
        e is PreDecrement ==> expression(st, e).1 == expression(
            st.deeper(),
            *e->PreDecrement_operand,
        ).1,
{
}

/// A cast has the type that it names, whatever is cast.
pub proof fn lemma_cast_has_named_type(st: State, e: Expression)
    requires
        e is Cast,
        st.depth < st.max_depth,
    ensures
        ({
            let o = expression(st.deeper(), *e->Cast_operand);
            expression(st, e).1 == if o.1 is Some {
                Some(named_type(o.0, *e->Cast_ty_name))
            } else {
                None
            }
        }),
{
    reveal(cast_type);
}

/// `sizeof` and `_Alignof` are of an unsigned type that is as large as a pointer.
pub proof fn lemma_sizes_are_unsigned(st: State, e: Expression, p: Ty)
    requires
        e is SizeofExpr || e is SizeofType || e is AlignofExpr || e is AlignofType,
        st.depth < st.max_depth,
        p is Pointer,
    ensures
        expression(st, e).1 matches Some(t) && (t is ULong || t is UInt),
        e is SizeofType || e is AlignofType ==> plain_size(
            expression(st, e).1->0,
            st.builder_target,
        ) == plain_size(p, st.builder_target),
{
}

/// A subscript gives an element of the array or what the pointer points to, and `->`
/// is a member access on what the pointer points to.
pub proof fn lemma_access_through_pointer(
    st: State,
    t: Ty,
    q: TypeQualifiers,
    n: Option<usize>,
    member: Symbol,
    span: Span,
)
    ensures
        subscripted(st, Ty::Pointer(Box::new(t), q), span) == (st, Some(t)),
        subscripted(st, Ty::Array(Box::new(t), n), span) == (st, Some(t)),
        arrow_access(st, Ty::Pointer(Box::new(t), q), member, span) == member_access(
            st,
            t,
            member,
            span,
        ),
{
    reveal(subscripted);
    reveal(arrow_access);
}

/// A literal with a `u` in its suffix is of an unsigned type; one without, in decimal
/// and of at most 63 bits, is of a signed one. What fits in 31 bits is as small as
/// its suffix admits.
pub proof fn lemma_suffix_decides_sign(value: u128, suffix: IntegerSuffix, hex: bool, lp64: bool)
    ensures
        ({
            let t = integer_literal_ty(value, suffix, hex, lp64);
            let unsigned = suffix == IntegerSuffix::U || suffix == IntegerSuffix::UL || suffix
                == IntegerSuffix::ULL;
            &&& unsigned ==> t is UInt || t is ULong || t is ULongLong
            &&& !unsigned && !hex && value <= i64::MAX ==> t is Int || t is Long || t is LongLong
            &&& value <= i32::MAX ==> {
                &&& suffix == IntegerSuffix::Plain ==> t is Int
                &&& suffix == IntegerSuffix::U ==> t is UInt
                &&& suffix == IntegerSuffix::L ==> t is Long
                &&& suffix == IntegerSuffix::UL && lp64 ==> t is ULong
                &&& suffix == IntegerSuffix::LL ==> t is LongLong
                &&& suffix == IntegerSuffix::ULL ==> t is ULongLong
            }
        }),
{
    reveal_with_fuel(first_fitting, 7);
    let c = literal_candidates(suffix, hex, lp64);
    assert(c.len() > 1 ==> c.skip(1)[0] == c[1]);
    assert(c.len() > 2 ==> c.skip(1).skip(1)[0] == c[2]);
}

/// A floating literal is a `double`, unless its suffix says `float` or `long double`;
/// an imaginary one is complex.
pub proof fn lemma_float_suffix_decides_precision(suffix: FloatSuffix)
    ensures
        suffix == FloatSuffix::F <==> float_literal_ty(suffix) is Float,
        suffix == FloatSuffix::Plain <==> float_literal_ty(suffix) is Double,
        suffix == FloatSuffix::L <==> float_literal_ty(suffix) is LongDouble,
        float_literal_ty(FloatSuffix::I) == Ty::Complex(
            Box::new(float_literal_ty(FloatSuffix::Plain)),
        ),
        float_literal_ty(FloatSuffix::FI) == Ty::Complex(
            Box::new(float_literal_ty(FloatSuffix::F)),
        ),
        float_literal_ty(FloatSuffix::LI) == Ty::Complex(
            Box::new(float_literal_ty(FloatSuffix::L)),
        ),
{
}

/// A builtin that turns bytes round is of the unsigned type that holds as many; one that
/// counts bits is an `int`, one that tells of an overflow a `_Bool`, and an offset is of
/// the type of a size.
pub proof fn lemma_types_of_builtins(st: State, args: Seq<Expression>, e: Expression)
    requires
        e is SizeofType,
        st.depth < st.max_depth,
    ensures
        ({
            let t = |k: BuiltinKind| builtin_call_type(st, k, args);
            &&& t(BuiltinKind::Bswap16) is UShort && t(BuiltinKind::Bswap32) is UInt
            &&& t(BuiltinKind::Bswap64) is ULongLong
            &&& t(BuiltinKind::Clz) is Int && t(BuiltinKind::Ctz) is Int
            &&& t(BuiltinKind::Popcount) is Int && t(BuiltinKind::Ffs) is Int
            &&& t(BuiltinKind::AddOverflow) is Bool && t(BuiltinKind::SubOverflow) is Bool
            &&& t(BuiltinKind::MulOverflow) is Bool
            &&& t(BuiltinKind::Unreachable) is Void && t(BuiltinKind::Trap) is Void
            &&& Some(t(BuiltinKind::Offsetof)) == expression(st, e).1
            &&& args.len() == 2 ==> (args[1] matches Expression::SizeofType { ty_name, .. } ==> t(
                BuiltinKind::VaArg,
            ) == named_type(st, *ty_name))
        }),
{
    reveal(builtin_call_type);
}

/// A member of an unnamed struct or union counts as a member of the type around it, where
/// no earlier member has its name and no earlier one is unnamed.
pub proof fn lemma_member_of_unnamed_is_found(
    fields: Seq<Field>,
    k: int,
    inner: Seq<Field>,
    name: Seq<char>,
    t: Ty,
)
    requires
        0 <= k < fields.len(),
        fields[k].name is None,
        match fields[k].ty {
            Ty::Struct { fields: fs, .. } => fs == inner,
            Ty::Union { fields: fs, .. } => fs == inner,
            _ => false,
        },
        find_member(inner, 0, name) == Some(t),
        forall|j: int|
            0 <= j < k ==> (#[trigger] fields[j]).name is Some && fields[j].name != Some(name),
    ensures
        find_member(fields, 0, name) == Some(t),
{
    lemma_unnamed_from(fields, 0, k, inner, name, t);
}

proof fn lemma_unnamed_from(
    fields: Seq<Field>,
    i: int,
    k: int,
    inner: Seq<Field>,
    name: Seq<char>,
    t: Ty,
)
    requires
        0 <= i <= k < fields.len(),
        fields[k].name is None,
        match fields[k].ty {
            Ty::Struct { fields: fs, .. } => fs == inner,
            Ty::Union { fields: fs, .. } => fs == inner,
            _ => false,
        },
        find_member(inner, 0, name) == Some(t),
        forall|j: int|
            0 <= j < k ==> (#[trigger] fields[j]).name is Some && fields[j].name != Some(name),
    ensures
        find_member(fields, i, name) == Some(t),
    decreases k - i,
{
    if i < k {
        assert(fields[i].name is Some);
        lemma_unnamed_from(fields, i + 1, k, inner, name, t);
    } else {
        assert(find_in_unnamed(fields[k].ty, name, true, true) == Some(t));
    }
}

/// A member is looked for in the complete definition of its tag where the type has no
/// members of its own.
pub proof fn lemma_member_through_tag(
    st: State,
    t: Ty,
    tag: Seq<char>,
    member: Symbol,
    span: Span,
    d: Ty,
)
    requires
        t matches Ty::Struct { name, fields, .. } && name == Some(tag) && fields.len() == 0,
        tag_by_text(st.scopes, st.names, tag) matches Some(e) && e.is_complete && e.ty == d,
        d matches Ty::Struct { fields, .. } && fields.len() > 0,
    ensures
        member_access(st, t, member, span) == member_access(st, d, member, span),
{
    reveal(member_access);
}

/// A `_Generic` selects the first association whose type matches what controls it.
pub proof fn lemma_first_match_is_selected(
    st: State,
    t: Ty,
    assocs: Seq<GenericAssociation>,
    k: int,
    span: Span,
)
    requires
        0 <= k < assocs.len(),
        assocs[k].ty_name matches Some(tn) && generic_match(t, stripped(named_type(st, tn))),
        forall|j: int|
            0 <= j < k ==> ((#[trigger] assocs[j]).ty_name matches Some(tn) && !generic_match(
                t,
                stripped(named_type(st, tn)),
            )),
    ensures
        association(st, t, assocs, 0, None, span) == expression(st, *assocs[k].expression),
{
    lemma_match_from(st, t, assocs, 0, k, span);
}

proof fn lemma_match_from(
    st: State,
    t: Ty,
    assocs: Seq<GenericAssociation>,
    i: int,
    k: int,
    span: Span,
)
    requires
        0 <= i <= k < assocs.len(),
        assocs[k].ty_name matches Some(tn) && generic_match(t, stripped(named_type(st, tn))),
        forall|j: int|
            0 <= j < k ==> ((#[trigger] assocs[j]).ty_name matches Some(tn) && !generic_match(
                t,
                stripped(named_type(st, tn)),
            )),
    ensures
        association(st, t, assocs, i, None, span) == expression(st, *assocs[k].expression),
    decreases k - i,
{
    reveal(cast_type);
    if i < k {
        assert(assocs[i].ty_name is Some);
        lemma_match_from(st, t, assocs, i + 1, k, span);
    }
}

/// What controls a `_Generic` has no qualifiers, and is a pointer to the elements where it
/// is an array.
pub proof fn lemma_controlling_type_decays(t: Ty, n: Option<usize>)
    ensures
        !(controlling(t) is Qualified) && !(controlling(t) is Typedef),
        !(controlling(t) is Array) && !(controlling(t) is Function),
        controlling(Ty::Array(Box::new(t), n)) matches Ty::Pointer(inner, _) && *inner == t,
        !(stripped(t) is Array) && !(stripped(t) is Function) ==> controlling(t) == stripped(t),
{
    lemma_stripping_is_idempotent(t);
}

/// A string literal points to constant characters of the size that its prefix asks for, and
/// a character literal without a wide prefix is an `int`.
pub proof fn lemma_text_literals(prefix: StringPrefix, c: CharPrefix, target: Target)
    ensures
        string_literal_ty(prefix) matches Ty::Pointer(inner, q) && q.is_const && plain_size(
            *inner,
            target,
        ) == (match prefix {
            StringPrefix::Plain => 1int,
            StringPrefix::U8 => 1,
            StringPrefix::U16 => 2,
            StringPrefix::U32 => 4,
            StringPrefix::L => 4,
        }),
        plain_size(char_literal_ty(c), target) == (match c {
            CharPrefix::U16 => 2int,
            _ => 4,
        }),
        c == CharPrefix::Plain ==> char_literal_ty(c) is Int,
{
}

} // verus!
