//! From specifiers, declarators and type names to types; inference of the types
//! of expressions; and constant expressions that ask for sizes.

use crate::common::layout::{
    align_with_tags, alignof_ctype_resolved, size_with_tags, sizeof_ctype_resolved,
};
use crate::common::string_interner::Symbol;
use crate::common::text::{opt_chars, own};
use crate::common::types::{
    const_quals, deep_stripped, fields_of, opt_ty, pointer_to, pointer_ty, resolve_and_strip,
    ty_of, types_of, CType, Field, StructField, Ty, TypeQualifiers,
};
use crate::frontend::parser::ast::{
    AbstractDeclarator, BinaryOp, BlockItem, BuiltinKind, CompoundStatement, Declarator,
    DeclarationSpecifiers, DirectAbstractDeclarator, DirectDeclarator, EnumSpecifier, Expression,
    GenericAssociation, InitDeclarator, IntegerSuffix, ParameterDeclaration,
    SpecifierQualifierList, Statement, StructDeclarator, StructMember, StructOrUnionSpecifier,
    TypeName, TypeQualifier, TypeSpecifier, TypeofArg, UnaryOp,
};
use crate::frontend::sema::analyzer::SemanticAnalyzer;
use crate::frontend::sema::constants::{bitfield_width, eval_bitfield_width};
use crate::frontend::sema::offsets::{
    field_offset, offset_of, step_of, steps_of, OffsetofStep, Step,
};
use crate::frontend::sema::scope::tag_in;
use crate::frontend::sema::specifiers::{
    add_keyword, aggregate, apply_pointers, behind_pointers, build_type_qualifiers, combine,
    combined, direct_name, extract_declarator_name, keywords, no_keywords, qualified, qualify,
    quals_of, with_keyword, Keywords,
};
use crate::frontend::sema::state::State;
use crate::frontend::sema::typing::{generic_match, inferred_member, types_match};
use vstd::prelude::*;

verus! {

broadcast use crate::common::types::group_type_models;

// ---------------------------------------------------------------------------
// What the types are
// ---------------------------------------------------------------------------

/// What a list of type specifiers says so far.
pub struct Specs {
    pub keywords: Keywords,
    pub typedef_ty: Option<Ty>,
    pub tag_ty: Option<Ty>,
    pub enum_ty: Option<Ty>,
}

/// Nothing said yet.
pub open spec fn no_specs() -> Specs {
    Specs { keywords: no_keywords(), typedef_ty: None, tag_ty: None, enum_ty: None }
}

/// The outcome of reading a list of type specifiers.
pub enum Scan {
    /// One specifier decides alone, whatever else there is, qualifiers included.
    Decided(Ty),
    Collected(Specs),
}

/// The type of a list of type specifiers that no single one decides.
pub open spec fn collected_type(s: Specs) -> Ty {
    match s.typedef_ty {
        Some(t) => t,
        None => match s.tag_ty {
            Some(t) => t,
            None => match s.enum_ty {
                Some(t) => t,
                None => combined(s.keywords),
            },
        },
    }
}

/// Reads the type specifiers from the `i`-th on.
pub open spec fn scan(st: State, specs: Seq<TypeSpecifier>, i: int, acc: Specs) -> Scan
    decreases specs, specs.len() - i,
{
    if i < 0 || i >= specs.len() {
        Scan::Collected(acc)
    } else {
        match specs[i] {
            TypeSpecifier::Float128 => Scan::Decided(Ty::LongDouble),
            TypeSpecifier::Float64 => Scan::Decided(Ty::Double),
            TypeSpecifier::Float32 => Scan::Decided(Ty::Float),
            TypeSpecifier::Float16 => Scan::Decided(Ty::Float),
            TypeSpecifier::AutoType => Scan::Decided(Ty::Int),
            TypeSpecifier::Atomic(tn) => Scan::Decided(
                Ty::Atomic(
                    Box::new(
                        specified_type(
                            st,
                            tn.specifier_qualifiers.type_specifiers@,
                            tn.specifier_qualifiers.type_qualifiers@,
                        ),
                    ),
                ),
            ),
            TypeSpecifier::Typeof(TypeofArg::TypeName(tn)) => Scan::Decided(named_type(st, *tn)),
            TypeSpecifier::Typeof(TypeofArg::Expression(e)) => Scan::Decided(inferred(st, *e)),
            TypeSpecifier::TypedefName(sym) => scan(
                st,
                specs,
                i + 1,
                match st.declared_type(sym) {
                    Some(t) => Specs { typedef_ty: Some(t), ..acc },
                    None => acc,
                },
            ),
            TypeSpecifier::Struct(s) => scan(
                st,
                specs,
                i + 1,
                Specs { tag_ty: Some(aggregate_type(st, s, true)), ..acc },
            ),
            TypeSpecifier::Union(s) => scan(
                st,
                specs,
                i + 1,
                Specs { tag_ty: Some(aggregate_type(st, s, false)), ..acc },
            ),
            TypeSpecifier::Enum(e) => scan(
                st,
                specs,
                i + 1,
                Specs { enum_ty: Some(enum_type(st, e)), ..acc },
            ),
            other => scan(
                st,
                specs,
                i + 1,
                Specs { keywords: with_keyword(acc.keywords, other), ..acc },
            ),
        }
    }
}

/// The type of a list of type specifiers and qualifiers.
pub open spec fn specified_type(
    st: State,
    specs: Seq<TypeSpecifier>,
    quals: Seq<TypeQualifier>,
) -> Ty
    decreases specs, specs.len() + 1,
{
    match scan(st, specs, 0, no_specs()) {
        Scan::Decided(t) => t,
        Scan::Collected(s) => qualified(collected_type(s), quals_of(quals)),
    }
}

/// The type that an enum specifier names.
pub open spec fn enum_type(st: State, e: EnumSpecifier) -> Ty {
    match e.tag {
        Some(tag) if tag_in(st.scopes, tag) is Some => tag_in(st.scopes, tag)->0.ty,
        _ => Ty::Enum { name: st.opt_text(e.tag), underlying_type: Box::new(Ty::Int) },
    }
}

/// The type that a struct or union specifier names. One with members is their
/// type, unless its tag is complete already; one without is a tag reference.
pub open spec fn aggregate_type(st: State, s: StructOrUnionSpecifier, is_struct: bool) -> Ty
    decreases s, 0int,
{
    match s.members {
        None => aggregate(is_struct, st.opt_text(s.tag), Seq::empty(), false, None),
        Some(ms) => {
            let known = match s.tag {
                Some(tag) => tag_in(st.scopes, tag),
                None => None,
            };
            if known is Some && known->0.is_complete {
                known->0.ty
            } else {
                aggregate(
                    is_struct,
                    st.opt_text(s.tag),
                    members_fields(st, ms@, 0),
                    false,
                    None,
                )
            }
        },
    }
}

/// The members that the member declarations from the `i`-th on declare.
pub open spec fn members_fields(st: State, ms: Seq<StructMember>, i: int) -> Seq<Field>
    decreases ms, ms.len() - i,
{
    if i < 0 || i >= ms.len() {
        Seq::empty()
    } else {
        member_fields(st, ms[i]) + members_fields(st, ms, i + 1)
    }
}

/// The members that a member declaration declares: one unnamed where it has no
/// declarator.
pub open spec fn member_fields(st: State, m: StructMember) -> Seq<Field>
    decreases m, 0int,
{
    let base = specified_type(
        st,
        m.specifiers.type_specifiers@,
        m.specifiers.type_qualifiers@,
    );
    if m.declarators@.len() == 0 {
        seq![Field { name: None, ty: base, bit_width: None }]
    } else {
        declared_fields(st, base, m.declarators@, 0)
    }
}

/// The members that the declarators from the `i`-th on declare.
pub open spec fn declared_fields(st: State, base: Ty, ds: Seq<StructDeclarator>, i: int) -> Seq<
    Field,
>
    decreases ds, ds.len() - i,
{
    if i < 0 || i >= ds.len() {
        Seq::empty()
    } else {
        seq![declared_field(st, base, ds[i])] + declared_fields(st, base, ds, i + 1)
    }
}

/// The member that a declarator declares.
pub open spec fn declared_field(st: State, base: Ty, d: StructDeclarator) -> Field
    decreases d, 0int,
{
    Field {
        name: match d.declarator {
            Some(x) => Some(st.text(direct_name(x.direct))),
            None => None,
        },
        ty: match d.declarator {
            Some(x) => declarator_type(st, base, x),
            None => base,
        },
        bit_width: match d.bit_width {
            Some(e) => Some(bitfield_width(*e)),
            None => None,
        },
    }
}

/// The type that a declarator gives to its name, on top of `base`.
pub open spec fn declarator_type(st: State, base: Ty, d: Declarator) -> Ty
    decreases d, 1int,
{
    direct_type(st, behind_pointers(base, d.pointer), d.direct)
}

/// The type that a direct declarator gives to its name. An array or a parameter
/// list applies to `base` before what stands in parentheses; a plain parameter
/// list applies last.
pub open spec fn direct_type(st: State, base: Ty, d: DirectDeclarator) -> Ty
    decreases d, 0int,
{
    match d {
        DirectDeclarator::Identifier(_, _) => base,
        DirectDeclarator::Parenthesized(inner) => declarator_type(st, base, *inner),
        DirectDeclarator::Array { base: inner, size, .. } => direct_type(
            st,
            Ty::Array(Box::new(base), array_length(st, size)),
            *inner,
        ),
        DirectDeclarator::Function { base: inner, params, is_variadic, .. } => match *inner {
            DirectDeclarator::Parenthesized(x) => declarator_type(
                st,
                Ty::Function {
                    return_type: Box::new(base),
                    params: parameter_types(st, params@, 0),
                    variadic: is_variadic,
                },
                *x,
            ),
            _ => Ty::Function {
                return_type: Box::new(direct_type(st, base, *inner)),
                params: parameter_types(st, params@, 0),
                variadic: is_variadic,
            },
        },
    }
}

/// The length of an array, if it is given and can be evaluated.
pub open spec fn array_length(st: State, size: Option<Box<Expression>>) -> Option<usize>
    decreases size, 0int,
{
    match size {
        None => None,
        Some(e) => match *e {
            Expression::IntegerLiteral { value, .. } => Some(value as usize),
            _ => match const_value(st, *e) {
                Some(v) => Some(v as usize),
                None => None,
            },
        },
    }
}

/// The types of the parameters from the `i`-th on.
pub open spec fn parameter_types(st: State, ps: Seq<ParameterDeclaration>, i: int) -> Seq<Ty>
    decreases ps, ps.len() - i,
{
    if i < 0 || i >= ps.len() {
        Seq::empty()
    } else {
        seq![parameter_type(st, ps[i])] + parameter_types(st, ps, i + 1)
    }
}

/// The type of a parameter, named or not.
pub open spec fn parameter_type(st: State, p: ParameterDeclaration) -> Ty
    decreases p, 0int,
{
    let base = specified_type(
        st,
        p.specifiers.type_specifiers@,
        p.specifiers.type_qualifiers@,
    );
    match p.declarator {
        Some(d) => declarator_type(st, base, d),
        None => match p.abstract_declarator {
            Some(a) => abstract_type(st, base, a),
            None => base,
        },
    }
}

/// The type of a type name.
pub open spec fn named_type(st: State, tn: TypeName) -> Ty
    decreases tn, 0int,
{
    let base = specified_type(
        st,
        tn.specifier_qualifiers.type_specifiers@,
        tn.specifier_qualifiers.type_qualifiers@,
    );
    match tn.abstract_declarator {
        Some(a) => abstract_type(st, base, a),
        None => base,
    }
}

/// The type that an abstract declarator describes, on top of `base`.
pub open spec fn abstract_type(st: State, base: Ty, a: AbstractDeclarator) -> Ty
    decreases a, 1int,
{
    let t = behind_pointers(base, a.pointer);
    match a.direct {
        Some(d) => direct_abstract_type(st, t, d),
        None => t,
    }
}

/// The type that a direct abstract declarator describes, on top of `base`.
pub open spec fn direct_abstract_type(st: State, base: Ty, d: DirectAbstractDeclarator) -> Ty
    decreases d, 0int,
{
    match d {
        DirectAbstractDeclarator::Parenthesized(inner) => abstract_type(st, base, *inner),
        DirectAbstractDeclarator::Array { base: inner, size } => {
            let t = Ty::Array(Box::new(base), array_length(st, size));
            match inner {
                Some(x) => direct_abstract_type(st, t, *x),
                None => t,
            }
        },
        DirectAbstractDeclarator::Function { base: inner, params, is_variadic } => {
            let t = Ty::Function {
                return_type: Box::new(base),
                params: parameter_types(st, params@, 0),
                variadic: is_variadic,
            };
            match inner {
                Some(x) => direct_abstract_type(st, t, *x),
                None => t,
            }
        },
    }
}

/// The type that an integer suffix alone suggests.
pub open spec fn suffix_type(s: IntegerSuffix) -> Ty {
    match s {
        IntegerSuffix::Plain => Ty::Int,
        IntegerSuffix::U => Ty::UInt,
        IntegerSuffix::L => Ty::Long,
        IntegerSuffix::UL => Ty::ULong,
        IntegerSuffix::LL => Ty::LongLong,
        IntegerSuffix::ULL => Ty::ULongLong,
    }
}

/// What a pointer on top points to or an array on top consists of; else `int`.
pub open spec fn element_or_int(t: Ty) -> Ty {
    match t {
        Ty::Pointer(inner, _) => *inner,
        Ty::Array(inner, _) => *inner,
        _ => Ty::Int,
    }
}

/// What a function on top returns; else `int`.
pub open spec fn return_or_int(t: Ty) -> Ty {
    match t {
        Ty::Function { return_type, .. } => *return_type,
        _ => Ty::Int,
    }
}

/// The type that a prefix operation is inferred to have.
pub open spec fn inferred_prefix(op: UnaryOp, t: Ty) -> Ty {
    match op {
        UnaryOp::Deref => element_or_int(t),
        UnaryOp::AddressOf => pointer_ty(t),
        UnaryOp::LogicalNot => Ty::Int,
        _ => t,
    }
}

/// The type that a member behind a pointer is inferred to have.
pub open spec fn inferred_arrow(st: State, t: Ty, member: Symbol) -> Ty {
    match deep_stripped(t) {
        Ty::Pointer(inner, _) => inferred_member(st, *inner, member),
        _ => Ty::Int,
    }
}

/// The type that `typeof` infers for an expression; `int` where it cannot tell.
pub open spec fn inferred(st: State, e: Expression) -> Ty
    decreases e, 0int,
{
    match e {
        Expression::Identifier { name, .. } => match st.declared_type(name) {
            Some(t) => t,
            None => Ty::Int,
        },
        Expression::IntegerLiteral { suffix, .. } => suffix_type(suffix),
        Expression::FloatLiteral { .. } => Ty::Double,
        Expression::CharLiteral { .. } => Ty::Int,
        Expression::StringLiteral { .. } => pointer_ty(Ty::Char),
        Expression::UnaryOp { op, operand, .. } => inferred_prefix(op, inferred(st, *operand)),
        Expression::MemberAccess { object, member, .. } => inferred_member(
            st,
            inferred(st, *object),
            member,
        ),
        Expression::PointerMemberAccess { object, member, .. } => inferred_arrow(
            st,
            inferred(st, *object),
            member,
        ),
        Expression::ArraySubscript { base, .. } => element_or_int(inferred(st, *base)),
        Expression::Binary { left, .. } => inferred(st, *left),
        Expression::Conditional { then_expr, else_expr, .. } => match then_expr {
            Some(t) => inferred(st, *t),
            None => inferred(st, *else_expr),
        },
        Expression::Cast { ty_name: tn, .. } => named_type(st, *tn),
        Expression::Parenthesized { inner, .. } => inferred(st, *inner),
        Expression::PostIncrement { operand, .. } => inferred(st, *operand),
        Expression::PostDecrement { operand, .. } => inferred(st, *operand),
        Expression::PreIncrement { operand, .. } => inferred(st, *operand),
        Expression::PreDecrement { operand, .. } => inferred(st, *operand),
        Expression::Comma { exprs, .. } => if exprs@.len() == 0 {
            Ty::Void
        } else {
            inferred(st, exprs@[exprs@.len() - 1])
        },
        Expression::SizeofExpr { .. } => Ty::ULong,
        Expression::SizeofType { .. } => Ty::ULong,
        Expression::CompoundLiteral { ty_name: tn, .. } => specified_type(
            st,
            tn.specifier_qualifiers.type_specifiers@,
            tn.specifier_qualifiers.type_qualifiers@,
        ),
        Expression::FunctionCall { callee, .. } => return_or_int(inferred(st, *callee)),
        Expression::Generic { controlling, associations, .. } => inferred_association(
            st,
            deep_stripped(inferred(st, *controlling)),
            associations@,
            0,
            None,
        ),
        Expression::StatementExpression { compound, .. } => inferred_block(
            st,
            compound,
            Map::empty(),
        ),
        _ => Ty::Int,
    }
}

/// The type of the association that a `_Generic` with a controlling expression
/// of type `t` selects from the `i`-th on: the first that matches, else the last
/// default seen.
pub open spec fn inferred_association(
    st: State,
    t: Ty,
    assocs: Seq<GenericAssociation>,
    i: int,
    fallback: Option<Ty>,
) -> Ty
    decreases assocs, assocs.len() - i,
{
    if i < 0 || i >= assocs.len() {
        match fallback {
            Some(d) => d,
            None => Ty::Int,
        }
    } else {
        match assocs[i].ty_name {
            Some(tn) => if generic_match(t, deep_stripped(named_type(st, tn))) {
                inferred(st, *assocs[i].expression)
            } else {
                inferred_association(st, t, assocs, i + 1, fallback)
            },
            None => inferred_association(
                st,
                t,
                assocs,
                i + 1,
                Some(inferred(st, *assocs[i].expression)),
            ),
        }
    }
}

/// The type of a statement expression, inside which `outer` holds the types of
/// the names that enclosing statement expressions declare.
pub open spec fn inferred_block(st: State, c: CompoundStatement, outer: Map<u32, Ty>) -> Ty
    decreases c, 0int,
{
    if c.items@.len() == 0 {
        Ty::Int
    } else {
        match c.items@[c.items@.len() - 1] {
            BlockItem::Statement(Statement::Expression(Some(x))) => inferred_inside(
                st,
                *x,
                block_locals(st, c.items@, 0, outer),
            ),
            _ => Ty::Int,
        }
    }
}

/// The types of the names that the items from the `i`-th on declare, on top of
/// `m`.
pub open spec fn block_locals(st: State, items: Seq<BlockItem>, i: int, m: Map<u32, Ty>) -> Map<
    u32,
    Ty,
>
    decreases items, items.len() - i,
{
    if i < 0 || i >= items.len() {
        m
    } else {
        match items[i] {
            BlockItem::Declaration(d) => block_locals(
                st,
                items,
                i + 1,
                declared_locals(
                    st,
                    specified_type(
                        st,
                        d.specifiers.type_specifiers@,
                        d.specifiers.type_qualifiers@,
                    ),
                    d.declarators@,
                    0,
                    m,
                ),
            ),
            BlockItem::Statement(_) => block_locals(st, items, i + 1, m),
        }
    }
}

/// The types of the names that the declarators from the `i`-th on declare, on
/// top of `m`.
pub open spec fn declared_locals(
    st: State,
    base: Ty,
    ds: Seq<InitDeclarator>,
    i: int,
    m: Map<u32, Ty>,
) -> Map<u32, Ty>
    decreases ds, ds.len() - i,
{
    if i < 0 || i >= ds.len() {
        m
    } else {
        declared_locals(
            st,
            base,
            ds,
            i + 1,
            m.insert(
                direct_name(ds[i].declarator.direct).0,
                declarator_type(st, base, ds[i].declarator),
            ),
        )
    }
}

/// The type inferred for an expression inside a statement expression, whose own
/// names have the types `m`.
pub open spec fn inferred_inside(st: State, e: Expression, m: Map<u32, Ty>) -> Ty
    decreases e, 1int,
{
    match e {
        Expression::Identifier { name, .. } => if m.contains_key(name.0) {
            m[name.0]
        } else {
            match st.declared_type(name) {
                Some(t) => t,
                None => Ty::Int,
            }
        },
        Expression::Conditional { then_expr, else_expr, .. } => match then_expr {
            Some(t) => inferred_inside(st, *t, m),
            None => inferred_inside(st, *else_expr, m),
        },
        Expression::Parenthesized { inner, .. } => inferred_inside(st, *inner, m),
        Expression::Comma { exprs, .. } => if exprs@.len() == 0 {
            Ty::Void
        } else {
            inferred_inside(st, exprs@[exprs@.len() - 1], m)
        },
        Expression::Binary { left, .. } => inferred_inside(st, *left, m),
        Expression::UnaryOp { op, operand, .. } => inferred_prefix(
            op,
            inferred_inside(st, *operand, m),
        ),
        Expression::Cast { ty_name: tn, .. } => named_type(st, *tn),
        Expression::PostIncrement { operand, .. } => inferred_inside(st, *operand, m),
        Expression::PostDecrement { operand, .. } => inferred_inside(st, *operand, m),
        Expression::PreIncrement { operand, .. } => inferred_inside(st, *operand, m),
        Expression::PreDecrement { operand, .. } => inferred_inside(st, *operand, m),
        Expression::StatementExpression { compound, .. } => inferred_block(st, compound, m),
        _ => inferred(st, e),
    }
}

/// The type of the operand of `sizeof`, where it can be told at a glance.
pub open spec fn simple_type(st: State, e: Expression) -> Option<Ty> {
    match e {
        Expression::IntegerLiteral { .. } => Some(Ty::Int),
        Expression::Identifier { name, .. } => st.declared_type(name),
        Expression::StringLiteral { .. } => Some(Ty::Pointer(Box::new(Ty::Char), const_quals())),
        _ => None,
    }
}

/// Value of an operation on unsigned 64-bit integers.
pub open spec fn word_operation(op: BinaryOp, l: u64, r: u64) -> Option<u64> {
    match op {
        BinaryOp::Add => Some(l.wrapping_add(r)),
        BinaryOp::Sub => Some(l.wrapping_sub(r)),
        BinaryOp::Mul => Some(l.wrapping_mul(r)),
        BinaryOp::Div => if r != 0 {
            Some((l / r) as u64)
        } else {
            None
        },
        BinaryOp::Mod => if r != 0 {
            Some((l % r) as u64)
        } else {
            None
        },
        BinaryOp::ShiftLeft => Some(l.wrapping_shl(r as u32)),
        BinaryOp::ShiftRight => Some(l.wrapping_shr(r as u32)),
        BinaryOp::BitwiseAnd => Some(l & r),
        BinaryOp::BitwiseOr => Some(l | r),
        BinaryOp::BitwiseXor => Some(l ^ r),
        _ => None,
    }
}

/// Value of a constant expression in an attribute or an array length, as an
/// unsigned 64-bit integer that wraps round. Casts change nothing.
pub open spec fn const_value(st: State, e: Expression) -> Option<u64>
    decreases e, 0int,
{
    match e {
        Expression::IntegerLiteral { value, .. } => Some(value as u64),
        Expression::Parenthesized { inner, .. } => const_value(st, *inner),
        Expression::SizeofType { ty_name: tn, .. } => Some(
            size_with_tags(named_type(st, *tn), st.target, st.tags) as u64,
        ),
        Expression::SizeofExpr { operand, .. } => match simple_type(st, *operand) {
            Some(t) => Some(size_with_tags(t, st.target, st.tags) as u64),
            None => None,
        },
        Expression::AlignofType { ty_name: tn, .. } => Some(
            align_with_tags(named_type(st, *tn), st.target, st.tags) as u64,
        ),
        Expression::Binary { op, left, right, .. } => match (
            const_value(st, *left),
            const_value(st, *right),
        ) {
            (Some(l), Some(r)) => word_operation(op, l, r),
            _ => None,
        },
        Expression::Cast { operand, .. } => const_value(st, *operand),
        Expression::UnaryOp { op, operand, .. } => {
            let offset = if op == UnaryOp::AddressOf {
                null_offset(st, *operand, Seq::empty())
            } else {
                None
            };
            if offset is Some {
                offset
            } else {
                match const_value(st, *operand) {
                    None => None,
                    Some(v) => match op {
                        UnaryOp::Negate => Some(0u64.wrapping_sub(v)),
                        UnaryOp::BitwiseNot => Some(!v),
                        UnaryOp::Plus => Some(v),
                        _ => None,
                    },
                }
            }
        },
        Expression::Conditional { condition, then_expr, else_expr, .. } => match const_value(
            st,
            *condition,
        ) {
            None => None,
            Some(c) => if c != 0 {
                match then_expr {
                    Some(t) => const_value(st, *t),
                    None => None,
                }
            } else {
                const_value(st, *else_expr)
            },
        },
        Expression::BuiltinCall { builtin, args, .. } => if builtin == BuiltinKind::Offsetof
            && args@.len() >= 2 {
            match args@[0] {
                Expression::SizeofType { ty_name: tn, .. } => {
                    let chain = designator(st, args@[1]);
                    if chain.len() == 0 {
                        None
                    } else {
                        offset_of(named_type(st, *tn), chain, st.target, st.tags)
                    }
                },
                _ => None,
            }
        } else {
            None
        },
        _ => None,
    }
}

/// The steps of the member designator of an `offsetof`. An index that cannot be
/// evaluated is passed over.
pub open spec fn designator(st: State, e: Expression) -> Seq<Step>
    decreases e, 0int,
{
    match e {
        Expression::Identifier { name, .. } => seq![Step::Field(st.text(name))],
        Expression::MemberAccess { object, member, .. } => designator(st, *object).push(
            Step::Field(st.text(member)),
        ),
        Expression::ArraySubscript { base, index, .. } => match const_value(st, *index) {
            Some(i) => designator(st, *base).push(Step::Index(i as usize)),
            None => designator(st, *base),
        },
        _ => Seq::empty(),
    }
}

/// The offset that `&((T *)0)->m` stands for; `chain` holds the steps that were
/// peeled off outside `e`.
pub open spec fn null_offset(st: State, e: Expression, chain: Seq<Step>) -> Option<u64>
    decreases e, 0int,
{
    match e {
        Expression::PointerMemberAccess { object, member, .. } => null_offset(
            st,
            *object,
            seq![Step::Field(st.text(member))] + chain,
        ),
        Expression::MemberAccess { object, member, .. } => null_offset(
            st,
            *object,
            seq![Step::Field(st.text(member))] + chain,
        ),
        Expression::ArraySubscript { base, index, .. } => match const_value(st, *index) {
            Some(i) => null_offset(st, *base, seq![Step::Index(i as usize)] + chain),
            None => None,
        },
        Expression::Parenthesized { inner, .. } => null_offset(st, *inner, chain),
        Expression::UnaryOp { op, operand, .. } => if op == UnaryOp::Deref {
            null_offset(st, *operand, chain)
        } else {
            None
        },
        Expression::Cast { ty_name: tn, operand, .. } => if const_value(st, *operand) == Some(
            0u64,
        ) {
            match named_type(st, *tn) {
                Ty::Pointer(inner, _) => offset_of(*inner, chain, st.target, st.tags),
                _ => None,
            }
        } else {
            None
        },
        _ => None,
    }
}

/// The type of a type name, as the analysis of an expression asks for it.
#[verifier::opaque]
pub open spec fn cast_type(st: State, tn: TypeName) -> Ty {
    named_type(st, tn)
}

/// The type of declaration specifiers, as the analysis of a declaration asks for
/// it.
#[verifier::opaque]
pub open spec fn base_type(st: State, specs: DeclarationSpecifiers) -> Ty {
    specified_type(st, specs.type_specifiers@, specs.type_qualifiers@)
}

/// The type of a specifier-qualifier list, as lowering asks for it.
#[verifier::opaque]
pub open spec fn listed_type(st: State, l: SpecifierQualifierList) -> Ty {
    specified_type(st, l.type_specifiers@, l.type_qualifiers@)
}

/// The members of a struct or union, as lowering asks for them.
#[verifier::opaque]
pub open spec fn field_list(st: State, ms: Seq<StructMember>) -> Seq<Field> {
    members_fields(st, ms, 0)
}

/// The length of an array, as lowering asks for it.
#[verifier::opaque]
pub open spec fn stated_length(st: State, size: Option<Box<Expression>>) -> Option<usize> {
    array_length(st, size)
}

/// The type that a declarator gives to its name, as the analysis of a
/// declaration asks for it.
#[verifier::opaque]
pub open spec fn full_type(st: State, base: Ty, d: Declarator) -> Ty {
    declarator_type(st, base, d)
}

// ---------------------------------------------------------------------------
// Finding them
// ---------------------------------------------------------------------------

/// The types of the names that statement expressions declare, the latest last.
pub struct Locals {
    entries: Vec<(u32, CType)>,
}

/// The types by name; of two entries for a name the later counts.
pub open spec fn locals_map(s: Seq<(u32, CType)>) -> Map<u32, Ty>
    decreases s.len(),
{
    if s.len() == 0 {
        Map::empty()
    } else {
        locals_map(s.drop_last()).insert(s.last().0, ty_of(s.last().1))
    }
}

impl View for Locals {
    type V = Map<u32, Ty>;

    closed spec fn view(&self) -> Map<u32, Ty> {
        locals_map(self.entries@)
    }
}

impl Locals {
    /// No names.
    pub fn new() -> (r: Locals)
        ensures
            r@ == Map::<u32, Ty>::empty(),
    {
        Locals { entries: Vec::new() }
    }

    /// Gives a name its type.
    pub fn insert(&mut self, name: u32, ty: CType)
        ensures
            final(self)@ == old(self)@.insert(name, ty@),
    {
        self.entries.push((name, ty));
        assert(self.entries@.drop_last() =~= old(self).entries@);
    }

    /// The type of a name, if it has one.
    pub fn get(&self, name: u32) -> (r: Option<CType>)
        ensures
            opt_ty(r) == self@.get(name),
    {
        let mut n: usize = self.entries.len();
        assert(self.entries@.take(n as int) =~= self.entries@);
        while n > 0
            invariant
                n <= self.entries@.len(),
                locals_map(self.entries@.take(n as int)).get(name) == self@.get(name),
            decreases n,
        {
            assert(self.entries@.take(n as int).drop_last() =~= self.entries@.take(n - 1));
            if self.entries[n - 1].0 == name {
                return Some(self.entries[n - 1].1.clone());
            }
            n -= 1;
        }
        None
    }

    fn copy(&self) -> (r: Locals)
        ensures
            r@ == self@,
    {
        let mut r = Locals::new();
        let mut i: usize = 0;
        while i < self.entries.len()
            invariant
                i <= self.entries@.len(),
                r@ == locals_map(self.entries@.take(i as int)),
            decreases self.entries@.len() - i,
        {
            assert(self.entries@.take(i + 1).drop_last() =~= self.entries@.take(i as int));
            let e: &(u32, CType) = &self.entries[i];
            r.insert(e.0, e.1.clone());
            i += 1;
        }
        assert(self.entries@.take(i as int) =~= self.entries@);
        r
    }
}

/// A struct or a union.
pub fn make_aggregate(
    is_struct: bool,
    name: Option<String>,
    fields: Vec<StructField>,
    packed: bool,
    aligned: Option<usize>,
) -> (r: CType)
    ensures
        r@ == aggregate(is_struct, opt_chars(name), fields_of(fields@), packed, aligned),
{
    if is_struct {
        CType::Struct { name, fields, packed, aligned }
    } else {
        CType::Union { name, fields, packed, aligned }
    }
}

fn word_eval(op: BinaryOp, l: u64, r: u64) -> (v: Option<u64>)
    ensures
        v == word_operation(op, l, r),
{
    match op {
        BinaryOp::Add => Some(l.wrapping_add(r)),
        BinaryOp::Sub => Some(l.wrapping_sub(r)),
        BinaryOp::Mul => Some(l.wrapping_mul(r)),
        BinaryOp::Div => if r != 0 {
            Some(l / r)
        } else {
            None
        },
        BinaryOp::Mod => if r != 0 {
            Some(l % r)
        } else {
            None
        },
        BinaryOp::ShiftLeft => Some(l.wrapping_shl(r as u32)),
        BinaryOp::ShiftRight => Some(l.wrapping_shr(r as u32)),
        BinaryOp::BitwiseAnd => Some(l & r),
        BinaryOp::BitwiseOr => Some(l | r),
        BinaryOp::BitwiseXor => Some(l ^ r),
        _ => None,
    }
}

fn suffix_ctype(s: IntegerSuffix) -> (r: CType)
    ensures
        r@ == suffix_type(s),
{
    match s {
        IntegerSuffix::Plain => CType::Int,
        IntegerSuffix::U => CType::UInt,
        IntegerSuffix::L => CType::Long,
        IntegerSuffix::UL => CType::ULong,
        IntegerSuffix::LL => CType::LongLong,
        IntegerSuffix::ULL => CType::ULongLong,
    }
}

fn element_of(t: CType) -> (r: CType)
    ensures
        r@ == element_or_int(t@),
{
    match t {
        CType::Pointer(inner, _) => *inner,
        CType::Array(inner, _) => *inner,
        _ => CType::Int,
    }
}

fn returned_by(t: CType) -> (r: CType)
    ensures
        r@ == return_or_int(t@),
{
    match t {
        CType::Function { return_type, .. } => *return_type,
        _ => CType::Int,
    }
}

fn prefix_of(op: UnaryOp, t: CType) -> (r: CType)
    ensures
        r@ == inferred_prefix(op, t@),
{
    match op {
        UnaryOp::Deref => element_of(t),
        UnaryOp::AddressOf => pointer_to(t),
        UnaryOp::LogicalNot => CType::Int,
        _ => t,
    }
}

impl<'a> SemanticAnalyzer<'a> {
    /// The declared type of an ordinary identifier.
    pub fn declared_type(&self, name: Symbol) -> (r: Option<CType>)
        ensures
            opt_ty(r) == self@.declared_type(name),
    {
        match self.scopes.lookup_ordinary(name) {
            Some(id) => match self.symbols.get(id) {
                Some(e) => Some(e.ty.clone()),
                None => None,
            },
            None => None,
        }
    }

    /// The type of a type name.
    pub fn type_of_cast(&self, tn: &TypeName) -> (r: CType)
        ensures
            r@ == cast_type(self@, *tn),
    {
        proof {
            reveal(cast_type);
        }
        self.resolve_type_name(tn)
    }

    /// The type of declaration specifiers.
    pub fn type_of_specifiers(&self, specs: &DeclarationSpecifiers) -> (r: CType)
        ensures
            r@ == base_type(self@, *specs),
    {
        proof {
            reveal(base_type);
        }
        self.resolve_type_from_specifiers(specs)
    }

    /// The type of a specifier-qualifier list.
    pub fn type_of_list(&self, l: &SpecifierQualifierList) -> (r: CType)
        ensures
            r@ == listed_type(self@, *l),
    {
        proof {
            reveal(listed_type);
        }
        self.resolve_type_from_spec_qualifier_list(l)
    }

    /// The members of a struct or union.
    pub fn list_fields(&self, ms: &Vec<StructMember>) -> (r: Vec<StructField>)
        ensures
            fields_of(r@) == field_list(self@, ms@),
    {
        proof {
            reveal(field_list);
        }
        self.resolve_members(ms)
    }

    /// The length that an array declarator states.
    pub fn length_of(&self, size: &Option<Box<Expression>>) -> (r: Option<usize>)
        ensures
            r == stated_length(self@, *size),
    {
        proof {
            reveal(stated_length);
        }
        self.array_size(size)
    }

    /// The type that a declarator gives to its name, on top of `base`.
    pub fn type_of_declarator(&self, base: CType, d: &Declarator) -> (r: CType)
        ensures
            r@ == full_type(self@, base@, *d),
    {
        proof {
            reveal(full_type);
        }
        self.apply_declarator_to_type(base, d)
    }

    /// The text of an optional name.
    pub fn opt_text(&self, sym: Option<Symbol>) -> (r: Option<String>)
        ensures
            opt_chars(r) == self@.opt_text(sym),
    {
        match sym {
            Some(s) => Some(own(self.interner.resolve(s))),
            None => None,
        }
    }

    /// The type of a list of type specifiers and qualifiers.
    pub fn resolve_type_from_type_specifiers(
        &self,
        specifiers: &Vec<TypeSpecifier>,
        qualifiers: &Vec<TypeQualifier>,
    ) -> (r: CType)
        ensures
            r@ == specified_type(self@, specifiers@, qualifiers@),
        decreases specifiers@, specifiers@.len() + 1,
    {
        let mut words: Keywords = keywords();
        let mut typedef_type: Option<CType> = None;
        let mut tag_type: Option<CType> = None;
        let mut enumeration: Option<CType> = None;
        let mut i: usize = 0;
        let ghost st = self@;
        #[verifier::loop_isolation(false)]
        while i < specifiers.len()
            invariant
                i <= specifiers@.len(),
                scan(
                    st,
                    specifiers@,
                    i as int,
                    Specs {
                        keywords: words,
                        typedef_ty: opt_ty(typedef_type),
                        tag_ty: opt_ty(tag_type),
                        enum_ty: opt_ty(enumeration),
                    },
                ) == scan(st, specifiers@, 0, no_specs()),
            decreases specifiers@.len() - i,
        {
            match &specifiers[i] {
                TypeSpecifier::Float128 => {
                    return CType::LongDouble;
                },
                TypeSpecifier::Float64 => {
                    return CType::Double;
                },
                TypeSpecifier::Float32 => {
                    return CType::Float;
                },
                TypeSpecifier::Float16 => {
                    return CType::Float;
                },
                TypeSpecifier::AutoType => {
                    return CType::Int;
                },
                TypeSpecifier::Atomic(tn) => {
                    let inner: CType = self.resolve_type_from_spec_qualifier_list(
                        &tn.specifier_qualifiers,
                    );
                    return CType::Atomic(Box::new(inner));
                },
                TypeSpecifier::Typeof(arg) => {
                    return match arg {
                        TypeofArg::TypeName(tn) => self.resolve_type_name(tn),
                        TypeofArg::Expression(e) => self.infer_typeof_expr_type(e),
                    };
                },
                TypeSpecifier::TypedefName(sym) => {
                    match self.declared_type(*sym) {
                        Some(t) => {
                            typedef_type = Some(t);
                        },
                        None => {},
                    }
                },
                TypeSpecifier::Struct(s) => {
                    tag_type = Some(self.resolve_struct_union_type(s, true));
                },
                TypeSpecifier::Union(s) => {
                    tag_type = Some(self.resolve_struct_union_type(s, false));
                },
                TypeSpecifier::Enum(e) => {
                    enumeration = Some(self.resolve_enum_type(e));
                },
                other => {
                    words = add_keyword(words, other);
                },
            }
            i += 1;
        }
        let base: CType = match typedef_type {
            Some(t) => t,
            None => match tag_type {
                Some(t) => t,
                None => match enumeration {
                    Some(t) => t,
                    None => combine(words),
                },
            },
        };
        qualify(base, build_type_qualifiers(qualifiers))
    }

    /// The type of declaration specifiers.
    pub fn resolve_type_from_specifiers(&self, specs: &DeclarationSpecifiers) -> (r: CType)
        ensures
            r@ == specified_type(self@, specs.type_specifiers@, specs.type_qualifiers@),
        decreases specs, 0int,
    {
        self.resolve_type_from_type_specifiers(&specs.type_specifiers, &specs.type_qualifiers)
    }

    /// The type of a specifier-qualifier list.
    pub fn resolve_type_from_spec_qualifier_list(&self, sql: &SpecifierQualifierList) -> (r: CType)
        ensures
            r@ == specified_type(self@, sql.type_specifiers@, sql.type_qualifiers@),
        decreases sql, 0int,
    {
        self.resolve_type_from_type_specifiers(&sql.type_specifiers, &sql.type_qualifiers)
    }

    /// The type that an enum specifier names.
    pub fn resolve_enum_type(&self, spec: &EnumSpecifier) -> (r: CType)
        ensures
            r@ == enum_type(self@, *spec),
    {
        match spec.tag {
            Some(tag) => {
                match self.scopes.lookup_tag(tag) {
                    Some(e) => {
                        return e.ty.clone();
                    },
                    None => {},
                }
            },
            None => {},
        }
        let underlying = CType::Int;
        assert(underlying@ == Ty::Int);
        CType::Enum { name: self.opt_text(spec.tag), underlying_type: Box::new(underlying) }
    }

    /// The type that a struct or union specifier names.
    pub fn resolve_struct_union_type(&self, spec: &StructOrUnionSpecifier, is_struct: bool) -> (r:
        CType)
        ensures
            r@ == aggregate_type(self@, *spec, is_struct),
        decreases spec, 0int,
    {
        match &spec.members {
            None => {
                let none: Vec<StructField> = Vec::new();
                assert(fields_of(none@) =~= Seq::<Field>::empty());
                make_aggregate(is_struct, self.opt_text(spec.tag), none, false, None)
            },
            Some(members) => {
                match spec.tag {
                    Some(tag) => {
                        match self.scopes.lookup_tag(tag) {
                            Some(e) => {
                                if e.is_complete {
                                    return e.ty.clone();
                                }
                            },
                            None => {},
                        }
                    },
                    None => {},
                }
                let fields: Vec<StructField> = self.resolve_members(members);
                make_aggregate(is_struct, self.opt_text(spec.tag), fields, false, None)
            },
        }
    }

    /// The members that member declarations declare.
    pub fn resolve_members(&self, members: &Vec<StructMember>) -> (r: Vec<StructField>)
        ensures
            fields_of(r@) == members_fields(self@, members@, 0),
        decreases members@, members@.len() + 1,
    {
        let mut fields: Vec<StructField> = Vec::new();
        let mut i: usize = 0;
        let ghost st = self@;
        assert(fields_of(fields@) =~= Seq::<Field>::empty());
        assert(fields_of(fields@) + members_fields(st, members@, 0) =~= members_fields(
            st,
            members@,
            0,
        ));
        #[verifier::loop_isolation(false)]
        while i < members.len()
            invariant
                i <= members@.len(),
                fields_of(fields@) + members_fields(st, members@, i as int) == members_fields(
                    st,
                    members@,
                    0,
                ),
            decreases members@.len() - i,
        {
            let ghost before = fields_of(fields@);
            self.append_member_fields(&members[i], &mut fields);
            assert(before + (member_fields(st, members@[i as int]) + members_fields(
                st,
                members@,
                i + 1,
            )) =~= (before + member_fields(st, members@[i as int])) + members_fields(
                st,
                members@,
                i + 1,
            ));
            i += 1;
        }
        assert(fields_of(fields@) + members_fields(st, members@, i as int) =~= fields_of(fields@));
        fields
    }

    /// Appends the members that a member declaration declares.
    pub fn append_member_fields(&self, member: &StructMember, fields: &mut Vec<StructField>)
        ensures
            fields_of(final(fields)@) == fields_of(old(fields)@) + member_fields(self@, *member),
        decreases member, 0int,
    {
        let ghost st = self@;
        let ghost before = fields_of(fields@);
        let base: CType = self.resolve_type_from_spec_qualifier_list(&member.specifiers);
        let ds: &Vec<StructDeclarator> = &member.declarators;
        if ds.len() == 0 {
            let ghost b = base@;
            fields.push(StructField { name: None, ty: base, bit_width: None });
            assert(fields_of(fields@) =~= before + seq![
                Field { name: None, ty: b, bit_width: None },
            ]);
            return;
        }
        let mut i: usize = 0;
        #[verifier::loop_isolation(false)]
        while i < ds.len()
            invariant
                i <= ds@.len(),
                fields_of(fields@) + declared_fields(st, base@, ds@, i as int) == before
                    + declared_fields(st, base@, ds@, 0),
            decreases ds@.len() - i,
        {
            let d: &StructDeclarator = &ds[i];
            let ghost so_far = fields_of(fields@);
            let ty: CType = match &d.declarator {
                Some(x) => self.apply_declarator_to_type(base.clone(), x),
                None => base.clone(),
            };
            let name: Option<String> = match &d.declarator {
                Some(x) => Some(own(self.interner.resolve(extract_declarator_name(x)))),
                None => None,
            };
            let bit_width: Option<u32> = match &d.bit_width {
                Some(e) => Some(eval_bitfield_width(e)),
                None => None,
            };
            let field = StructField { name, ty, bit_width };
            fields.push(field);
            let ghost f = declared_field(st, base@, ds@[i as int]);
            assert(fields_of(fields@) =~= so_far.push(f));
            assert(so_far + (seq![f] + declared_fields(st, base@, ds@, i + 1)) =~= so_far.push(f)
                + declared_fields(st, base@, ds@, i + 1));
            i += 1;
        }
        assert(fields_of(fields@) + declared_fields(st, base@, ds@, i as int) =~= fields_of(
            fields@,
        ));
    }

    /// The type that a declarator gives to its name, on top of `base`.
    pub fn apply_declarator_to_type(&self, base: CType, declarator: &Declarator) -> (r: CType)
        ensures
            r@ == declarator_type(self@, base@, *declarator),
        decreases declarator, 1int,
    {
        let t: CType = apply_pointers(base, &declarator.pointer);
        self.apply_direct_declarator_to_type(t, &declarator.direct)
    }

    /// The type that a direct declarator gives to its name, on top of `base`.
    pub fn apply_direct_declarator_to_type(&self, base: CType, dd: &DirectDeclarator) -> (r: CType)
        ensures
            r@ == direct_type(self@, base@, *dd),
        decreases dd, 0int,
    {
        match dd {
            DirectDeclarator::Identifier(_, _) => base,
            DirectDeclarator::Parenthesized(inner) => self.apply_declarator_to_type(base, inner),
            DirectDeclarator::Array { base: inner, size, .. } => {
                let t: CType = CType::Array(Box::new(base), self.array_size(size));
                self.apply_direct_declarator_to_type(t, inner)
            },
            DirectDeclarator::Function { base: inner, params, is_variadic, .. } => {
                let types: Vec<CType> = self.parameters(params);
                match &**inner {
                    DirectDeclarator::Parenthesized(x) => {
                        let f = CType::Function {
                            return_type: Box::new(base),
                            params: types,
                            variadic: *is_variadic,
                        };
                        self.apply_declarator_to_type(f, x)
                    },
                    _ => {
                        let returned: CType = self.apply_direct_declarator_to_type(base, inner);
                        CType::Function {
                            return_type: Box::new(returned),
                            params: types,
                            variadic: *is_variadic,
                        }
                    },
                }
            },
        }
    }

    /// The length of an array, if it is given and can be evaluated.
    fn array_size(&self, size: &Option<Box<Expression>>) -> (r: Option<usize>)
        ensures
            r == array_length(self@, *size),
        decreases size, 0int,
    {
        match size {
            None => None,
            Some(e) => match &**e {
                Expression::IntegerLiteral { value, .. } => Some(*value as usize),
                _ => match self.try_eval_attr_const_expr(e) {
                    Some(v) => Some(v as usize),
                    None => None,
                },
            },
        }
    }

    /// The types of parameters.
    pub fn parameters(&self, params: &Vec<ParameterDeclaration>) -> (r: Vec<CType>)
        ensures
            types_of(r@) == parameter_types(self@, params@, 0),
        decreases params@, params@.len() + 1,
    {
        let mut types: Vec<CType> = Vec::new();
        let mut i: usize = 0;
        let ghost st = self@;
        assert(types_of(types@) + parameter_types(st, params@, 0) =~= parameter_types(
            st,
            params@,
            0,
        ));
        #[verifier::loop_isolation(false)]
        while i < params.len()
            invariant
                i <= params@.len(),
                types_of(types@) + parameter_types(st, params@, i as int)
                    == parameter_types(st, params@, 0),
            decreases params@.len() - i,
        {
            let ghost so_far = types_of(types@);
            let t: CType = self.parameter(&params[i]);
            let ghost p = t@;
            types.push(t);
            assert(types_of(types@) =~= so_far.push(p));
            assert(so_far + (seq![p] + parameter_types(st, params@, i + 1))
                =~= so_far.push(p) + parameter_types(st, params@, i + 1));
            i += 1;
        }
        assert(types_of(types@) + parameter_types(st, params@, i as int)
            =~= types_of(types@));
        types
    }

    fn parameter(&self, p: &ParameterDeclaration) -> (r: CType)
        ensures
            r@ == parameter_type(self@, *p),
        decreases p, 0int,
    {
        let base: CType = self.resolve_type_from_specifiers(&p.specifiers);
        match &p.declarator {
            Some(d) => self.apply_declarator_to_type(base, d),
            None => match &p.abstract_declarator {
                Some(a) => self.apply_abstract_declarator(base, a),
                None => base,
            },
        }
    }

    /// The type of a type name.
    pub fn resolve_type_name(&self, tn: &TypeName) -> (r: CType)
        ensures
            r@ == named_type(self@, *tn),
        decreases tn, 0int,
    {
        let base: CType = self.resolve_type_from_spec_qualifier_list(&tn.specifier_qualifiers);
        match &tn.abstract_declarator {
            Some(a) => self.apply_abstract_declarator(base, a),
            None => base,
        }
    }

    fn apply_abstract_declarator(&self, base: CType, a: &AbstractDeclarator) -> (r: CType)
        ensures
            r@ == abstract_type(self@, base@, *a),
        decreases a, 1int,
    {
        let t: CType = apply_pointers(base, &a.pointer);
        match &a.direct {
            Some(d) => self.apply_direct_abstract_declarator_to_type(t, d),
            None => t,
        }
    }

    /// The type that a direct abstract declarator describes, on top of `base`.
    pub fn apply_direct_abstract_declarator_to_type(
        &self,
        base: CType,
        dad: &DirectAbstractDeclarator,
    ) -> (r: CType)
        ensures
            r@ == direct_abstract_type(self@, base@, *dad),
        decreases dad, 0int,
    {
        match dad {
            DirectAbstractDeclarator::Parenthesized(inner) => self.apply_abstract_declarator(
                base,
                inner,
            ),
            DirectAbstractDeclarator::Array { base: inner, size } => {
                let t: CType = CType::Array(Box::new(base), self.array_size(size));
                match inner {
                    Some(x) => self.apply_direct_abstract_declarator_to_type(t, x),
                    None => t,
                }
            },
            DirectAbstractDeclarator::Function { base: inner, params, is_variadic } => {
                let types: Vec<CType> = self.parameters(params);
                let t = CType::Function {
                    return_type: Box::new(base),
                    params: types,
                    variadic: *is_variadic,
                };
                match inner {
                    Some(x) => self.apply_direct_abstract_declarator_to_type(t, x),
                    None => t,
                }
            },
        }
    }

    /// The type that `typeof` infers for an expression.
    pub fn infer_typeof_expr_type(&self, expr: &Expression) -> (r: CType)
        ensures
            r@ == inferred(self@, *expr),
        decreases expr, 0int,
    {
        match expr {
            Expression::Identifier { name, .. } => match self.declared_type(*name) {
                Some(t) => t,
                None => CType::Int,
            },
            Expression::IntegerLiteral { suffix, .. } => suffix_ctype(*suffix),
            Expression::FloatLiteral { .. } => CType::Double,
            Expression::CharLiteral { .. } => CType::Int,
            Expression::StringLiteral { .. } => pointer_to(CType::Char),
            Expression::UnaryOp { op, operand, .. } => prefix_of(
                *op,
                self.infer_typeof_expr_type(operand),
            ),
            Expression::MemberAccess { object, member, .. } => {
                let t: CType = self.infer_typeof_expr_type(object);
                self.lookup_member_type(&t, *member)
            },
            Expression::PointerMemberAccess { object, member, .. } => {
                let t: CType = self.infer_typeof_expr_type(object);
                match resolve_and_strip(&t) {
                    CType::Pointer(inner, _) => self.lookup_member_type(inner, *member),
                    _ => CType::Int,
                }
            },
            Expression::ArraySubscript { base, .. } => element_of(
                self.infer_typeof_expr_type(base),
            ),
            Expression::Binary { left, .. } => self.infer_typeof_expr_type(left),
            Expression::Conditional { then_expr, else_expr, .. } => match then_expr {
                Some(t) => self.infer_typeof_expr_type(t),
                None => self.infer_typeof_expr_type(else_expr),
            },
            Expression::Cast { ty_name, .. } => self.resolve_type_name(ty_name),
            Expression::Parenthesized { inner, .. } => self.infer_typeof_expr_type(inner),
            Expression::PostIncrement { operand, .. } => self.infer_typeof_expr_type(operand),
            Expression::PostDecrement { operand, .. } => self.infer_typeof_expr_type(operand),
            Expression::PreIncrement { operand, .. } => self.infer_typeof_expr_type(operand),
            Expression::PreDecrement { operand, .. } => self.infer_typeof_expr_type(operand),
            Expression::Comma { exprs, .. } => {
                let n: usize = exprs.len();
                if n == 0 {
                    CType::Void
                } else {
                    self.infer_typeof_expr_type(&exprs[n - 1])
                }
            },
            Expression::SizeofExpr { .. } => CType::ULong,
            Expression::SizeofType { .. } => CType::ULong,
            Expression::CompoundLiteral { ty_name, .. } =>
            self.resolve_type_from_spec_qualifier_list(&ty_name.specifier_qualifiers),
            Expression::FunctionCall { callee, .. } => returned_by(
                self.infer_typeof_expr_type(callee),
            ),
            Expression::Generic { controlling, associations, .. } => {
                let t: CType = self.infer_typeof_expr_type(controlling);
                self.infer_association(resolve_and_strip(&t), associations)
            },
            Expression::StatementExpression { compound, .. } => {
                let none: Locals = Locals::new();
                self.infer_block(compound, &none)
            },
            _ => CType::Int,
        }
    }

    fn infer_association(&self, t: &CType, associations: &Vec<GenericAssociation>) -> (r: CType)
        ensures
            r@ == inferred_association(self@, t@, associations@, 0, None),
        decreases associations@, associations@.len() + 1,
    {
        let mut fallback: Option<CType> = None;
        let mut i: usize = 0;
        let ghost st = self@;
        #[verifier::loop_isolation(false)]
        while i < associations.len()
            invariant
                i <= associations@.len(),
                inferred_association(st, t@, associations@, i as int, opt_ty(fallback))
                    == inferred_association(st, t@, associations@, 0, None),
            decreases associations@.len() - i,
        {
            let a: &GenericAssociation = &associations[i];
            match &a.ty_name {
                Some(tn) => {
                    let candidate: CType = self.resolve_type_name(tn);
                    if types_match(t, resolve_and_strip(&candidate)) {
                        return self.infer_typeof_expr_type(&a.expression);
                    }
                },
                None => {
                    fallback = Some(self.infer_typeof_expr_type(&a.expression));
                },
            }
            i += 1;
        }
        match fallback {
            Some(d) => d,
            None => CType::Int,
        }
    }

    fn infer_block(&self, c: &CompoundStatement, outer: &Locals) -> (r: CType)
        ensures
            r@ == inferred_block(self@, *c, outer@),
        decreases c, 0int,
    {
        let n: usize = c.items.len();
        if n == 0 {
            return CType::Int;
        }
        match &c.items[n - 1] {
            BlockItem::Statement(Statement::Expression(Some(x))) => {
                let locals: Locals = self.collect_locals(&c.items, outer);
                self.infer_typeof_with_locals(x, &locals)
            },
            _ => CType::Int,
        }
    }

    fn collect_locals(&self, items: &Vec<BlockItem>, outer: &Locals) -> (r: Locals)
        ensures
            r@ == block_locals(self@, items@, 0, outer@),
        decreases items@, items@.len() + 1,
    {
        let mut locals: Locals = outer.copy();
        let mut i: usize = 0;
        let ghost st = self@;
        #[verifier::loop_isolation(false)]
        while i < items.len()
            invariant
                i <= items@.len(),
                block_locals(st, items@, i as int, locals@) == block_locals(st, items@, 0, outer@),
            decreases items@.len() - i,
        {
            match &items[i] {
                BlockItem::Declaration(d) => {
                    let base: CType = self.resolve_type_from_specifiers(&d.specifiers);
                    self.declare_locals(&base, &d.declarators, &mut locals);
                },
                BlockItem::Statement(_) => {},
            }
            i += 1;
        }
        locals
    }

    fn declare_locals(&self, base: &CType, ds: &Vec<InitDeclarator>, locals: &mut Locals)
        ensures
            final(locals)@ == declared_locals(self@, base@, ds@, 0, old(locals)@),
        decreases ds@, ds@.len() + 1,
    {
        let mut i: usize = 0;
        let ghost st = self@;
        let ghost m = locals@;
        #[verifier::loop_isolation(false)]
        while i < ds.len()
            invariant
                i <= ds@.len(),
                declared_locals(st, base@, ds@, i as int, locals@) == declared_locals(
                    st,
                    base@,
                    ds@,
                    0,
                    m,
                ),
            decreases ds@.len() - i,
        {
            let d: &InitDeclarator = &ds[i];
            let t: CType = self.apply_declarator_to_type(base.clone(), &d.declarator);
            locals.insert(extract_declarator_name(&d.declarator).0, t);
            i += 1;
        }
    }

    /// The type inferred for an expression inside a statement expression.
    pub fn infer_typeof_with_locals(&self, expr: &Expression, locals: &Locals) -> (r: CType)
        ensures
            r@ == inferred_inside(self@, *expr, locals@),
        decreases expr, 1int,
    {
        match expr {
            Expression::Identifier { name, .. } => match locals.get(name.0) {
                Some(t) => t,
                None => match self.declared_type(*name) {
                    Some(t) => t,
                    None => CType::Int,
                },
            },
            Expression::Conditional { then_expr, else_expr, .. } => match then_expr {
                Some(t) => self.infer_typeof_with_locals(t, locals),
                None => self.infer_typeof_with_locals(else_expr, locals),
            },
            Expression::Parenthesized { inner, .. } => self.infer_typeof_with_locals(inner, locals),
            Expression::Comma { exprs, .. } => {
                let n: usize = exprs.len();
                if n == 0 {
                    CType::Void
                } else {
                    self.infer_typeof_with_locals(&exprs[n - 1], locals)
                }
            },
            Expression::Binary { left, .. } => self.infer_typeof_with_locals(left, locals),
            Expression::UnaryOp { op, operand, .. } => prefix_of(
                *op,
                self.infer_typeof_with_locals(operand, locals),
            ),
            Expression::Cast { ty_name, .. } => self.resolve_type_name(ty_name),
            Expression::PostIncrement { operand, .. } => self.infer_typeof_with_locals(
                operand,
                locals,
            ),
            Expression::PostDecrement { operand, .. } => self.infer_typeof_with_locals(
                operand,
                locals,
            ),
            Expression::PreIncrement { operand, .. } => self.infer_typeof_with_locals(
                operand,
                locals,
            ),
            Expression::PreDecrement { operand, .. } => self.infer_typeof_with_locals(
                operand,
                locals,
            ),
            Expression::StatementExpression { compound, .. } => self.infer_block(compound, locals),
            _ => self.infer_typeof_expr_type(expr),
        }
    }

    /// The type of the operand of `sizeof`, where it can be told at a glance.
    pub fn infer_expression_type_simple(&self, expr: &Expression) -> (r: Option<CType>)
        ensures
            opt_ty(r) == simple_type(self@, *expr),
    {
        match expr {
            Expression::IntegerLiteral { .. } => Some(CType::Int),
            Expression::Identifier { name, .. } => self.declared_type(*name),
            Expression::StringLiteral { .. } => {
                let unit = CType::Char;
                assert(unit@ == Ty::Char);
                Some(CType::Pointer(Box::new(unit), TypeQualifiers::only_const()))
            },
            _ => None,
        }
    }

    /// Value of a constant expression in an attribute or an array length.
    pub fn try_eval_attr_const_expr(&self, expr: &Expression) -> (r: Option<u64>)
        ensures
            r == const_value(self@, *expr),
        decreases expr, 0int,
    {
        match expr {
            Expression::IntegerLiteral { value, .. } => Some(*value as u64),
            Expression::Parenthesized { inner, .. } => self.try_eval_attr_const_expr(inner),
            Expression::SizeofType { ty_name, .. } => {
                let t: CType = self.resolve_type_name(ty_name);
                Some(sizeof_ctype_resolved(&t, self.target, &self.tag_types_by_name) as u64)
            },
            Expression::SizeofExpr { operand, .. } => {
                match self.infer_expression_type_simple(operand) {
                    Some(t) => Some(
                        sizeof_ctype_resolved(&t, self.target, &self.tag_types_by_name) as u64,
                    ),
                    None => None,
                }
            },
            Expression::AlignofType { ty_name, .. } => {
                let t: CType = self.resolve_type_name(ty_name);
                Some(alignof_ctype_resolved(&t, self.target, &self.tag_types_by_name) as u64)
            },
            Expression::Binary { op, left, right, .. } => {
                let l: Option<u64> = self.try_eval_attr_const_expr(left);
                let r: Option<u64> = self.try_eval_attr_const_expr(right);
                match (l, r) {
                    (Some(x), Some(y)) => word_eval(*op, x, y),
                    _ => None,
                }
            },
            Expression::Cast { operand, .. } => self.try_eval_attr_const_expr(operand),
            Expression::UnaryOp { op, operand, .. } => {
                if *op == UnaryOp::AddressOf {
                    let none: Vec<OffsetofStep> = Vec::new();
                    assert(steps_of(none@) =~= Seq::<Step>::empty());
                    match self.try_eval_offsetof_pattern(operand, none) {
                        Some(o) => {
                            return Some(o);
                        },
                        None => {},
                    }
                }
                match self.try_eval_attr_const_expr(operand) {
                    None => None,
                    Some(v) => match op {
                        UnaryOp::Negate => Some(0u64.wrapping_sub(v)),
                        UnaryOp::BitwiseNot => Some(!v),
                        UnaryOp::Plus => Some(v),
                        _ => None,
                    },
                }
            },
            Expression::Conditional { condition, then_expr, else_expr, .. } => {
                match self.try_eval_attr_const_expr(condition) {
                    None => None,
                    Some(c) => if c != 0 {
                        match then_expr {
                            Some(t) => self.try_eval_attr_const_expr(t),
                            None => None,
                        }
                    } else {
                        self.try_eval_attr_const_expr(else_expr)
                    },
                }
            },
            Expression::BuiltinCall { builtin, args, .. } => {
                if *builtin == BuiltinKind::Offsetof && args.len() >= 2 {
                    match &args[0] {
                        Expression::SizeofType { ty_name, .. } => {
                            let t: CType = self.resolve_type_name(ty_name);
                            let chain: Vec<OffsetofStep> = self.extract_offsetof_chain(&args[1]);
                            if chain.len() == 0 {
                                None
                            } else {
                                field_offset(&t, &chain, self.target, &self.tag_types_by_name)
                            }
                        },
                        _ => None,
                    }
                } else {
                    None
                }
            },
            _ => None,
        }
    }

    /// The steps of the member designator of an `offsetof`.
    pub fn extract_offsetof_chain(&self, expr: &Expression) -> (r: Vec<OffsetofStep>)
        ensures
            steps_of(r@) == designator(self@, *expr),
        decreases expr, 0int,
    {
        match expr {
            Expression::Identifier { name, .. } => {
                let mut chain: Vec<OffsetofStep> = Vec::new();
                chain.push(OffsetofStep::Field(own(self.interner.resolve(*name))));
                assert(steps_of(chain@) =~= designator(self@, *expr));
                chain
            },
            Expression::MemberAccess { object, member, .. } => {
                let mut chain: Vec<OffsetofStep> = self.extract_offsetof_chain(object);
                chain.push(OffsetofStep::Field(own(self.interner.resolve(*member))));
                assert(steps_of(chain@) =~= designator(self@, *expr));
                chain
            },
            Expression::ArraySubscript { base, index, .. } => {
                let mut chain: Vec<OffsetofStep> = self.extract_offsetof_chain(base);
                match self.try_eval_attr_const_expr(index) {
                    Some(i) => {
                        chain.push(OffsetofStep::Index(i as usize));
                        assert(steps_of(chain@) =~= designator(self@, *expr));
                    },
                    None => {},
                }
                chain
            },
            _ => {
                let chain: Vec<OffsetofStep> = Vec::new();
                assert(steps_of(chain@) =~= Seq::<Step>::empty());
                chain
            },
        }
    }

    /// The offset that `&((T *)0)->m` stands for; `chain` holds the steps that
    /// were peeled off outside `expr`.
    pub fn try_eval_offsetof_pattern(&self, expr: &Expression, chain: Vec<OffsetofStep>) -> (r:
        Option<u64>)
        ensures
            r == null_offset(self@, *expr, steps_of(chain@)),
        decreases expr, 0int,
    {
        let mut chain: Vec<OffsetofStep> = chain;
        let ghost steps = steps_of(chain@);
        match expr {
            Expression::PointerMemberAccess { object, member, .. } => {
                let step = OffsetofStep::Field(own(self.interner.resolve(*member)));
                let ghost s = step_of(step);
                chain.insert(0, step);
                assert(steps_of(chain@) =~= seq![s] + steps);
                self.try_eval_offsetof_pattern(object, chain)
            },
            Expression::MemberAccess { object, member, .. } => {
                let step = OffsetofStep::Field(own(self.interner.resolve(*member)));
                let ghost s = step_of(step);
                chain.insert(0, step);
                assert(steps_of(chain@) =~= seq![s] + steps);
                self.try_eval_offsetof_pattern(object, chain)
            },
            Expression::ArraySubscript { base, index, .. } => {
                match self.try_eval_attr_const_expr(index) {
                    Some(i) => {
                        let step = OffsetofStep::Index(i as usize);
                        let ghost s = step_of(step);
                        chain.insert(0, step);
                        assert(steps_of(chain@) =~= seq![s] + steps);
                        self.try_eval_offsetof_pattern(base, chain)
                    },
                    None => None,
                }
            },
            Expression::Parenthesized { inner, .. } => self.try_eval_offsetof_pattern(
                inner,
                chain,
            ),
            Expression::UnaryOp { op, operand, .. } => if *op == UnaryOp::Deref {
                self.try_eval_offsetof_pattern(operand, chain)
            } else {
                None
            },
            Expression::Cast { ty_name, operand, .. } => {
                let base: Option<u64> = self.try_eval_attr_const_expr(operand);
                match base {
                    Some(0) => {
                        let t: CType = self.resolve_type_name(ty_name);
                        match &t {
                            CType::Pointer(inner, _) => field_offset(
                                inner,
                                &chain,
                                self.target,
                                &self.tag_types_by_name,
                            ),
                            _ => None,
                        }
                    },
                    _ => None,
                }
            },
            _ => None,
        }
    }
}

} // verus!
