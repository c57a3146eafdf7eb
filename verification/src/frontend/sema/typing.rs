//! Classes of types, conversions between operands, and members.

use crate::common::diagnostics::Span;
use crate::common::string_interner::Symbol;
use crate::common::text::{concat3, opt_chars, str_eq};
use crate::common::types::{
    copy_fields, deep_stripped, fields_of, opt_ty, pointer_to, pointer_ty, resolve_and_strip,
    res_ty, strip, stripped, types_equal, CType, Field, StructField, Ty,
};
use crate::frontend::parser::ast::{BinaryOp, UnaryOp};
use crate::frontend::sema::analyzer::SemanticAnalyzer;
use crate::frontend::sema::scope::tag_by_text;
use crate::frontend::sema::state::State;
use vstd::prelude::*;

verus! {

broadcast use crate::common::types::group_type_models;

/// Whether a type is an integer type.
pub open spec fn is_integer(t: Ty) -> bool {
    match stripped(t) {
        Ty::Bool | Ty::Char | Ty::SChar | Ty::UChar | Ty::Short | Ty::UShort | Ty::Int | Ty::UInt
        | Ty::Long | Ty::ULong | Ty::LongLong | Ty::ULongLong | Ty::Int128 | Ty::UInt128
        | Ty::Enum { .. } => true,
        _ => false,
    }
}

/// Whether a type is a floating type.
pub open spec fn is_float(t: Ty) -> bool {
    match stripped(t) {
        Ty::Float | Ty::Double | Ty::LongDouble | Ty::Complex(_) => true,
        _ => false,
    }
}

/// Whether a type is a pointer type.
pub open spec fn is_pointer(t: Ty) -> bool {
    stripped(t) is Pointer
}

/// Whether a type can control a branch: arithmetic, or a pointer, or what decays
/// to one.
pub open spec fn is_scalar(t: Ty) -> bool {
    is_integer(t) || is_float(t) || is_pointer(t) || stripped(t) is Function || stripped(
        t,
    ) is Array
}

/// The conversion rank of an integer type.
pub open spec fn rank(t: Ty) -> u32 {
    match t {
        Ty::Bool => 0,
        Ty::Char | Ty::SChar | Ty::UChar => 1,
        Ty::Short | Ty::UShort => 2,
        Ty::Int | Ty::UInt => 3,
        Ty::Long | Ty::ULong => 4,
        Ty::LongLong | Ty::ULongLong => 5,
        Ty::Int128 | Ty::UInt128 => 6,
        _ => 3,
    }
}

/// The type in which two operands meet.
pub open spec fn common(a: Ty, b: Ty) -> Ty {
    let x = stripped(a);
    let y = stripped(b);
    if x is Pointer {
        x
    } else if y is Pointer {
        y
    } else if x is LongDouble || y is LongDouble {
        Ty::LongDouble
    } else if x is Double || y is Double {
        Ty::Double
    } else if x is Float || y is Float {
        Ty::Float
    } else if rank(x) >= rank(y) {
        x
    } else {
        y
    }
}

/// What a pointer points to or an array consists of.
pub open spec fn pointee(t: Ty) -> Option<Ty> {
    match stripped(t) {
        Ty::Pointer(inner, _) => Some(*inner),
        Ty::Array(inner, _) => Some(*inner),
        _ => None,
    }
}

/// Whether a member access or a subscript on a value of this type is let pass:
/// the types that inference falls back to.
pub open spec fn is_fallback(t: Ty) -> bool {
    match stripped(t) {
        Ty::Int | Ty::UInt | Ty::Long | Ty::ULong | Ty::Char | Ty::Void => true,
        _ => false,
    }
}

/// Whether two types select the same association of a `_Generic`: below
/// qualifiers they are the same, or have the same tag, or point to such types.
pub open spec fn generic_match(a: Ty, b: Ty) -> bool
    decreases a, b,
{
    match a {
        Ty::Qualified(inner, _) => generic_match(*inner, b),
        Ty::Typedef { underlying, .. } => generic_match(*underlying, b),
        _ => match b {
            Ty::Qualified(inner, _) => generic_match(a, *inner),
            Ty::Typedef { underlying, .. } => generic_match(a, *underlying),
            _ => a == b || match (a, b) {
                (Ty::Struct { name: Some(x), .. }, Ty::Struct { name: Some(y), .. }) => x == y,
                (Ty::Union { name: Some(x), .. }, Ty::Union { name: Some(y), .. }) => x == y,
                (Ty::Pointer(x, _), Ty::Pointer(y, _)) => generic_match(*x, *y),
                _ => false,
            },
        },
    }
}

/// Matching for `_Generic` does not look at qualifiers or typedef names.
pub proof fn lemma_generic_match_ignores_qualifiers(a: Ty, b: Ty)
    ensures
        generic_match(a, b) == generic_match(stripped(a), stripped(b)),
    decreases a, b,
{
    match a {
        Ty::Qualified(inner, _) => lemma_generic_match_ignores_qualifiers(*inner, b),
        Ty::Typedef { underlying, .. } => lemma_generic_match_ignores_qualifiers(*underlying, b),
        _ => match b {
            Ty::Qualified(inner, _) => lemma_generic_match_ignores_qualifiers(a, *inner),
            Ty::Typedef { underlying, .. } => lemma_generic_match_ignores_qualifiers(
                a,
                *underlying,
            ),
            _ => {},
        },
    }
}

/// Every type matches itself.
pub proof fn lemma_generic_match_reflexive(a: Ty)
    ensures
        generic_match(a, a),
    decreases a,
{
    lemma_generic_match_ignores_qualifiers(a, a);
    crate::common::types::lemma_stripping_is_idempotent(a);
}

/// Matching does not depend on the order of the two types.
pub proof fn lemma_generic_match_symmetric(a: Ty, b: Ty)
    ensures
        generic_match(a, b) == generic_match(b, a),
    decreases a, b,
{
    lemma_generic_match_ignores_qualifiers(b, a);
    match a {
        Ty::Qualified(inner, _) => {
            lemma_generic_match_symmetric(*inner, b);
            lemma_generic_match_ignores_qualifiers(b, *inner);
        },
        Ty::Typedef { underlying, .. } => {
            lemma_generic_match_symmetric(*underlying, b);
            lemma_generic_match_ignores_qualifiers(b, *underlying);
        },
        _ => match b {
            Ty::Qualified(inner, _) => lemma_generic_match_symmetric(a, *inner),
            Ty::Typedef { underlying, .. } => lemma_generic_match_symmetric(a, *underlying),
            _ => match (a, b) {
                (Ty::Pointer(x, _), Ty::Pointer(y, _)) => lemma_generic_match_symmetric(*x, *y),
                _ => {},
            },
        },
    }
}

/// The common type of two integer operands is one of them below qualifiers, and
/// none of the two has a higher rank.
pub proof fn lemma_common_type_has_highest_rank(a: Ty, b: Ty)
    requires
        is_integer(a),
        is_integer(b),
    ensures
        common(a, b) == stripped(a) || common(a, b) == stripped(b),
        rank(common(a, b)) >= rank(stripped(a)),
        rank(common(a, b)) >= rank(stripped(b)),
{
}

/// The type of the member `name` among `fields` from the `i`-th on, members of
/// unnamed structs and unions included.
pub open spec fn find_member(fields: Seq<Field>, i: int, name: Seq<char>) -> Option<Ty>
    decreases fields, fields.len() - i,
{
    if i < 0 || i >= fields.len() {
        None
    } else {
        match fields[i].name {
            Some(n) => if n == name {
                Some(fields[i].ty)
            } else {
                find_member(fields, i + 1, name)
            },
            None => match find_in_unnamed(fields[i].ty, name, true, true) {
                Some(t) => Some(t),
                None => find_member(fields, i + 1, name),
            },
        }
    }
}

/// The type of the member `name` of an unnamed struct or union, which may be
/// qualified and may stand behind one typedef name.
pub open spec fn find_in_unnamed(
    t: Ty,
    name: Seq<char>,
    behind_typedef: bool,
    behind_qualifier: bool,
) -> Option<Ty>
    decreases t, 0int,
{
    match t {
        Ty::Struct { fields, .. } => find_member(fields, 0, name),
        Ty::Union { fields, .. } => find_member(fields, 0, name),
        Ty::Qualified(inner, _) => if behind_qualifier {
            find_in_unnamed(*inner, name, false, false)
        } else {
            None
        },
        Ty::Typedef { underlying, .. } => if behind_typedef {
            find_in_unnamed(*underlying, name, false, true)
        } else {
            None
        },
        _ => None,
    }
}

/// The members of a struct or union.
pub open spec fn members_of(t: Ty) -> Option<Seq<Field>> {
    match t {
        Ty::Struct { fields, .. } => Some(fields),
        Ty::Union { fields, .. } => Some(fields),
        _ => None,
    }
}

/// The name of a struct or union.
pub open spec fn tag_name(t: Ty) -> Option<Seq<char>> {
    match t {
        Ty::Struct { name, .. } => name,
        Ty::Union { name, .. } => name,
        _ => None,
    }
}

/// The members of a struct or union that has none of its own but a tag whose
/// definition is complete; `same_kind` asks for a definition of the same kind.
pub open spec fn completed_members(st: State, t: Ty, same_kind: bool) -> Seq<Field> {
    let own = members_of(t)->0;
    if own.len() > 0 {
        own
    } else {
        match tag_name(t) {
            None => own,
            Some(n) => match tag_by_text(st.scopes, st.names, n) {
                None => own,
                Some(e) => if e.is_complete && (match (t, e.ty) {
                    (Ty::Struct { .. }, Ty::Struct { .. }) => true,
                    (Ty::Union { .. }, Ty::Union { .. }) => true,
                    (_, Ty::Struct { .. }) => !same_kind,
                    (_, Ty::Union { .. }) => !same_kind,
                    _ => false,
                }) {
                    members_of(e.ty)->0
                } else {
                    own
                },
            },
        }
    }
}

/// The type that inference gives a member; `int` where it finds none.
pub open spec fn inferred_member(st: State, t: Ty, member: Symbol) -> Ty {
    let u = deep_stripped(t);
    match members_of(u) {
        None => Ty::Int,
        Some(_) => match find_member(completed_members(st, u, false), 0, st.text(member)) {
            Some(m) => m,
            None => Ty::Int,
        },
    }
}

/// The types whose member accesses are let pass.
pub open spec fn is_member_fallback(t: Ty) -> bool {
    match stripped(t) {
        Ty::Int | Ty::UInt | Ty::Long | Ty::ULong | Ty::LongLong | Ty::ULongLong | Ty::Int128
        | Ty::UInt128 | Ty::Char | Ty::UChar | Ty::SChar | Ty::Void => true,
        _ => false,
    }
}

/// A member access: the type of the member, or a report that there is none.
#[verifier::opaque]
pub open spec fn member_access(
    st: State,
    t: Ty,
    member: Symbol,
    span: Span,
) -> (State, Option<Ty>) {
    let u = stripped(t);
    match members_of(u) {
        None => if is_member_fallback(t) {
            (st, Some(Ty::Int))
        } else {
            (st.error(span, "member reference base type is not a struct or union"@), None)
        },
        Some(_) => match find_member(completed_members(st, u, true), 0, st.text(member)) {
            Some(m) => (st, Some(m)),
            None => (
                st.error(span, "no member named '"@ + st.text(member) + "' in struct/union"@),
                None,
            ),
        },
    }
}

/// The result of calling a value of the given type.
#[verifier::opaque]
pub open spec fn call_result(st: State, callee: Ty, span: Span) -> (State, Option<Ty>) {
    let f = match deep_stripped(callee) {
        Ty::Pointer(inner, _) => deep_stripped(*inner),
        other => other,
    };
    match f {
        Ty::Function { return_type, .. } => (st, Some(*return_type)),
        _ => (st.error(span, "called object is not a function or function pointer"@), None),
    }
}

/// The type of a prefix operation.
#[verifier::opaque]
pub open spec fn unary_result(st: State, op: UnaryOp, t: Ty, span: Span) -> (State, Option<Ty>) {
    match op {
        UnaryOp::AddressOf => (st, Some(pointer_ty(t))),
        UnaryOp::Deref => match pointee(t) {
            Some(inner) => (st, Some(inner)),
            None => (st.error(span, "indirection requires pointer operand"@), None),
        },
        UnaryOp::Plus | UnaryOp::Negate | UnaryOp::BitwiseNot => (st, Some(t)),
        UnaryOp::LogicalNot => (st, Some(Ty::Int)),
        UnaryOp::RealPart | UnaryOp::ImagPart => match t {
            Ty::Complex(inner) => (st, Some(*inner)),
            _ => (st, Some(t)),
        },
    }
}

/// The type of a binary operation.
pub open spec fn binary_result(op: BinaryOp, a: Ty, b: Ty) -> Ty {
    match op {
        BinaryOp::Sub => if is_pointer(a) && is_pointer(b) {
            Ty::Long
        } else {
            common(a, b)
        },
        BinaryOp::Add | BinaryOp::Mul | BinaryOp::Div | BinaryOp::Mod | BinaryOp::BitwiseAnd
        | BinaryOp::BitwiseOr | BinaryOp::BitwiseXor => common(a, b),
        BinaryOp::ShiftLeft | BinaryOp::ShiftRight => a,
        BinaryOp::LogicalAnd | BinaryOp::LogicalOr | BinaryOp::Equal | BinaryOp::NotEqual
        | BinaryOp::Less | BinaryOp::Greater | BinaryOp::LessEqual | BinaryOp::GreaterEqual =>
        Ty::Int,
    }
}

/// Whether two types select the same association of a `_Generic`.
pub fn types_match(a: &CType, b: &CType) -> (r: bool)
    ensures
        r == generic_match(a@, b@),
    decreases a, b,
{
    match a {
        CType::Qualified(inner, _) => types_match(inner, b),
        CType::Typedef { underlying, .. } => types_match(underlying, b),
        _ => match b {
            CType::Qualified(inner, _) => types_match(a, inner),
            CType::Typedef { underlying, .. } => types_match(a, underlying),
            _ => {
                if types_equal(a, b) {
                    return true;
                }
                match (a, b) {
                    (CType::Struct { name: Some(x), .. }, CType::Struct { name: Some(y), .. }) =>
                    str_eq(x.as_str(), y.as_str()),
                    (CType::Union { name: Some(x), .. }, CType::Union { name: Some(y), .. }) =>
                    str_eq(x.as_str(), y.as_str()),
                    (CType::Pointer(x, _), CType::Pointer(y, _)) => types_match(x, y),
                    _ => false,
                }
            },
        },
    }
}

/// The type of a member, members of unnamed structs and unions included.
pub fn find_member_in_fields(fields: &Vec<StructField>, name: &str) -> (r: Option<CType>)
    ensures
        opt_ty(r) == find_member(fields_of(fields@), 0, name@),
    decreases fields@, 1int,
{
    let mut i: usize = 0;
    let ghost fs = fields_of(fields@);
    #[verifier::loop_isolation(false)]
    while i < fields.len()
        invariant
            i <= fields@.len(),
            find_member(fs, i as int, name@) == find_member(fs, 0, name@),
        decreases fields@.len() - i,
    {
        let f: &StructField = &fields[i];
        assert(fs[i as int].name == opt_chars(f.name));
        match &f.name {
            Some(n) => {
                if str_eq(n.as_str(), name) {
                    return Some(f.ty.clone());
                }
            },
            None => {
                match member_of_unnamed(&f.ty, name, true, true) {
                    Some(t) => {
                        return Some(t);
                    },
                    None => {},
                }
            },
        }
        i += 1;
    }
    None
}

fn member_of_unnamed(t: &CType, name: &str, behind_typedef: bool, behind_qualifier: bool) -> (r:
    Option<CType>)
    ensures
        opt_ty(r) == find_in_unnamed(t@, name@, behind_typedef, behind_qualifier),
    decreases t, 0int,
{
    match t {
        CType::Struct { fields, .. } => find_member_in_fields(fields, name),
        CType::Union { fields, .. } => find_member_in_fields(fields, name),
        CType::Qualified(inner, _) => if behind_qualifier {
            member_of_unnamed(inner, name, false, false)
        } else {
            None
        },
        CType::Typedef { underlying, .. } => if behind_typedef {
            member_of_unnamed(underlying, name, false, true)
        } else {
            None
        },
        _ => None,
    }
}

impl<'a> SemanticAnalyzer<'a> {
    /// The type below qualifiers and typedef names.
    pub fn strip_qualifiers<'b>(&self, ty: &'b CType) -> (r: &'b CType)
        ensures
            r@ == stripped(ty@),
    {
        strip(ty)
    }

    /// Whether a type is an integer type.
    pub fn is_integer_type(&self, ty: &CType) -> (r: bool)
        ensures
            r == is_integer(ty@),
    {
        match strip(ty) {
            CType::Bool | CType::Char | CType::SChar | CType::UChar | CType::Short | CType::UShort
            | CType::Int | CType::UInt | CType::Long | CType::ULong | CType::LongLong
            | CType::ULongLong | CType::Int128 | CType::UInt128 | CType::Enum { .. } => true,
            _ => false,
        }
    }

    /// Whether a type is a floating type.
    pub fn is_float_type(&self, ty: &CType) -> (r: bool)
        ensures
            r == is_float(ty@),
    {
        match strip(ty) {
            CType::Float | CType::Double | CType::LongDouble | CType::Complex(_) => true,
            _ => false,
        }
    }

    /// Whether a type is an arithmetic type.
    pub fn is_arithmetic_type(&self, ty: &CType) -> (r: bool)
        ensures
            r == (is_integer(ty@) || is_float(ty@)),
    {
        self.is_integer_type(ty) || self.is_float_type(ty)
    }

    /// Whether a type is a pointer type.
    pub fn is_pointer_type(&self, ty: &CType) -> (r: bool)
        ensures
            r == is_pointer(ty@),
    {
        match strip(ty) {
            CType::Pointer(_, _) => true,
            _ => false,
        }
    }

    /// Whether a type is a function type.
    pub fn is_function_type(&self, ty: &CType) -> (r: bool)
        ensures
            r == stripped(ty@) is Function,
    {
        match strip(ty) {
            CType::Function { .. } => true,
            _ => false,
        }
    }

    /// Whether a type is an array type.
    pub fn is_array_type(&self, ty: &CType) -> (r: bool)
        ensures
            r == stripped(ty@) is Array,
    {
        match strip(ty) {
            CType::Array(_, _) => true,
            _ => false,
        }
    }

    /// Whether a type can control a branch.
    pub fn is_scalar_type(&self, ty: &CType) -> (r: bool)
        ensures
            r == is_scalar(ty@),
    {
        self.is_arithmetic_type(ty) || self.is_pointer_type(ty) || self.is_function_type(ty)
            || self.is_array_type(ty)
    }

    /// Whether a type has `const` on top.
    pub fn is_const_qualified(&self, ty: &CType) -> (r: bool)
        ensures
            r == (match ty@ {
                Ty::Qualified(_, q) => q.is_const,
                _ => false,
            }),
    {
        match ty {
            CType::Qualified(_, q) => q.is_const,
            _ => false,
        }
    }

    /// Whether accesses through a value of this type are let pass.
    pub fn is_fallback_type(&self, ty: &CType) -> (r: bool)
        ensures
            r == is_fallback(ty@),
    {
        match strip(ty) {
            CType::Int | CType::UInt | CType::Long | CType::ULong | CType::Char | CType::Void =>
            true,
            _ => false,
        }
    }

    /// The conversion rank of an integer type.
    pub fn integer_rank(&self, ty: &CType) -> (r: u32)
        ensures
            r == rank(ty@),
    {
        match ty {
            CType::Bool => 0,
            CType::Char | CType::SChar | CType::UChar => 1,
            CType::Short | CType::UShort => 2,
            CType::Int | CType::UInt => 3,
            CType::Long | CType::ULong => 4,
            CType::LongLong | CType::ULongLong => 5,
            CType::Int128 | CType::UInt128 => 6,
            _ => 3,
        }
    }

    /// The type in which two operands meet.
    pub fn common_type(&self, a: &CType, b: &CType) -> (r: CType)
        ensures
            r@ == common(a@, b@),
    {
        let x: &CType = strip(a);
        let y: &CType = strip(b);
        proof {
            crate::common::types::lemma_stripping_is_idempotent(a@);
            crate::common::types::lemma_stripping_is_idempotent(b@);
        }
        if self.is_pointer_type(x) {
            return x.clone();
        }
        if self.is_pointer_type(y) {
            return y.clone();
        }
        match (x, y) {
            (CType::LongDouble, _) => CType::LongDouble,
            (_, CType::LongDouble) => CType::LongDouble,
            (CType::Double, _) => CType::Double,
            (_, CType::Double) => CType::Double,
            (CType::Float, _) => CType::Float,
            (_, CType::Float) => CType::Float,
            _ => {
                if self.integer_rank(x) >= self.integer_rank(y) {
                    x.clone()
                } else {
                    y.clone()
                }
            },
        }
    }

    /// What a pointer points to or an array consists of.
    pub fn get_pointee_type(&self, ty: &CType) -> (r: Option<CType>)
        ensures
            opt_ty(r) == pointee(ty@),
    {
        match strip(ty) {
            CType::Pointer(inner, _) => Some((&**inner).clone()),
            CType::Array(inner, _) => Some((&**inner).clone()),
            _ => None,
        }
    }

    /// Whether two types select the same association of a `_Generic`.
    pub fn types_match_generic(&self, a: &CType, b: &CType) -> (r: bool)
        ensures
            r == generic_match(a@, b@),
    {
        types_match(a, b)
    }

    /// The type of a binary operation.
    pub fn resolve_binary_op_type(&self, op: BinaryOp, left: &CType, right: &CType) -> (r: CType)
        ensures
            r@ == binary_result(op, left@, right@),
    {
        match op {
            BinaryOp::Sub => {
                if self.is_pointer_type(left) && self.is_pointer_type(right) {
                    CType::Long
                } else {
                    self.common_type(left, right)
                }
            },
            BinaryOp::Add | BinaryOp::Mul | BinaryOp::Div | BinaryOp::Mod | BinaryOp::BitwiseAnd
            | BinaryOp::BitwiseOr | BinaryOp::BitwiseXor => self.common_type(left, right),
            BinaryOp::ShiftLeft | BinaryOp::ShiftRight => left.clone(),
            BinaryOp::LogicalAnd | BinaryOp::LogicalOr | BinaryOp::Equal | BinaryOp::NotEqual
            | BinaryOp::Less | BinaryOp::Greater | BinaryOp::LessEqual | BinaryOp::GreaterEqual =>
            CType::Int,
        }
    }

    /// The type of a prefix operation.
    pub fn resolve_unary_op_type(&mut self, op: UnaryOp, operand: &CType, span: Span) -> (r: Result<
        CType,
        (),
    >)
        ensures
            final(self)@ == unary_result(old(self)@, op, operand@, span).0,
            res_ty(r) == unary_result(old(self)@, op, operand@, span).1,
            *final(final(self).diagnostics) == *final(old(self).diagnostics),
    {
        proof {
            reveal(unary_result);
        }
        match op {
            UnaryOp::AddressOf => Ok(pointer_to(operand.clone())),
            UnaryOp::Deref => match self.get_pointee_type(operand) {
                Some(inner) => Ok(inner),
                None => {
                    self.diagnostics.emit_error(span, "indirection requires pointer operand");
                    Err(())
                },
            },
            UnaryOp::Plus | UnaryOp::Negate | UnaryOp::BitwiseNot => Ok(operand.clone()),
            UnaryOp::LogicalNot => Ok(CType::Int),
            UnaryOp::RealPart | UnaryOp::ImagPart => match operand {
                CType::Complex(inner) => Ok((&**inner).clone()),
                _ => Ok(operand.clone()),
            },
        }
    }

    /// The result of calling a value of the given type.
    pub fn resolve_function_call_type(&mut self, callee: &CType, span: Span) -> (r: Result<
        CType,
        (),
    >)
        ensures
            final(self)@ == call_result(old(self)@, callee@, span).0,
            res_ty(r) == call_result(old(self)@, callee@, span).1,
            *final(final(self).diagnostics) == *final(old(self).diagnostics),
    {
        proof {
            reveal(call_result);
        }
        let outer: &CType = resolve_and_strip(callee);
        let f: &CType = match outer {
            CType::Pointer(inner, _) => resolve_and_strip(inner),
            _ => outer,
        };
        match f {
            CType::Function { return_type, .. } => Ok((&**return_type).clone()),
            _ => {
                self.diagnostics.emit_error(
                    span,
                    "called object is not a function or function pointer",
                );
                Err(())
            },
        }
    }

    /// The members that a struct or union has, by itself or through its tag.
    fn members(&self, t: &CType, same_kind: bool) -> (r: Vec<StructField>)
        requires
            members_of(t@) is Some,
        ensures
            fields_of(r@) == completed_members(self@, t@, same_kind),
    {
        let (name, own, is_struct): (&Option<String>, &Vec<StructField>, bool) = match t {
            CType::Struct { name, fields, .. } => (name, fields, true),
            CType::Union { name, fields, .. } => (name, fields, false),
            _ => {
                let r: Vec<StructField> = Vec::new();
                return r;
            },
        };
        assert(fields_of(own@).len() == own@.len());
        if own.len() > 0 {
            return copy_fields(own);
        }
        match name {
            None => copy_fields(own),
            Some(n) => match self.scopes.lookup_tag_by_str(n.as_str(), self.interner) {
                None => copy_fields(own),
                Some(e) => {
                    if !e.is_complete {
                        return copy_fields(own);
                    }
                    match &e.ty {
                        CType::Struct { fields, .. } => if is_struct || !same_kind {
                            copy_fields(fields)
                        } else {
                            copy_fields(own)
                        },
                        CType::Union { fields, .. } => if !is_struct || !same_kind {
                            copy_fields(fields)
                        } else {
                            copy_fields(own)
                        },
                        _ => copy_fields(own),
                    }
                },
            },
        }
    }

    /// The type that inference gives a member.
    pub fn lookup_member_type(&self, ty: &CType, member: Symbol) -> (r: CType)
        ensures
            r@ == inferred_member(self@, ty@, member),
    {
        let u: &CType = resolve_and_strip(ty);
        match u {
            CType::Struct { .. } | CType::Union { .. } => {
                let fields: Vec<StructField> = self.members(u, false);
                match find_member_in_fields(&fields, self.interner.resolve(member)) {
                    Some(t) => t,
                    None => CType::Int,
                }
            },
            _ => CType::Int,
        }
    }

    /// A member access: the type of the member, or a report that there is none.
    pub fn resolve_member_type(&mut self, obj_type: &CType, member: Symbol, span: Span) -> (r:
        Result<CType, ()>)
        ensures
            final(self)@ == member_access(old(self)@, obj_type@, member, span).0,
            res_ty(r) == member_access(old(self)@, obj_type@, member, span).1,
            *final(final(self).diagnostics) == *final(old(self).diagnostics),
    {
        proof {
            reveal(member_access);
        }
        let u: &CType = strip(obj_type);
        match u {
            CType::Struct { .. } | CType::Union { .. } => {
                let fields: Vec<StructField> = self.members(u, true);
                let name: &str = self.interner.resolve(member);
                match find_member_in_fields(&fields, name) {
                    Some(t) => Ok(t),
                    None => {
                        let message: String = concat3(
                            "no member named '",
                            name,
                            "' in struct/union",
                        );
                        self.diagnostics.emit_error(span, message.as_str());
                        Err(())
                    },
                }
            },
            CType::Int | CType::UInt | CType::Long | CType::ULong | CType::LongLong
            | CType::ULongLong | CType::Int128 | CType::UInt128 | CType::Char | CType::UChar
            | CType::SChar | CType::Void => Ok(CType::Int),
            _ => {
                self.diagnostics.emit_error(
                    span,
                    "member reference base type is not a struct or union",
                );
                Err(())
            },
        }
    }
}

} // verus!
