//! C types, the model that contracts speak of, and their layout in memory.

use crate::common::text::{opt_chars, opt_str_eq, own, own_opt, str_eq};
use vstd::prelude::*;

verus! {

/// The qualifiers of a type.
#[derive(Clone, Copy, Debug, PartialEq, Eq, Structural)]
pub struct TypeQualifiers {
    pub is_const: bool,
    pub is_volatile: bool,
    pub is_restrict: bool,
    pub is_atomic: bool,
}

/// No qualifier at all.
pub open spec fn no_quals() -> TypeQualifiers {
    TypeQualifiers { is_const: false, is_volatile: false, is_restrict: false, is_atomic: false }
}

/// `const` alone.
pub open spec fn const_quals() -> TypeQualifiers {
    TypeQualifiers { is_const: true, ..no_quals() }
}

impl Default for TypeQualifiers {
    fn default() -> (r: TypeQualifiers)
        ensures
            r == no_quals(),
    {
        TypeQualifiers { is_const: false, is_volatile: false, is_restrict: false, is_atomic: false }
    }
}

impl TypeQualifiers {
    /// `const` alone.
    pub fn only_const() -> (r: TypeQualifiers)
        ensures
            r == const_quals(),
    {
        TypeQualifiers { is_const: true, is_volatile: false, is_restrict: false, is_atomic: false }
    }

    /// Whether there is no qualifier.
    pub fn is_empty(&self) -> (r: bool)
        ensures
            r == (*self == no_quals()),
    {
        !self.is_const && !self.is_volatile && !self.is_restrict && !self.is_atomic
    }
}

/// A member of a struct or union.
#[derive(Debug, PartialEq)]
pub struct StructField {
    /// `None` for an unnamed member.
    pub name: Option<String>,
    pub ty: CType,
    /// Width in bits, for a bit-field.
    pub bit_width: Option<u32>,
}

/// A C type.
///
/// A struct or union with a name and no fields stands for the tag of that name,
/// whose members are found in the tag name space.
#[derive(Debug, PartialEq)]
#[allow(inconsistent_fields)]
pub enum CType {
    Void,
    Bool,
    Char,
    SChar,
    UChar,
    Short,
    UShort,
    Int,
    UInt,
    Long,
    ULong,
    LongLong,
    ULongLong,
    Int128,
    UInt128,
    Float,
    Double,
    LongDouble,
    Complex(Box<CType>),
    Pointer(Box<CType>, TypeQualifiers),
    Array(Box<CType>, Option<usize>),
    Function { return_type: Box<CType>, params: Vec<CType>, variadic: bool },
    Struct { name: Option<String>, fields: Vec<StructField>, packed: bool, aligned: Option<usize> },
    Union { name: Option<String>, fields: Vec<StructField>, packed: bool, aligned: Option<usize> },
    Enum { name: Option<String>, underlying_type: Box<CType> },
    Atomic(Box<CType>),
    Typedef { name: String, underlying: Box<CType> },
    Qualified(Box<CType>, TypeQualifiers),
}

/// A member, as contracts see it.
pub struct Field {
    pub name: Option<Seq<char>>,
    pub ty: Ty,
    pub bit_width: Option<u32>,
}

/// A C type, as contracts see it.
#[allow(inconsistent_fields)]
pub enum Ty {
    Void,
    Bool,
    Char,
    SChar,
    UChar,
    Short,
    UShort,
    Int,
    UInt,
    Long,
    ULong,
    LongLong,
    ULongLong,
    Int128,
    UInt128,
    Float,
    Double,
    LongDouble,
    Complex(Box<Ty>),
    Pointer(Box<Ty>, TypeQualifiers),
    Array(Box<Ty>, Option<usize>),
    Function { return_type: Box<Ty>, params: Seq<Ty>, variadic: bool },
    Struct { name: Option<Seq<char>>, fields: Seq<Field>, packed: bool, aligned: Option<usize> },
    Union { name: Option<Seq<char>>, fields: Seq<Field>, packed: bool, aligned: Option<usize> },
    Enum { name: Option<Seq<char>>, underlying_type: Box<Ty> },
    Atomic(Box<Ty>),
    Typedef { name: Seq<char>, underlying: Box<Ty> },
    Qualified(Box<Ty>, TypeQualifiers),
}

/// The model of a type.
pub open spec fn ty_of(t: CType) -> Ty
    decreases t,
{
    match t {
        CType::Void => Ty::Void,
        CType::Bool => Ty::Bool,
        CType::Char => Ty::Char,
        CType::SChar => Ty::SChar,
        CType::UChar => Ty::UChar,
        CType::Short => Ty::Short,
        CType::UShort => Ty::UShort,
        CType::Int => Ty::Int,
        CType::UInt => Ty::UInt,
        CType::Long => Ty::Long,
        CType::ULong => Ty::ULong,
        CType::LongLong => Ty::LongLong,
        CType::ULongLong => Ty::ULongLong,
        CType::Int128 => Ty::Int128,
        CType::UInt128 => Ty::UInt128,
        CType::Float => Ty::Float,
        CType::Double => Ty::Double,
        CType::LongDouble => Ty::LongDouble,
        CType::Complex(b) => Ty::Complex(Box::new(ty_of(*b))),
        CType::Pointer(b, q) => Ty::Pointer(Box::new(ty_of(*b)), q),
        CType::Array(b, n) => Ty::Array(Box::new(ty_of(*b)), n),
        CType::Function { return_type, params, variadic } => Ty::Function {
            return_type: Box::new(ty_of(*return_type)),
            params: types_of(params@),
            variadic,
        },
        CType::Struct { name, fields, packed, aligned } => Ty::Struct {
            name: opt_chars(name),
            fields: fields_of(fields@),
            packed,
            aligned,
        },
        CType::Union { name, fields, packed, aligned } => Ty::Union {
            name: opt_chars(name),
            fields: fields_of(fields@),
            packed,
            aligned,
        },
        CType::Enum { name, underlying_type } => Ty::Enum {
            name: opt_chars(name),
            underlying_type: Box::new(ty_of(*underlying_type)),
        },
        CType::Atomic(b) => Ty::Atomic(Box::new(ty_of(*b))),
        CType::Typedef { name, underlying } => Ty::Typedef {
            name: name@,
            underlying: Box::new(ty_of(*underlying)),
        },
        CType::Qualified(b, q) => Ty::Qualified(Box::new(ty_of(*b)), q),
    }
}

/// The model of a member.
pub open spec fn field_of(f: StructField) -> Field
    decreases f,
{
    Field { name: opt_chars(f.name), ty: ty_of(f.ty), bit_width: f.bit_width }
}

/// The models of several members.
pub open spec fn fields_of(s: Seq<StructField>) -> Seq<Field>
    decreases s,
{
    Seq::new(
        s.len(),
        |i: int|
            if 0 <= i < s.len() {
                field_of(s[i])
            } else {
                arbitrary()
            },
    )
}

/// The models of several types.
pub open spec fn types_of(s: Seq<CType>) -> Seq<Ty>
    decreases s,
{
    Seq::new(
        s.len(),
        |i: int|
            if 0 <= i < s.len() {
                ty_of(s[i])
            } else {
                arbitrary()
            },
    )
}

/// A list of members has one model for each.
pub broadcast proof fn lemma_fields_len(s: Seq<StructField>)
    ensures
        (#[trigger] fields_of(s)).len() == s.len(),
{
}

/// Each model of a member is that of the member in its place.
pub broadcast proof fn lemma_fields_index(s: Seq<StructField>, i: int)
    requires
        0 <= i < s.len(),
    ensures
        (#[trigger] fields_of(s)[i]) == (Field {
            name: opt_chars(s[i].name),
            ty: ty_of(s[i].ty),
            bit_width: s[i].bit_width,
        }),
{
    assert(fields_of(s)[i] == field_of(s[i]));
}

/// A list of types has one model for each.
pub broadcast proof fn lemma_types_len(s: Seq<CType>)
    ensures
        (#[trigger] types_of(s)).len() == s.len(),
{
}

/// Each model of a type is that of the type in its place.
pub broadcast proof fn lemma_types_index(s: Seq<CType>, i: int)
    requires
        0 <= i < s.len(),
    ensures
        (#[trigger] types_of(s)[i]) == ty_of(s[i]),
{
}

pub broadcast group group_type_models {
    lemma_fields_len,
    lemma_fields_index,
    lemma_types_len,
    lemma_types_index,
}

impl View for CType {
    type V = Ty;

    open spec fn view(&self) -> Ty {
        ty_of(*self)
    }
}

/// The model of an optional type.
pub open spec fn opt_ty(t: Option<CType>) -> Option<Ty> {
    match t {
        Some(x) => Some(ty_of(x)),
        None => None,
    }
}

/// The model of a type that is boxed or the outcome of an analysis: `None`
/// stands for failure.
pub open spec fn res_ty(t: Result<CType, ()>) -> Option<Ty> {
    match t {
        Ok(x) => Some(ty_of(x)),
        Err(_) => None,
    }
}

fn clone_types(v: &Vec<CType>) -> (r: Vec<CType>)
    ensures
        types_of(r@) == types_of(v@),
    decreases v@, 1int,
{
    let mut r: Vec<CType> = Vec::new();
    let mut i: usize = 0;
    #[verifier::loop_isolation(false)]
    while i < v.len()
        invariant
            i <= v@.len(),
            r@.len() == i,
            forall|j: int| 0 <= j < i ==> ty_of(#[trigger] r@[j]) == ty_of(v@[j]),
        decreases v@.len() - i,
    {
        r.push(clone_type(&v[i]));
        i += 1;
    }
    assert(types_of(r@) =~= types_of(v@));
    r
}

fn clone_fields(v: &Vec<StructField>) -> (r: Vec<StructField>)
    ensures
        fields_of(r@) == fields_of(v@),
    decreases v@, 1int,
{
    let mut r: Vec<StructField> = Vec::new();
    let mut i: usize = 0;
    #[verifier::loop_isolation(false)]
    while i < v.len()
        invariant
            i <= v@.len(),
            r@.len() == i,
            forall|j: int| 0 <= j < i ==> field_of(#[trigger] r@[j]) == field_of(v@[j]),
        decreases v@.len() - i,
    {
        let f: &StructField = &v[i];
        r.push(
            StructField { name: own_opt(&f.name), ty: clone_type(&f.ty), bit_width: f.bit_width },
        );
        i += 1;
    }
    assert(fields_of(r@) =~= fields_of(v@));
    r
}

fn clone_type(t: &CType) -> (r: CType)
    ensures
        ty_of(r) == ty_of(*t),
    decreases t, 0int,
{
    match t {
        CType::Void => CType::Void,
        CType::Bool => CType::Bool,
        CType::Char => CType::Char,
        CType::SChar => CType::SChar,
        CType::UChar => CType::UChar,
        CType::Short => CType::Short,
        CType::UShort => CType::UShort,
        CType::Int => CType::Int,
        CType::UInt => CType::UInt,
        CType::Long => CType::Long,
        CType::ULong => CType::ULong,
        CType::LongLong => CType::LongLong,
        CType::ULongLong => CType::ULongLong,
        CType::Int128 => CType::Int128,
        CType::UInt128 => CType::UInt128,
        CType::Float => CType::Float,
        CType::Double => CType::Double,
        CType::LongDouble => CType::LongDouble,
        CType::Complex(b) => CType::Complex(Box::new(clone_type(b))),
        CType::Pointer(b, q) => CType::Pointer(Box::new(clone_type(b)), *q),
        CType::Array(b, n) => CType::Array(Box::new(clone_type(b)), *n),
        CType::Function { return_type, params, variadic } => CType::Function {
            return_type: Box::new(clone_type(return_type)),
            params: clone_types(params),
            variadic: *variadic,
        },
        CType::Struct { name, fields, packed, aligned } => CType::Struct {
            name: own_opt(name),
            fields: clone_fields(fields),
            packed: *packed,
            aligned: *aligned,
        },
        CType::Union { name, fields, packed, aligned } => CType::Union {
            name: own_opt(name),
            fields: clone_fields(fields),
            packed: *packed,
            aligned: *aligned,
        },
        CType::Enum { name, underlying_type } => CType::Enum {
            name: own_opt(name),
            underlying_type: Box::new(clone_type(underlying_type)),
        },
        CType::Atomic(b) => CType::Atomic(Box::new(clone_type(b))),
        CType::Typedef { name, underlying } => CType::Typedef {
            name: own(name.as_str()),
            underlying: Box::new(clone_type(underlying)),
        },
        CType::Qualified(b, q) => CType::Qualified(Box::new(clone_type(b)), *q),
    }
}

impl Clone for CType {
    fn clone(&self) -> (r: CType)
        ensures
            r@ == self@,
    {
        clone_type(self)
    }
}

impl Clone for StructField {
    fn clone(&self) -> (r: StructField)
        ensures
            field_of(r) == field_of(*self),
    {
        StructField {
            name: own_opt(&self.name),
            ty: clone_type(&self.ty),
            bit_width: self.bit_width,
        }
    }
}

/// A copy of a list of members.
pub fn copy_fields(v: &Vec<StructField>) -> (r: Vec<StructField>)
    ensures
        fields_of(r@) == fields_of(v@),
{
    clone_fields(v)
}

/// A copy of a list of types.
pub fn copy_types(v: &Vec<CType>) -> (r: Vec<CType>)
    ensures
        types_of(r@) == types_of(v@),
{
    clone_types(v)
}

fn type_lists_equal(a: &Vec<CType>, b: &Vec<CType>) -> (r: bool)
    ensures
        r == (types_of(a@) == types_of(b@)),
    decreases a@, 1int,
{
    if a.len() != b.len() {
        assert(types_of(a@).len() != types_of(b@).len());
        return false;
    }
    let mut i: usize = 0;
    #[verifier::loop_isolation(false)]
    while i < a.len()
        invariant
            i <= a@.len(),
            a@.len() == b@.len(),
            forall|j: int| 0 <= j < i ==> ty_of(#[trigger] a@[j]) == ty_of(b@[j]),
        decreases a@.len() - i,
    {
        if !types_equal(&a[i], &b[i]) {
            assert(types_of(a@)[i as int] != types_of(b@)[i as int]);
            return false;
        }
        i += 1;
    }
    assert(types_of(a@) =~= types_of(b@));
    true
}

fn field_lists_equal(a: &Vec<StructField>, b: &Vec<StructField>) -> (r: bool)
    ensures
        r == (fields_of(a@) == fields_of(b@)),
    decreases a@, 1int,
{
    if a.len() != b.len() {
        assert(fields_of(a@).len() != fields_of(b@).len());
        return false;
    }
    let mut i: usize = 0;
    #[verifier::loop_isolation(false)]
    while i < a.len()
        invariant
            i <= a@.len(),
            a@.len() == b@.len(),
            forall|j: int| 0 <= j < i ==> field_of(#[trigger] a@[j]) == field_of(b@[j]),
        decreases a@.len() - i,
    {
        let x: &StructField = &a[i];
        let y: &StructField = &b[i];
        if !(opt_str_eq(&x.name, &y.name) && types_equal(&x.ty, &y.ty) && x.bit_width
            == y.bit_width) {
            assert(fields_of(a@)[i as int] != fields_of(b@)[i as int]);
            return false;
        }
        i += 1;
    }
    assert(fields_of(a@) =~= fields_of(b@));
    true
}

/// Whether two types are the same, to the last qualifier.
pub fn types_equal(a: &CType, b: &CType) -> (r: bool)
    ensures
        r == (a@ == b@),
    decreases a, 0int,
{
    match (a, b) {
        (CType::Void, CType::Void) => true,
        (CType::Bool, CType::Bool) => true,
        (CType::Char, CType::Char) => true,
        (CType::SChar, CType::SChar) => true,
        (CType::UChar, CType::UChar) => true,
        (CType::Short, CType::Short) => true,
        (CType::UShort, CType::UShort) => true,
        (CType::Int, CType::Int) => true,
        (CType::UInt, CType::UInt) => true,
        (CType::Long, CType::Long) => true,
        (CType::ULong, CType::ULong) => true,
        (CType::LongLong, CType::LongLong) => true,
        (CType::ULongLong, CType::ULongLong) => true,
        (CType::Int128, CType::Int128) => true,
        (CType::UInt128, CType::UInt128) => true,
        (CType::Float, CType::Float) => true,
        (CType::Double, CType::Double) => true,
        (CType::LongDouble, CType::LongDouble) => true,
        (CType::Complex(x), CType::Complex(y)) => types_equal(x, y),
        (CType::Pointer(x, p), CType::Pointer(y, q)) => *p == *q && types_equal(x, y),
        (CType::Array(x, p), CType::Array(y, q)) => *p == *q && types_equal(x, y),
        (
            CType::Function { return_type: r1, params: p1, variadic: v1 },
            CType::Function { return_type: r2, params: p2, variadic: v2 },
        ) => *v1 == *v2 && types_equal(r1, r2) && type_lists_equal(p1, p2),
        (
            CType::Struct { name: n1, fields: f1, packed: p1, aligned: a1 },
            CType::Struct { name: n2, fields: f2, packed: p2, aligned: a2 },
        ) => *p1 == *p2 && *a1 == *a2 && opt_str_eq(n1, n2) && field_lists_equal(f1, f2),
        (
            CType::Union { name: n1, fields: f1, packed: p1, aligned: a1 },
            CType::Union { name: n2, fields: f2, packed: p2, aligned: a2 },
        ) => *p1 == *p2 && *a1 == *a2 && opt_str_eq(n1, n2) && field_lists_equal(f1, f2),
        (
            CType::Enum { name: n1, underlying_type: u1 },
            CType::Enum { name: n2, underlying_type: u2 },
        ) => opt_str_eq(n1, n2) && types_equal(u1, u2),
        (CType::Atomic(x), CType::Atomic(y)) => types_equal(x, y),
        (
            CType::Typedef { name: n1, underlying: u1 },
            CType::Typedef { name: n2, underlying: u2 },
        ) => str_eq(n1.as_str(), n2.as_str()) && types_equal(u1, u2),
        (CType::Qualified(x, p), CType::Qualified(y, q)) => *p == *q && types_equal(x, y),
        _ => false,
    }
}

/// A type below its qualifiers and typedef names.
pub open spec fn stripped(t: Ty) -> Ty
    decreases t,
{
    match t {
        Ty::Qualified(inner, _) => stripped(*inner),
        Ty::Typedef { underlying, .. } => stripped(*underlying),
        _ => t,
    }
}

/// A type below its qualifiers, typedef names and `_Atomic`.
pub open spec fn deep_stripped(t: Ty) -> Ty
    decreases t,
{
    match t {
        Ty::Qualified(inner, _) => deep_stripped(*inner),
        Ty::Typedef { underlying, .. } => deep_stripped(*underlying),
        Ty::Atomic(inner) => deep_stripped(*inner),
        _ => t,
    }
}

/// A type below its typedef names.
pub open spec fn below_typedefs(t: Ty) -> Ty
    decreases t,
{
    match t {
        Ty::Typedef { underlying, .. } => below_typedefs(*underlying),
        _ => t,
    }
}

/// The type below qualifiers and typedef names.
pub fn strip(t: &CType) -> (r: &CType)
    ensures
        r@ == stripped(t@),
    decreases t,
{
    match t {
        CType::Qualified(inner, _) => strip(inner),
        CType::Typedef { underlying, .. } => strip(underlying),
        _ => t,
    }
}

/// The type below qualifiers, typedef names and `_Atomic`.
pub fn resolve_and_strip(t: &CType) -> (r: &CType)
    ensures
        r@ == deep_stripped(t@),
    decreases t,
{
    match t {
        CType::Qualified(inner, _) => resolve_and_strip(inner),
        CType::Typedef { underlying, .. } => resolve_and_strip(underlying),
        CType::Atomic(inner) => resolve_and_strip(inner),
        _ => t,
    }
}

/// The type that a typedef name stands for.
pub fn resolve_typedef(t: &CType) -> (r: &CType)
    ensures
        r@ == below_typedefs(t@),
    decreases t,
{
    match t {
        CType::Typedef { underlying, .. } => resolve_typedef(underlying),
        _ => t,
    }
}

/// Neither a qualifier nor a typedef name is left on a stripped type, and `_Atomic` neither
/// where it is stripped too; each layer that is taken off leaves the type below it.
pub proof fn lemma_stripping_leaves_no_layer(t: Ty, q: TypeQualifiers, name: Seq<char>)
    ensures
        !(stripped(t) is Qualified) && !(stripped(t) is Typedef),
        !(deep_stripped(t) is Qualified) && !(deep_stripped(t) is Typedef) && !(deep_stripped(
            t,
        ) is Atomic),
        stripped(Ty::Qualified(Box::new(t), q)) == stripped(t),
        stripped(Ty::Typedef { name, underlying: Box::new(t) }) == stripped(t),
        stripped(Ty::Atomic(Box::new(t))) == Ty::Atomic(Box::new(t)),
        deep_stripped(Ty::Qualified(Box::new(t), q)) == deep_stripped(t),
        deep_stripped(Ty::Typedef { name, underlying: Box::new(t) }) == deep_stripped(t),
        deep_stripped(Ty::Atomic(Box::new(t))) == deep_stripped(t),
        !(t is Qualified) && !(t is Typedef) ==> stripped(t) == t,
        !(t is Qualified) && !(t is Typedef) && !(t is Atomic) ==> deep_stripped(t) == t,
        !(below_typedefs(t) is Typedef),
        !(t is Typedef) ==> below_typedefs(t) == t,
    decreases t,
{
    match t {
        Ty::Qualified(inner, _) => lemma_stripping_leaves_no_layer(*inner, q, name),
        Ty::Typedef { underlying, .. } => lemma_stripping_leaves_no_layer(*underlying, q, name),
        Ty::Atomic(inner) => lemma_stripping_leaves_no_layer(*inner, q, name),
        _ => {},
    }
}

/// Stripping leaves neither a qualifier nor a typedef name on top, and a second
/// time changes nothing.
pub proof fn lemma_stripping_is_idempotent(t: Ty)
    ensures
        !(stripped(t) is Qualified),
        !(stripped(t) is Typedef),
        stripped(stripped(t)) == stripped(t),
        deep_stripped(deep_stripped(t)) == deep_stripped(t),
        below_typedefs(below_typedefs(t)) == below_typedefs(t),
    decreases t,
{
    match t {
        Ty::Qualified(inner, _) => lemma_stripping_is_idempotent(*inner),
        Ty::Typedef { underlying, .. } => lemma_stripping_is_idempotent(*underlying),
        Ty::Atomic(inner) => lemma_stripping_is_idempotent(*inner),
        _ => {},
    }
}

/// Pointer without qualifiers to `t`.
pub open spec fn pointer_ty(t: Ty) -> Ty {
    Ty::Pointer(Box::new(t), no_quals())
}

/// Pointer without qualifiers to `t`.
pub fn pointer_to(t: CType) -> (r: CType)
    ensures
        r@ == pointer_ty(t@),
{
    CType::Pointer(Box::new(t), TypeQualifiers::default())
}

/// Pointer to `void`.
pub open spec fn void_ptr_ty() -> Ty {
    pointer_ty(Ty::Void)
}

/// Pointer to `void`.
pub fn void_ptr() -> (r: CType)
    ensures
        r@ == void_ptr_ty(),
{
    pointer_to(CType::Void)
}

} // verus!
