//! Type keywords, qualifiers, pointer prefixes and declared names.

use crate::common::string_interner::Symbol;
use crate::common::types::{no_quals, CType, Field, Ty, TypeQualifiers};
use crate::frontend::parser::ast::{
    Declarator, DeclarationSpecifiers, DirectDeclarator, Pointer, TypeQualifier, TypeSpecifier,
};
use crate::frontend::parser::ast;
use crate::frontend::sema::symbol_table::StorageClass;
use vstd::prelude::*;

verus! {

/// The type keywords that a declaration holds.
#[derive(Clone, Copy, Debug, PartialEq, Eq, Structural)]
pub struct Keywords {
    pub has_void: bool,
    pub has_char: bool,
    pub has_short: bool,
    pub has_int: bool,
    /// How many `long` there are; more than two count as two.
    pub longs: u8,
    pub has_float: bool,
    pub has_double: bool,
    pub has_signed: bool,
    pub has_unsigned: bool,
    pub has_bool: bool,
    pub has_complex: bool,
    pub has_int128: bool,
}

/// No keyword yet.
pub open spec fn no_keywords() -> Keywords {
    Keywords {
        has_void: false,
        has_char: false,
        has_short: false,
        has_int: false,
        longs: 0,
        has_float: false,
        has_double: false,
        has_signed: false,
        has_unsigned: false,
        has_bool: false,
        has_complex: false,
        has_int128: false,
    }
}

/// Whether a specifier is a type keyword that others can stand beside.
pub open spec fn is_keyword(s: TypeSpecifier) -> bool {
    match s {
        TypeSpecifier::Void => true,
        TypeSpecifier::Char => true,
        TypeSpecifier::Short => true,
        TypeSpecifier::Int => true,
        TypeSpecifier::Long => true,
        TypeSpecifier::Float => true,
        TypeSpecifier::Double => true,
        TypeSpecifier::Signed => true,
        TypeSpecifier::Unsigned => true,
        TypeSpecifier::Bool => true,
        TypeSpecifier::Complex => true,
        TypeSpecifier::Int128 => true,
        _ => false,
    }
}

/// One specifier more; one that is no keyword changes nothing.
pub open spec fn with_keyword(k: Keywords, s: TypeSpecifier) -> Keywords {
    match s {
        TypeSpecifier::Void => Keywords { has_void: true, ..k },
        TypeSpecifier::Char => Keywords { has_char: true, ..k },
        TypeSpecifier::Short => Keywords { has_short: true, ..k },
        TypeSpecifier::Int => Keywords { has_int: true, ..k },
        TypeSpecifier::Long => Keywords {
            longs: if k.longs >= 1 {
                2
            } else {
                1
            },
            ..k
        },
        TypeSpecifier::Float => Keywords { has_float: true, ..k },
        TypeSpecifier::Double => Keywords { has_double: true, ..k },
        TypeSpecifier::Signed => Keywords { has_signed: true, ..k },
        TypeSpecifier::Unsigned => Keywords { has_unsigned: true, ..k },
        TypeSpecifier::Bool => Keywords { has_bool: true, ..k },
        TypeSpecifier::Complex => Keywords { has_complex: true, ..k },
        TypeSpecifier::Int128 => Keywords { has_int128: true, ..k },
        _ => k,
    }
}

/// The arithmetic type that the keywords other than `_Complex` name. Bare
/// `_Complex` means `double`, and no keyword at all means `int`.
pub open spec fn scalar_of(k: Keywords) -> Ty {
    if k.has_char {
        if k.has_unsigned {
            Ty::UChar
        } else if k.has_signed {
            Ty::SChar
        } else {
            Ty::Char
        }
    } else if k.has_int128 {
        if k.has_unsigned {
            Ty::UInt128
        } else {
            Ty::Int128
        }
    } else if k.has_short {
        if k.has_unsigned {
            Ty::UShort
        } else {
            Ty::Short
        }
    } else if k.has_float {
        Ty::Float
    } else if k.has_double {
        if k.longs > 0 {
            Ty::LongDouble
        } else {
            Ty::Double
        }
    } else if k.longs >= 2 {
        if k.has_unsigned {
            Ty::ULongLong
        } else {
            Ty::LongLong
        }
    } else if k.longs == 1 {
        if k.has_unsigned {
            Ty::ULong
        } else {
            Ty::Long
        }
    } else if k.has_unsigned {
        Ty::UInt
    } else if k.has_complex && !k.has_int && !k.has_signed {
        Ty::Double
    } else {
        Ty::Int
    }
}

/// The type that the keywords name together.
pub open spec fn combined(k: Keywords) -> Ty {
    if k.has_void {
        Ty::Void
    } else if k.has_bool {
        Ty::Bool
    } else if k.has_complex {
        Ty::Complex(Box::new(scalar_of(k)))
    } else {
        scalar_of(k)
    }
}

/// The qualifiers of a list.
pub open spec fn quals_of(s: Seq<TypeQualifier>) -> TypeQualifiers {
    TypeQualifiers {
        is_const: s.contains(TypeQualifier::Const),
        is_volatile: s.contains(TypeQualifier::Volatile),
        is_restrict: s.contains(TypeQualifier::Restrict),
        is_atomic: s.contains(TypeQualifier::Atomic),
    }
}

/// A type with qualifiers, if there are any.
pub open spec fn qualified(t: Ty, q: TypeQualifiers) -> Ty {
    if q == no_quals() {
        t
    } else {
        Ty::Qualified(Box::new(t), q)
    }
}

/// A type behind a pointer prefix, the first `*` next to it.
pub open spec fn behind_pointer(t: Ty, p: Pointer) -> Ty
    decreases p,
{
    let one = Ty::Pointer(Box::new(t), quals_of(p.qualifiers@));
    match p.inner {
        Some(inner) => behind_pointer(one, *inner),
        None => one,
    }
}

/// A type behind a pointer prefix, if there is one.
pub open spec fn behind_pointers(t: Ty, p: Option<Pointer>) -> Ty {
    match p {
        Some(x) => behind_pointer(t, x),
        None => t,
    }
}

/// A struct or a union.
pub open spec fn aggregate(
    is_struct: bool,
    name: Option<Seq<char>>,
    fields: Seq<Field>,
    packed: bool,
    aligned: Option<usize>,
) -> Ty {
    if is_struct {
        Ty::Struct { name, fields, packed, aligned }
    } else {
        Ty::Union { name, fields, packed, aligned }
    }
}

/// The name that a direct declarator declares.
pub open spec fn direct_name(d: DirectDeclarator) -> Symbol
    decreases d,
{
    match d {
        DirectDeclarator::Identifier(sym, _) => sym,
        DirectDeclarator::Parenthesized(inner) => direct_name(inner.direct),
        DirectDeclarator::Array { base, .. } => direct_name(*base),
        DirectDeclarator::Function { base, .. } => direct_name(*base),
    }
}

/// Whether a direct declarator holds a parameter list.
pub open spec fn holds_function(d: DirectDeclarator) -> bool
    decreases d,
{
    match d {
        DirectDeclarator::Identifier(_, _) => false,
        DirectDeclarator::Parenthesized(inner) => holds_function(inner.direct),
        DirectDeclarator::Array { base, .. } => holds_function(*base),
        DirectDeclarator::Function { .. } => true,
    }
}

/// The storage class that the specifiers give; `auto` where they give none.
pub open spec fn storage_of(s: Option<ast::StorageClass>) -> StorageClass {
    match s {
        Some(ast::StorageClass::Auto) => StorageClass::Auto,
        Some(ast::StorageClass::Register) => StorageClass::Register,
        Some(ast::StorageClass::Static) => StorageClass::Static,
        Some(ast::StorageClass::Extern) => StorageClass::Extern,
        Some(ast::StorageClass::Typedef) => StorageClass::Typedef,
        Some(ast::StorageClass::ThreadLocal) => StorageClass::ThreadLocal,
        None => StorageClass::Auto,
    }
}

/// One specifier more.
pub fn add_keyword(k: Keywords, s: &TypeSpecifier) -> (r: Keywords)
    ensures
        r == with_keyword(k, *s),
{
    let mut k: Keywords = k;
    match s {
        TypeSpecifier::Void => {
            k.has_void = true;
        },
        TypeSpecifier::Char => {
            k.has_char = true;
        },
        TypeSpecifier::Short => {
            k.has_short = true;
        },
        TypeSpecifier::Int => {
            k.has_int = true;
        },
        TypeSpecifier::Long => {
            k.longs = if k.longs >= 1 {
                2
            } else {
                1
            };
        },
        TypeSpecifier::Float => {
            k.has_float = true;
        },
        TypeSpecifier::Double => {
            k.has_double = true;
        },
        TypeSpecifier::Signed => {
            k.has_signed = true;
        },
        TypeSpecifier::Unsigned => {
            k.has_unsigned = true;
        },
        TypeSpecifier::Bool => {
            k.has_bool = true;
        },
        TypeSpecifier::Complex => {
            k.has_complex = true;
        },
        TypeSpecifier::Int128 => {
            k.has_int128 = true;
        },
        _ => {},
    }
    k
}

/// No keyword yet.
pub fn keywords() -> (r: Keywords)
    ensures
        r == no_keywords(),
{
    Keywords {
        has_void: false,
        has_char: false,
        has_short: false,
        has_int: false,
        longs: 0,
        has_float: false,
        has_double: false,
        has_signed: false,
        has_unsigned: false,
        has_bool: false,
        has_complex: false,
        has_int128: false,
    }
}

fn scalar_type(k: Keywords) -> (r: CType)
    ensures
        r@ == scalar_of(k),
{
    if k.has_char {
        if k.has_unsigned {
            CType::UChar
        } else if k.has_signed {
            CType::SChar
        } else {
            CType::Char
        }
    } else if k.has_int128 {
        if k.has_unsigned {
            CType::UInt128
        } else {
            CType::Int128
        }
    } else if k.has_short {
        if k.has_unsigned {
            CType::UShort
        } else {
            CType::Short
        }
    } else if k.has_float {
        CType::Float
    } else if k.has_double {
        if k.longs > 0 {
            CType::LongDouble
        } else {
            CType::Double
        }
    } else if k.longs >= 2 {
        if k.has_unsigned {
            CType::ULongLong
        } else {
            CType::LongLong
        }
    } else if k.longs == 1 {
        if k.has_unsigned {
            CType::ULong
        } else {
            CType::Long
        }
    } else if k.has_unsigned {
        CType::UInt
    } else if k.has_complex && !k.has_int && !k.has_signed {
        CType::Double
    } else {
        CType::Int
    }
}

/// The type that the keywords name together.
pub fn combine(k: Keywords) -> (r: CType)
    ensures
        r@ == combined(k),
{
    if k.has_void {
        CType::Void
    } else if k.has_bool {
        CType::Bool
    } else {
        let t: CType = scalar_type(k);
        if k.has_complex {
            CType::Complex(Box::new(t))
        } else {
            t
        }
    }
}

/// The qualifiers of a list.
pub fn build_type_qualifiers(s: &Vec<TypeQualifier>) -> (r: TypeQualifiers)
    ensures
        r == quals_of(s@),
{
    let mut r: TypeQualifiers = TypeQualifiers::default();
    let mut i: usize = 0;
    while i < s.len()
        invariant
            i <= s@.len(),
            r == quals_of(s@.take(i as int)),
        decreases s@.len() - i,
    {
        let ghost before = s@.take(i as int);
        assert(s@.take(i + 1) =~= before.push(s@[i as int]));
        proof {
            assert forall|q: TypeQualifier| #[trigger]
                before.push(s@[i as int]).contains(q) == (before.contains(q) || q
                == s@[i as int]) by {
                if before.contains(q) {
                    let k = before.index_of(q);
                    assert(before.push(s@[i as int])[k] == q);
                }
                assert(before.push(s@[i as int])[i as int] == s@[i as int]);
            }
        }
        match s[i] {
            TypeQualifier::Const => {
                r.is_const = true;
            },
            TypeQualifier::Volatile => {
                r.is_volatile = true;
            },
            TypeQualifier::Restrict => {
                r.is_restrict = true;
            },
            TypeQualifier::Atomic => {
                r.is_atomic = true;
            },
        }
        i += 1;
    }
    assert(s@.take(i as int) =~= s@);
    r
}

/// A type with qualifiers, if there are any.
pub fn qualify(t: CType, q: TypeQualifiers) -> (r: CType)
    ensures
        r@ == qualified(t@, q),
{
    if q.is_empty() {
        t
    } else {
        CType::Qualified(Box::new(t), q)
    }
}

/// A type behind a pointer prefix.
pub fn apply_pointer_to_type(t: CType, p: &Pointer) -> (r: CType)
    ensures
        r@ == behind_pointer(t@, *p),
    decreases p,
{
    let one: CType = CType::Pointer(Box::new(t), build_type_qualifiers(&p.qualifiers));
    match &p.inner {
        Some(inner) => apply_pointer_to_type(one, inner),
        None => one,
    }
}

/// A type behind a pointer prefix, if there is one.
pub fn apply_pointers(t: CType, p: &Option<Pointer>) -> (r: CType)
    ensures
        r@ == behind_pointers(t@, *p),
{
    match p {
        Some(x) => apply_pointer_to_type(t, x),
        None => t,
    }
}

/// The name that a declarator declares.
pub fn extract_declarator_name(d: &Declarator) -> (r: Symbol)
    ensures
        r == direct_name(d.direct),
{
    extract_direct_declarator_name(&d.direct)
}

/// The name that a direct declarator declares.
pub fn extract_direct_declarator_name(d: &DirectDeclarator) -> (r: Symbol)
    ensures
        r == direct_name(*d),
    decreases d,
{
    match d {
        DirectDeclarator::Identifier(sym, _) => *sym,
        DirectDeclarator::Parenthesized(inner) => extract_direct_declarator_name(&inner.direct),
        DirectDeclarator::Array { base, .. } => extract_direct_declarator_name(base),
        DirectDeclarator::Function { base, .. } => extract_direct_declarator_name(base),
    }
}

/// Whether a direct declarator holds a parameter list.
pub fn direct_declarator_has_nested_function(d: &DirectDeclarator) -> (r: bool)
    ensures
        r == holds_function(*d),
    decreases d,
{
    match d {
        DirectDeclarator::Identifier(_, _) => false,
        DirectDeclarator::Parenthesized(inner) => direct_declarator_has_nested_function(
            &inner.direct,
        ),
        DirectDeclarator::Array { base, .. } => direct_declarator_has_nested_function(base),
        DirectDeclarator::Function { .. } => true,
    }
}

/// The storage class that the specifiers give.
pub fn resolve_storage_class(specs: &DeclarationSpecifiers) -> (r: StorageClass)
    ensures
        r == storage_of(specs.storage_class),
{
    match specs.storage_class {
        Some(ast::StorageClass::Auto) => StorageClass::Auto,
        Some(ast::StorageClass::Register) => StorageClass::Register,
        Some(ast::StorageClass::Static) => StorageClass::Static,
        Some(ast::StorageClass::Extern) => StorageClass::Extern,
        Some(ast::StorageClass::Typedef) => StorageClass::Typedef,
        Some(ast::StorageClass::ThreadLocal) => StorageClass::ThreadLocal,
        None => StorageClass::Auto,
    }
}

} // verus!
