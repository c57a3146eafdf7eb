//! Types of the intermediate representation.

use crate::common::layout::{plain_size, size_spec, sizeof_ctype};
use crate::common::target::Target;
use crate::common::types::{fields_of, types_of, CType, Field, StructField, Ty};
use vstd::prelude::*;

verus! {

broadcast use crate::common::types::group_type_models;

/// A type without qualifiers, names or signedness.
#[derive(Debug)]
pub enum IrType {
    Void,
    I8,
    I16,
    I32,
    I64,
    I128,
    F32,
    F64,
    F80,
    F128,
    /// A pointer to anything.
    Ptr,
    Array(Box<IrType>, usize),
    Struct { fields: Vec<IrType>, packed: bool },
    Function { return_type: Box<IrType>, params: Vec<IrType>, variadic: bool },
}

/// The size in bytes of a scalar; other types have none here.
pub open spec fn scalar_bytes(t: IrType) -> Option<int> {
    match t {
        IrType::I8 => Some(1),
        IrType::I16 => Some(2),
        IrType::I32 => Some(4),
        IrType::I64 => Some(8),
        IrType::I128 => Some(16),
        IrType::F32 => Some(4),
        IrType::F64 => Some(8),
        _ => None,
    }
}

/// The type of `long`.
pub open spec fn ir_long(target: Target) -> IrType {
    if target.is_lp64() {
        IrType::I64
    } else {
        IrType::I32
    }
}

/// The type of `long double`: extended precision on x86, quadruple elsewhere.
pub open spec fn ir_long_double(target: Target) -> IrType {
    match target {
        Target::X86_64 => IrType::F80,
        Target::I686 => IrType::F80,
        Target::AArch64 => IrType::F128,
        Target::RiscV64 => IrType::F128,
    }
}

/// Whether `r` is what a C type becomes on a target.
pub open spec fn lowers_to(t: Ty, target: Target, r: IrType) -> bool
    decreases t,
{
    match t {
        Ty::Void => r is Void,
        Ty::Bool => r is I8,
        Ty::Char => r is I8,
        Ty::SChar => r is I8,
        Ty::UChar => r is I8,
        Ty::Short => r is I16,
        Ty::UShort => r is I16,
        Ty::Int => r is I32,
        Ty::UInt => r is I32,
        Ty::Long => r == ir_long(target),
        Ty::ULong => r == ir_long(target),
        Ty::LongLong => r is I64,
        Ty::ULongLong => r is I64,
        Ty::Int128 => r is I128,
        Ty::UInt128 => r is I128,
        Ty::Float => r is F32,
        Ty::Double => r is F64,
        Ty::LongDouble => r == ir_long_double(target),
        Ty::Complex(base) => match r {
            IrType::Array(elem, n) => n == 2 && lowers_to(*base, target, *elem),
            _ => false,
        },
        Ty::Pointer(_, _) => r is Ptr,
        Ty::Array(base, len) => match r {
            IrType::Array(elem, n) => n == (match len {
                Some(k) => k,
                None => 0,
            }) && lowers_to(*base, target, *elem),
            _ => false,
        },
        Ty::Function { return_type, params, variadic } => match r {
            IrType::Function { return_type: out, params: ins, variadic: more } => more == variadic
                && lowers_to(*return_type, target, *out) && types_lower_to(params, target, ins@),
            _ => false,
        },
        Ty::Struct { fields, packed, .. } => match r {
            IrType::Struct { fields: fs, packed: p } => p == packed && fields_lower_to(
                fields,
                target,
                fs@,
            ),
            _ => false,
        },
        Ty::Union { .. } => match r {
            IrType::Array(elem, n) => n == plain_size(t, target) && *elem is I8,
            _ => false,
        },
        Ty::Enum { underlying_type, .. } => lowers_to(*underlying_type, target, r),
        Ty::Atomic(inner) => lowers_to(*inner, target, r),
        Ty::Typedef { underlying, .. } => lowers_to(*underlying, target, r),
        Ty::Qualified(inner, _) => lowers_to(*inner, target, r),
    }
}

/// Whether each of `rs` is what the type at its place becomes.
pub open spec fn types_lower_to(ts: Seq<Ty>, target: Target, rs: Seq<IrType>) -> bool
    decreases ts,
{
    &&& rs.len() == ts.len()
    &&& forall|i: int|
        #![trigger rs[i]]
        0 <= i < rs.len() ==> 0 <= i < ts.len() && lowers_to(ts[i], target, rs[i])
}

/// Whether each of `rs` is what the member at its place becomes.
pub open spec fn fields_lower_to(fs: Seq<Field>, target: Target, rs: Seq<IrType>) -> bool
    decreases fs,
{
    &&& rs.len() == fs.len()
    &&& forall|i: int|
        #![trigger rs[i]]
        0 <= i < rs.len() ==> 0 <= i < fs.len() && lowers_to(fs[i].ty, target, rs[i])
}

/// A C type that becomes a number takes up as many bytes as that number.
pub proof fn lemma_scalar_keeps_its_size(
    t: Ty,
    target: Target,
    r: IrType,
    tags: Map<Seq<char>, Ty>,
    fuel: nat,
)
    requires
        lowers_to(t, target, r),
        scalar_bytes(r) is Some,
    ensures
        size_spec(t, target, tags, fuel) == scalar_bytes(r)->0,
    decreases t,
{
    match t {
        Ty::Enum { underlying_type, .. } => lemma_scalar_keeps_its_size(
            *underlying_type,
            target,
            r,
            tags,
            fuel,
        ),
        Ty::Atomic(inner) => lemma_scalar_keeps_its_size(*inner, target, r, tags, fuel),
        Ty::Typedef { underlying, .. } => lemma_scalar_keeps_its_size(
            *underlying,
            target,
            r,
            tags,
            fuel,
        ),
        Ty::Qualified(inner, _) => lemma_scalar_keeps_its_size(*inner, target, r, tags, fuel),
        _ => {},
    }
}

/// The bytes that a value of a type takes up, for a type in which no struct and no
/// function stands.
pub open spec fn ir_bytes(t: IrType, target: Target) -> int
    decreases t,
{
    match t {
        IrType::I8 => 1,
        IrType::I16 => 2,
        IrType::I32 => 4,
        IrType::I64 => 8,
        IrType::I128 => 16,
        IrType::F32 => 4,
        IrType::F64 => 8,
        IrType::F80 => if target == Target::I686 {
            12
        } else {
            16
        },
        IrType::F128 => 16,
        IrType::Ptr => if target == Target::I686 {
            4
        } else {
            8
        },
        IrType::Array(elem, n) => n * ir_bytes(*elem, target),
        _ => 0,
    }
}

/// Whether a C type consists of numbers, pointers, unions and arrays of these.
pub open spec fn is_flat(t: Ty) -> bool
    decreases t,
{
    match t {
        Ty::Void => false,
        Ty::Struct { .. } => false,
        Ty::Function { .. } => false,
        Ty::Array(inner, n) => n is Some && is_flat(*inner),
        Ty::Complex(inner) => is_flat(*inner),
        Ty::Enum { underlying_type, .. } => is_flat(*underlying_type),
        Ty::Atomic(inner) => is_flat(*inner),
        Ty::Typedef { underlying, .. } => is_flat(*underlying),
        Ty::Qualified(inner, _) => is_flat(*inner),
        _ => true,
    }
}

/// What a C type of numbers, pointers, unions and arrays becomes takes up as many bytes as
/// the C type.
pub proof fn lemma_lowering_keeps_size(t: Ty, target: Target, r: IrType)
    requires
        is_flat(t),
        lowers_to(t, target, r),
        plain_size(t, target) < usize::MAX,
    ensures
        ir_bytes(r, target) == plain_size(t, target),
    decreases t,
{
    match t {
        Ty::Array(inner, n) => match r {
            IrType::Array(elem, k) => {
                let size: int = plain_size(*inner, target) as int;
                if k > 0 {
                    assert(size * k >= size) by (nonlinear_arith)
                        requires
                            k >= 1,
                            size >= 0,
                    ;
                    lemma_lowering_keeps_size(*inner, target, *elem);
                    assert(size * k == k * size) by (nonlinear_arith);
                } else {
                    assert(size * 0 == 0);
                    assert(0 * ir_bytes(*elem, target) == 0);
                }
            },
            _ => {},
        },
        Ty::Complex(inner) => match r {
            IrType::Array(elem, _) => lemma_lowering_keeps_size(*inner, target, *elem),
            _ => {},
        },
        Ty::Union { .. } => match r {
            IrType::Array(elem, n) => {
                assert(ir_bytes(*elem, target) == 1);
                assert(n * 1 == n);
            },
            _ => {},
        },
        Ty::Enum { underlying_type, .. } => lemma_lowering_keeps_size(*underlying_type, target, r),
        Ty::Atomic(inner) => lemma_lowering_keeps_size(*inner, target, r),
        Ty::Typedef { underlying, .. } => lemma_lowering_keeps_size(*underlying, target, r),
        Ty::Qualified(inner, _) => lemma_lowering_keeps_size(*inner, target, r),
        _ => {},
    }
}

/// A real floating type becomes a floating type, an integer type an integer, a pointer a
/// pointer; a struct has as many members as before and is packed if it was, and a function
/// as many parameters.
pub proof fn lemma_lowering_keeps_kind(t: Ty, target: Target, r: IrType)
    requires
        lowers_to(t, target, r),
    ensures
        t is Float || t is Double || t is LongDouble <==> (r is F32 || r is F64 || r is F80
            || r is F128) && !(t is Enum || t is Atomic || t is Typedef || t is Qualified),
        t is Pointer ==> r is Ptr,
        t is Char || t is SChar || t is UChar || t is Short || t is UShort || t is Int || t is UInt
            || t is Long || t is ULong || t is LongLong || t is ULongLong || t is Int128
            || t is UInt128 || t is Bool ==> r is I8 || r is I16 || r is I32 || r is I64
            || r is I128,
        t matches Ty::Struct { fields, packed, .. } ==> (r matches IrType::Struct {
            fields: fs,
            packed: p,
        } && fs@.len() == fields.len() && p == packed),
        t matches Ty::Function { params, variadic, .. } ==> (r matches IrType::Function {
            params: ps,
            variadic: v,
            ..
        } && ps@.len() == params.len() && v == variadic),
{
    match t {
        Ty::Struct { fields, .. } => match r {
            IrType::Struct { fields: fs, .. } => {
                assert(fields_lower_to(fields, target, fs@));
            },
            _ => {},
        },
        Ty::Function { params, .. } => match r {
            IrType::Function { params: ps, .. } => {
                assert(types_lower_to(params, target, ps@));
            },
            _ => {},
        },
        _ => {},
    }
}

impl IrType {
    /// What a C type becomes. A union is an array of bytes; typedefs,
    /// qualifiers, enums and `_Atomic` stand for what they are made of.
    pub fn from_ctype(t: &CType, target: Target) -> (r: IrType)
        ensures
            lowers_to(t@, target, r),
        decreases t,
    {
        match t {
            CType::Void => IrType::Void,
            CType::Bool => IrType::I8,
            CType::Char => IrType::I8,
            CType::SChar => IrType::I8,
            CType::UChar => IrType::I8,
            CType::Short => IrType::I16,
            CType::UShort => IrType::I16,
            CType::Int => IrType::I32,
            CType::UInt => IrType::I32,
            CType::Long => IrType::long_type(target),
            CType::ULong => IrType::long_type(target),
            CType::LongLong => IrType::I64,
            CType::ULongLong => IrType::I64,
            CType::Int128 => IrType::I128,
            CType::UInt128 => IrType::I128,
            CType::Float => IrType::F32,
            CType::Double => IrType::F64,
            CType::LongDouble => match target {
                Target::X86_64 => IrType::F80,
                Target::I686 => IrType::F80,
                Target::AArch64 => IrType::F128,
                Target::RiscV64 => IrType::F128,
            },
            CType::Complex(base) => IrType::Array(Box::new(IrType::from_ctype(base, target)), 2),
            CType::Pointer(_, _) => IrType::Ptr,
            CType::Array(base, len) => {
                let n: usize = match len {
                    Some(k) => *k,
                    None => 0,
                };
                IrType::Array(Box::new(IrType::from_ctype(base, target)), n)
            },
            CType::Function { return_type, params, variadic } => {
                assert(types_of(params@).len() == params@.len());
                let out: IrType = IrType::from_ctype(return_type, target);
                let ins: Vec<IrType> = IrType::from_types(params, target);
                IrType::Function { return_type: Box::new(out), params: ins, variadic: *variadic }
            },
            CType::Struct { fields, packed, .. } => {
                assert(fields_of(fields@).len() == fields@.len());
                let fs: Vec<IrType> = IrType::from_fields(fields, target);
                IrType::Struct { fields: fs, packed: *packed }
            },
            CType::Union { .. } => IrType::Array(
                Box::new(IrType::I8),
                sizeof_ctype(t, target),
            ),
            CType::Enum { underlying_type, .. } => IrType::from_ctype(underlying_type, target),
            CType::Atomic(inner) => IrType::from_ctype(inner, target),
            CType::Typedef { underlying, .. } => IrType::from_ctype(underlying, target),
            CType::Qualified(inner, _) => IrType::from_ctype(inner, target),
        }
    }

    fn long_type(target: Target) -> (r: IrType)
        ensures
            r == ir_long(target),
    {
        if target.long_size() == 8 {
            IrType::I64
        } else {
            IrType::I32
        }
    }

    fn from_types(ts: &Vec<CType>, target: Target) -> (r: Vec<IrType>)
        ensures
            types_lower_to(types_of(ts@), target, r@),
        decreases ts@,
    {
        let mut out: Vec<IrType> = Vec::new();
        let mut i: usize = 0;
        #[verifier::loop_isolation(false)]
        while i < ts.len()
            invariant
                i <= ts@.len(),
                out@.len() == i,
                forall|j: int|
                    #![trigger out@[j]]
                    0 <= j < i ==> lowers_to(types_of(ts@)[j], target, out@[j]),
            decreases ts@.len() - i,
        {
            assert(types_of(ts@)[i as int] == ts@[i as int]@);
            out.push(IrType::from_ctype(&ts[i], target));
            i += 1;
        }
        out
    }

    fn from_fields(fs: &Vec<StructField>, target: Target) -> (r: Vec<IrType>)
        ensures
            fields_lower_to(fields_of(fs@), target, r@),
        decreases fs@,
    {
        let mut out: Vec<IrType> = Vec::new();
        let mut i: usize = 0;
        #[verifier::loop_isolation(false)]
        while i < fs.len()
            invariant
                i <= fs@.len(),
                out@.len() == i,
                forall|j: int|
                    #![trigger out@[j]]
                    0 <= j < i ==> lowers_to(fields_of(fs@)[j].ty, target, out@[j]),
            decreases fs@.len() - i,
        {
            assert(fields_of(fs@)[i as int].ty == fs@[i as int].ty@);
            out.push(IrType::from_ctype(&fs[i].ty, target));
            i += 1;
        }
        out
    }
}

} // verus!
