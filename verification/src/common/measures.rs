//! How the sizes and alignments of types relate to each other.

use crate::common::layout::{
    align_spec, fields_align, place, round_up, saturated, size_spec, tag_reference,
};
use crate::common::target::Target;
use crate::common::types::{Field, Ty, TypeQualifiers};
use vstd::arithmetic::power2::is_pow2;
use vstd::prelude::*;

verus! {

/// Types of one width with and without a sign are equally large and equally aligned,
/// and each wider type is at least as large as the one before it. A character takes up
/// one byte, and a pointer as much as a `long`.
pub proof fn lemma_sizes_of_arithmetic_types(
    target: Target,
    tags: Map<Seq<char>, Ty>,
    fuel: nat,
    p: Ty,
)
    requires
        p is Pointer,
    ensures
        ({
            let size = |t: Ty| size_spec(t, target, tags, fuel) as int;
            let align = |t: Ty| align_spec(t, target, tags, fuel) as int;
            &&& size(Ty::Char) == 1 && size(Ty::SChar) == 1 && size(Ty::UChar) == 1
            &&& size(Ty::Bool) == 1 && size(Ty::Void) == 1
            &&& size(Ty::Short) == 2 && size(Ty::UShort) == size(Ty::Short)
            &&& size(Ty::Int) == 4 && size(Ty::UInt) == size(Ty::Int)
            &&& size(Ty::Long) == (if target == Target::I686 {
                4int
            } else {
                8
            }) && size(Ty::ULong) == size(Ty::Long) && size(p) == size(Ty::Long)
            &&& size(Ty::LongLong) == 8 && size(Ty::ULongLong) == size(Ty::LongLong)
            &&& size(Ty::Int128) == 16 && size(Ty::UInt128) == size(Ty::Int128)
            &&& size(Ty::Float) == 4 && size(Ty::Double) == 8
            &&& size(Ty::LongDouble) == if target == Target::I686 {
                12int
            } else {
                16
            }
            &&& align(Ty::Char) == 1 && align(Ty::SChar) == 1 && align(Ty::UChar) == 1
            &&& align(Ty::Bool) == 1
            &&& align(Ty::Short) == 2 && align(Ty::UShort) == 2
            &&& align(Ty::Int) == 4 && align(Ty::UInt) == 4 && align(Ty::Float) == 4
            &&& align(Ty::Long) == size(Ty::Long) && align(Ty::ULong) == size(Ty::Long)
            &&& align(p) == size(p)
            &&& align(Ty::Double) == size(Ty::Long) && align(Ty::LongLong) == size(Ty::Long)
            &&& align(Ty::ULongLong) == size(Ty::Long)
            &&& align(Ty::Int128) == 16 && align(Ty::UInt128) == 16
            &&& align(Ty::LongDouble) == if target == Target::I686 {
                4int
            } else {
                16
            }
        }),
{
}

/// An array is as large as its elements together and aligned as one of them; a complex
/// number consists of two parts; an enum, an atomic type, a typedef name and a
/// qualified type measure what they stand for.
pub proof fn lemma_sizes_of_made_types(
    t: Ty,
    n: usize,
    q: TypeQualifiers,
    name: Seq<char>,
    tag: Option<Seq<char>>,
    target: Target,
    tags: Map<Seq<char>, Ty>,
    fuel: nat,
)
    ensures
        ({
            let size = |x: Ty| size_spec(x, target, tags, fuel) as int;
            let align = |x: Ty| align_spec(x, target, tags, fuel) as int;
            let array = Ty::Array(Box::new(t), Some(n));
            let complex = Ty::Complex(Box::new(t));
            let qualified = Ty::Qualified(Box::new(t), q);
            let typedef = Ty::Typedef { name, underlying: Box::new(t) };
            let enumeration = Ty::Enum { name: tag, underlying_type: Box::new(t) };
            let atomic = Ty::Atomic(Box::new(t));
            &&& size(t) * n <= usize::MAX ==> size(array) == size(t) * n
            &&& align(array) == align(t)
            &&& 2 * size(t) <= usize::MAX ==> size(complex) == 2 * size(t)
            &&& align(complex) == align(t)
            &&& size(qualified) == size(t) && align(qualified) == align(t)
            &&& size(typedef) == size(t) && align(typedef) == align(t)
            &&& size(enumeration) == size(t) && align(enumeration) == align(t)
            &&& size(atomic) == size(t) && align(atomic) == align(t)
        }),
{
    assert(size_spec(t, target, tags, fuel) * n >= 0) by (nonlinear_arith);
}

/// A struct or union that is not packed and asks for nothing else is aligned as one of
/// its members, and no member is aligned more strictly.
pub proof fn lemma_alignment_of_aggregate(
    t: Ty,
    fields: Seq<Field>,
    k: int,
    target: Target,
    tags: Map<Seq<char>, Ty>,
    fuel: nat,
)
    requires
        match t {
            Ty::Struct { fields: fs, packed, aligned, .. } => fs == fields && !packed && aligned
                is None,
            Ty::Union { fields: fs, packed, aligned, .. } => fs == fields && !packed && aligned
                is None,
            _ => false,
        },
        0 <= k < fields.len(),
    ensures
        align_spec(fields[k].ty, target, tags, fuel) <= align_spec(t, target, tags, fuel),
        exists|j: int|
            0 <= j < fields.len() && align_spec(
                (#[trigger] fields[j]).ty,
                target,
                tags,
                fuel,
            ) == align_spec(t, target, tags, fuel),
{
    lemma_members_alignment(fields, 0, k, target, tags, fuel);
}

/// A struct or union with members that asks to be aligned at a power of two is aligned so,
/// packed or not.
pub proof fn lemma_asked_alignment_is_had(
    t: Ty,
    n: usize,
    target: Target,
    tags: Map<Seq<char>, Ty>,
    fuel: nat,
)
    requires
        match t {
            Ty::Struct { fields, aligned, .. } => fields.len() > 0 && aligned == Some(n),
            Ty::Union { fields, aligned, .. } => fields.len() > 0 && aligned == Some(n),
            _ => false,
        },
        is_pow2(n as int),
    ensures
        align_spec(t, target, tags, fuel) == n,
{
}

proof fn lemma_members_alignment(
    fields: Seq<Field>,
    i: int,
    k: int,
    target: Target,
    tags: Map<Seq<char>, Ty>,
    fuel: nat,
)
    requires
        0 <= i <= k < fields.len(),
    ensures
        align_spec(fields[k].ty, target, tags, fuel) <= fields_align(
            fields,
            i,
            target,
            tags,
            fuel,
        ),
        exists|j: int|
            i <= j < fields.len() && align_spec(
                (#[trigger] fields[j]).ty,
                target,
                tags,
                fuel,
            ) == fields_align(fields, i, target, tags, fuel),
    decreases fields.len() - i,
{
    let here = align_spec(fields[i].ty, target, tags, fuel);
    let rest = fields_align(fields, i + 1, target, tags, fuel);
    crate::common::layout::lemma_alignment_is_power_of_two(fields[i].ty, target, tags, fuel);
    if i + 1 < fields.len() {
        let next = if k > i {
            k
        } else {
            i + 1
        };
        lemma_members_alignment(fields, i + 1, next, target, tags, fuel);
    } else {
        assert(rest == 1);
    }
    if here >= rest {
        assert(fields_align(fields, i, target, tags, fuel) == here);
    } else {
        let j = choose|j: int|
            i + 1 <= j < fields.len() && align_spec(
                (#[trigger] fields[j]).ty,
                target,
                tags,
                fuel,
            ) == rest;
        assert(align_spec(fields[j].ty, target, tags, fuel) == fields_align(
            fields,
            i,
            target,
            tags,
            fuel,
        ));
    }
}

/// A bit-field that is no wider than its type begins where the member before it ends
/// and takes up as many bits as it says. One of width zero moves the next member to a
/// multiple of its alignment.
pub proof fn lemma_bit_fields_are_packed(bit: usize, width: u32, size: usize, align: usize)
    requires
        align >= 1,
        width <= size * 8,
        bit + size * 8 + align * 8 < usize::MAX,
    ensures
        width > 0 ==> place(bit, Some(width), size, align) == (bit, (bit + width) as usize),
        width == 0 ==> {
            let p = place(bit, Some(width), size, align);
            &&& p.0 == p.1
            &&& bit <= p.0 < bit + align * 8
            &&& p.0 as int % (align * 8) == 0
        },
{
    let to: usize = saturated(align * 8);
    let t: int = to as int;
    assert(to == align * 8);
    let q: int = (bit + t - 1) / t;
    vstd::arithmetic::div_mod::lemma_fundamental_div_mod(bit + t - 1, t);
    assert(bit <= q * t < bit + t) by (nonlinear_arith)
        requires
            bit + t - 1 == t * q + (bit + t - 1) % t,
            0 <= (bit + t - 1) % t < t,
            t > 1,
    ;
    vstd::arithmetic::div_mod::lemma_mod_multiples_basic(q, t);
    assert(round_up(bit, to) == q * t);
}

/// A tag that stands for a definition measures what the definition does.
pub proof fn lemma_tag_measures_its_definition(
    t: Ty,
    tag: Seq<char>,
    target: Target,
    tags: Map<Seq<char>, Ty>,
    fuel: nat,
)
    requires
        tag_reference(t) == Some(tag),
        tags.contains_key(tag),
    ensures
        size_spec(t, target, tags, fuel + 1) == size_spec(tags[tag], target, tags, fuel),
        align_spec(t, target, tags, fuel + 1) == align_spec(tags[tag], target, tags, fuel),
{
}

} // verus!
