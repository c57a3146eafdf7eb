//! Size and alignment of C types.
//!
//! Sizes are counts of bytes. A size that no `usize` can hold is given as the
//! largest `usize`.

use crate::common::target::Target;
use crate::common::types::{fields_of, ty_of, CType, Field, StructField, Ty};
use vstd::arithmetic::power2::is_pow2;
use vstd::hash_map::StringHashMap;
use vstd::prelude::*;

verus! {

broadcast use crate::common::types::group_type_models;

/// Types by tag name.
pub open spec fn tags_of(m: Map<Seq<char>, CType>) -> Map<Seq<char>, Ty> {
    m.map_values(|t: CType| ty_of(t))
}

/// `n` as a byte or bit count; what does not fit is the largest count.
pub open spec fn saturated(n: int) -> usize {
    if n > usize::MAX {
        usize::MAX
    } else if n < 0 {
        0
    } else {
        n as usize
    }
}

/// The least multiple of `to` that is not below `n`.
pub open spec fn round_up(n: usize, to: usize) -> usize {
    if to <= 1 {
        n
    } else {
        saturated(((n + to - 1) / (to as int)) * (to as int))
    }
}

/// Sum of two counts.
pub fn sat_add(a: usize, b: usize) -> (r: usize)
    ensures
        r == saturated(a + b),
{
    match a.checked_add(b) {
        Some(s) => s,
        None => usize::MAX,
    }
}

/// Product of two counts.
pub fn sat_mul(a: usize, b: usize) -> (r: usize)
    ensures
        r == saturated(a * b),
{
    proof {
        assert(a * b >= 0) by (nonlinear_arith);
    }
    match a.checked_mul(b) {
        Some(s) => s,
        None => usize::MAX,
    }
}

/// The least multiple of `to` that is not below `n`.
pub fn align_up(n: usize, to: usize) -> (r: usize)
    ensures
        r == round_up(n, to),
{
    if to <= 1 {
        return n;
    }
    let rem: usize = n % to;
    let q: usize = n / to;
    proof {
        let a: int = n as int;
        let t: int = to as int;
        assert(a == q * t + rem) by {
            vstd::arithmetic::div_mod::lemma_fundamental_div_mod(a, t);
            assert(q * t == t * q) by (nonlinear_arith);
        }
        if rem == 0 {
            assert((a + t - 1) / t == q) by (nonlinear_arith)
                requires
                    a == q * t,
                    t > 1,
            ;
        } else {
            assert((a + t - 1) / t == q + 1) by (nonlinear_arith)
                requires
                    a == q * t + rem,
                    0 < rem < t,
                    t > 1,
            ;
            assert((q + 1) * t == q * t + t) by (nonlinear_arith);
        }
        assert(q * t >= 0) by (nonlinear_arith)
            requires
                q >= 0,
                t > 1,
        ;
    }
    if rem == 0 {
        n
    } else {
        let base: usize = n - rem;
        sat_add(base, to)
    }
}

/// Whether `n` is a power of two.
pub fn is_power_of_two(n: usize) -> (r: bool)
    ensures
        r == is_pow2(n as int),
{
    proof {
        reveal(is_pow2);
    }
    if n == 0 {
        return false;
    }
    let mut m: usize = n;
    while m > 1
        invariant
            m >= 1,
            is_pow2(n as int) == is_pow2(m as int),
        decreases m,
    {
        proof {
            reveal(is_pow2);
        }
        if m % 2 != 0 {
            return false;
        }
        m = m / 2;
    }
    true
}

/// The tag whose definition a type stands for: a struct or union that has a
/// name and no members.
pub open spec fn tag_reference(t: Ty) -> Option<Seq<char>> {
    match t {
        Ty::Struct { name: Some(n), fields, .. } => if fields.len() == 0 {
            Some(n)
        } else {
            None
        },
        Ty::Union { name: Some(n), fields, .. } => if fields.len() == 0 {
            Some(n)
        } else {
            None
        },
        _ => None,
    }
}

/// Where a member of a struct begins and where the next may begin, in bits.
pub open spec fn place(
    bit_offset: usize,
    bit_width: Option<u32>,
    size: usize,
    align: usize,
) -> (usize, usize) {
    match bit_width {
        Some(bits) => {
            let boundary = round_up(bit_offset, saturated(align * 8));
            if bits == 0 {
                (boundary, boundary)
            } else {
                let unit_end = saturated(boundary + saturated(size * 8));
                let start = if saturated(bit_offset + bits) <= unit_end {
                    bit_offset
                } else {
                    boundary
                };
                (start, saturated(start + bits))
            }
        },
        None => {
            let byte = round_up((bit_offset / 8 + if bit_offset % 8 != 0 {
                1int
            } else {
                0int
            }) as usize, align);
            let start = saturated(byte * 8);
            (start, saturated(start + saturated(size * 8)))
        },
    }
}

/// Bytes that hold `bits` bits.
pub open spec fn bytes_for(bits: usize) -> usize {
    (bits / 8 + if bits % 8 != 0 {
        1int
    } else {
        0int
    }) as usize
}

/// The greater of two counts.
pub open spec fn larger(a: usize, b: usize) -> usize {
    if a >= b {
        a
    } else {
        b
    }
}

/// The alignment of a struct or union whose members ask for `natural`.
pub open spec fn explicit_align(natural: usize, aligned: Option<usize>) -> usize {
    match aligned {
        Some(n) => if is_pow2(n as int) {
            n
        } else {
            natural
        },
        None => natural,
    }
}

/// Alignment of a type in bytes. Tag references are looked up in `tags`, at most
/// `fuel` of them one inside the other.
pub open spec fn align_spec(t: Ty, target: Target, tags: Map<Seq<char>, Ty>, fuel: nat) -> usize
    decreases fuel, t, 0int,
{
    match t {
        Ty::Void | Ty::Bool | Ty::Char | Ty::SChar | Ty::UChar => 1,
        Ty::Short | Ty::UShort => 2,
        Ty::Int | Ty::UInt | Ty::Float => 4,
        Ty::Long | Ty::ULong | Ty::Pointer(_, _) => if target.is_lp64() {
            8
        } else {
            4
        },
        Ty::LongLong | Ty::ULongLong | Ty::Double => if target.is_lp64() {
            8
        } else {
            4
        },
        Ty::Int128 | Ty::UInt128 => 16,
        Ty::LongDouble => if target.is_lp64() {
            16
        } else {
            4
        },
        Ty::Complex(inner) => align_spec(*inner, target, tags, fuel),
        Ty::Array(inner, _) => align_spec(*inner, target, tags, fuel),
        Ty::Function { .. } => 1,
        Ty::Struct { fields, packed, aligned, .. } => match tag_reference(t) {
            Some(n) if tags.contains_key(n) && fuel > 0 => align_spec(
                tags[n],
                target,
                tags,
                (fuel - 1) as nat,
            ),
            _ => explicit_align(
                if packed {
                    1
                } else {
                    fields_align(fields, 0, target, tags, fuel)
                },
                aligned,
            ),
        },
        Ty::Union { fields, packed, aligned, .. } => match tag_reference(t) {
            Some(n) if tags.contains_key(n) && fuel > 0 => align_spec(
                tags[n],
                target,
                tags,
                (fuel - 1) as nat,
            ),
            _ => explicit_align(
                if packed {
                    1
                } else {
                    fields_align(fields, 0, target, tags, fuel)
                },
                aligned,
            ),
        },
        Ty::Enum { underlying_type, .. } => align_spec(*underlying_type, target, tags, fuel),
        Ty::Atomic(inner) => align_spec(*inner, target, tags, fuel),
        Ty::Typedef { underlying, .. } => align_spec(*underlying, target, tags, fuel),
        Ty::Qualified(inner, _) => align_spec(*inner, target, tags, fuel),
    }
}

/// The greatest alignment among the members from the `i`-th on.
pub open spec fn fields_align(
    fields: Seq<Field>,
    i: int,
    target: Target,
    tags: Map<Seq<char>, Ty>,
    fuel: nat,
) -> usize
    decreases fuel, fields, fields.len() - i,
{
    if i < 0 || i >= fields.len() {
        1
    } else {
        larger(
            align_spec(fields[i].ty, target, tags, fuel),
            fields_align(fields, i + 1, target, tags, fuel),
        )
    }
}

/// Size of a type in bytes. Tag references are looked up in `tags`, at most
/// `fuel` of them one inside the other.
pub open spec fn size_spec(t: Ty, target: Target, tags: Map<Seq<char>, Ty>, fuel: nat) -> usize
    decreases fuel, t, 0int,
{
    match t {
        Ty::Void | Ty::Bool | Ty::Char | Ty::SChar | Ty::UChar | Ty::Function { .. } => 1,
        Ty::Short | Ty::UShort => 2,
        Ty::Int | Ty::UInt | Ty::Float => 4,
        Ty::Long | Ty::ULong | Ty::Pointer(_, _) => if target.is_lp64() {
            8
        } else {
            4
        },
        Ty::LongLong | Ty::ULongLong | Ty::Double => 8,
        Ty::Int128 | Ty::UInt128 => 16,
        Ty::LongDouble => if target.is_lp64() {
            16
        } else {
            12
        },
        Ty::Complex(inner) => saturated(2 * size_spec(*inner, target, tags, fuel)),
        Ty::Array(inner, n) => match n {
            Some(count) => saturated(size_spec(*inner, target, tags, fuel) * count),
            None => 0,
        },
        Ty::Struct { fields, packed, .. } => match tag_reference(t) {
            Some(n) if tags.contains_key(n) && fuel > 0 => size_spec(
                tags[n],
                target,
                tags,
                (fuel - 1) as nat,
            ),
            _ => round_up(
                bytes_for(fields_end(fields, 0, 0, packed, target, tags, fuel)),
                align_spec(t, target, tags, fuel),
            ),
        },
        Ty::Union { fields, .. } => match tag_reference(t) {
            Some(n) if tags.contains_key(n) && fuel > 0 => size_spec(
                tags[n],
                target,
                tags,
                (fuel - 1) as nat,
            ),
            _ => round_up(
                fields_extent(fields, 0, target, tags, fuel),
                align_spec(t, target, tags, fuel),
            ),
        },
        Ty::Enum { underlying_type, .. } => size_spec(*underlying_type, target, tags, fuel),
        Ty::Atomic(inner) => size_spec(*inner, target, tags, fuel),
        Ty::Typedef { underlying, .. } => size_spec(*underlying, target, tags, fuel),
        Ty::Qualified(inner, _) => size_spec(*inner, target, tags, fuel),
    }
}

/// The alignment that a member gets in its struct.
pub open spec fn member_align(
    t: Ty,
    packed: bool,
    target: Target,
    tags: Map<Seq<char>, Ty>,
    fuel: nat,
) -> usize {
    if packed {
        1
    } else {
        align_spec(t, target, tags, fuel)
    }
}

/// Where the members of a struct from the `i`-th on end, in bits, if the first
/// of them may begin at `bit_offset`.
pub open spec fn fields_end(
    fields: Seq<Field>,
    i: int,
    bit_offset: usize,
    packed: bool,
    target: Target,
    tags: Map<Seq<char>, Ty>,
    fuel: nat,
) -> usize
    decreases fuel, fields, fields.len() - i,
{
    if i < 0 || i >= fields.len() {
        bit_offset
    } else {
        let f = fields[i];
        let next = place(
            bit_offset,
            f.bit_width,
            size_spec(f.ty, target, tags, fuel),
            member_align(f.ty, packed, target, tags, fuel),
        ).1;
        fields_end(fields, i + 1, next, packed, target, tags, fuel)
    }
}

/// Bytes that a union member takes up.
pub open spec fn member_extent(
    f: Field,
    size: usize,
) -> usize {
    match f.bit_width {
        Some(bits) => bytes_for(bits as usize),
        None => size,
    }
}

/// The size of the largest of the members from the `i`-th on.
pub open spec fn fields_extent(
    fields: Seq<Field>,
    i: int,
    target: Target,
    tags: Map<Seq<char>, Ty>,
    fuel: nat,
) -> usize
    decreases fuel, fields, fields.len() - i,
{
    if i < 0 || i >= fields.len() {
        0
    } else {
        larger(
            member_extent(fields[i], size_spec(fields[i].ty, target, tags, fuel)),
            fields_extent(fields, i + 1, target, tags, fuel),
        )
    }
}

/// Size of a type whose tag references are found in `tags`.
pub open spec fn size_with_tags(t: Ty, target: Target, tags: Map<Seq<char>, Ty>) -> usize {
    size_spec(t, target, tags, tags.dom().len())
}

/// Alignment of a type whose tag references are found in `tags`.
pub open spec fn align_with_tags(t: Ty, target: Target, tags: Map<Seq<char>, Ty>) -> usize {
    align_spec(t, target, tags, tags.dom().len())
}

/// Size of a type on its own.
pub open spec fn plain_size(t: Ty, target: Target) -> usize {
    size_spec(t, target, Map::empty(), 0)
}

/// Alignment of a type on its own.
pub open spec fn plain_align(t: Ty, target: Target) -> usize {
    align_spec(t, target, Map::empty(), 0)
}

/// Bytes that hold `bits` bits.
pub fn bytes_of_bits(bits: usize) -> (r: usize)
    ensures
        r == bytes_for(bits),
{
    if bits % 8 != 0 {
        bits / 8 + 1
    } else {
        bits / 8
    }
}

/// Where a member begins and where the next may begin, in bits.
pub fn place_member(bit_offset: usize, bit_width: Option<u32>, size: usize, align: usize) -> (r: (
    usize,
    usize,
))
    ensures
        r == place(bit_offset, bit_width, size, align),
{
    match bit_width {
        Some(bits) => {
            let boundary: usize = align_up(bit_offset, sat_mul(align, 8));
            if bits == 0 {
                (boundary, boundary)
            } else {
                let unit_end: usize = sat_add(boundary, sat_mul(size, 8));
                let start: usize = if sat_add(bit_offset, bits as usize) <= unit_end {
                    bit_offset
                } else {
                    boundary
                };
                (start, sat_add(start, bits as usize))
            }
        },
        None => {
            let byte: usize = align_up(bytes_of_bits(bit_offset), align);
            let start: usize = sat_mul(byte, 8);
            (start, sat_add(start, sat_mul(size, 8)))
        },
    }
}

fn max_of(a: usize, b: usize) -> (r: usize)
    ensures
        r == larger(a, b),
{
    if a >= b {
        a
    } else {
        b
    }
}

fn with_explicit_align(natural: usize, aligned: Option<usize>) -> (r: usize)
    ensures
        r == explicit_align(natural, aligned),
{
    match aligned {
        Some(n) => if is_power_of_two(n) {
            n
        } else {
            natural
        },
        None => natural,
    }
}

/// The definition of the tag that a memberless struct or union names.
pub fn tag_definition<'a>(
    name: &Option<String>,
    fields: &Vec<StructField>,
    tags: &'a StringHashMap<CType>,
    fuel: usize,
) -> (r: Option<&'a CType>)
    ensures
        r is Some <==> fields_of(fields@).len() == 0 && fuel > 0 && *name is Some && tags_of(
            tags@,
        ).contains_key((*name)->0@),
        r matches Some(d) ==> ty_of(*d) == tags_of(tags@)[(*name)->0@],
{
    if fuel == 0 || fields.len() != 0 {
        return None;
    }
    match name {
        Some(n) => tags.get(n.as_str()),
        None => None,
    }
}

fn align_rec(t: &CType, target: Target, tags: &StringHashMap<CType>, fuel: usize) -> (r: usize)
    ensures
        r == align_spec(ty_of(*t), target, tags_of(tags@), fuel as nat),
    decreases fuel, t, 0int,
{
    match t {
        CType::Void | CType::Bool | CType::Char | CType::SChar | CType::UChar => 1,
        CType::Short | CType::UShort => 2,
        CType::Int | CType::UInt | CType::Float => 4,
        CType::Long | CType::ULong => target.long_size(),
        CType::Pointer(_, _) => target.pointer_width(),
        CType::LongLong | CType::ULongLong | CType::Double => target.pointer_width(),
        CType::Int128 | CType::UInt128 => 16,
        CType::LongDouble => if target == Target::I686 {
            4
        } else {
            16
        },
        CType::Complex(inner) => align_rec(inner, target, tags, fuel),
        CType::Array(inner, _) => align_rec(inner, target, tags, fuel),
        CType::Function { .. } => 1,
        CType::Struct { name, fields, packed, aligned } => {
            match tag_definition(name, fields, tags, fuel) {
                Some(d) => align_rec(d, target, tags, fuel - 1),
                None => {
                    let natural: usize = if *packed {
                        1
                    } else {
                        fields_align_rec(fields, target, tags, fuel)
                    };
                    with_explicit_align(natural, *aligned)
                },
            }
        },
        CType::Union { name, fields, packed, aligned } => {
            match tag_definition(name, fields, tags, fuel) {
                Some(d) => align_rec(d, target, tags, fuel - 1),
                None => {
                    let natural: usize = if *packed {
                        1
                    } else {
                        fields_align_rec(fields, target, tags, fuel)
                    };
                    with_explicit_align(natural, *aligned)
                },
            }
        },
        CType::Enum { underlying_type, .. } => align_rec(underlying_type, target, tags, fuel),
        CType::Atomic(inner) => align_rec(inner, target, tags, fuel),
        CType::Typedef { underlying, .. } => align_rec(underlying, target, tags, fuel),
        CType::Qualified(inner, _) => align_rec(inner, target, tags, fuel),
    }
}

fn fields_align_rec(
    fields: &Vec<StructField>,
    target: Target,
    tags: &StringHashMap<CType>,
    fuel: usize,
) -> (r: usize)
    ensures
        r == fields_align(fields_of(fields@), 0, target, tags_of(tags@), fuel as nat),
    decreases fuel, fields@, 1int,
{
    let mut best: usize = 1;
    let mut i: usize = 0;
    let ghost fs = fields_of(fields@);
    proof {
        lemma_fields_alignment_is_power_of_two(fs, 0, target, tags_of(tags@), fuel as nat);
    }
    #[verifier::loop_isolation(false)]
    while i < fields.len()
        invariant
            i <= fields@.len(),
            best >= 1,
            larger(best, fields_align(fs, i as int, target, tags_of(tags@), fuel as nat))
                == fields_align(fs, 0, target, tags_of(tags@), fuel as nat),
        decreases fields@.len() - i,
    {
        best = max_of(best, align_rec(&fields[i].ty, target, tags, fuel));
        i += 1;
    }
    best
}

fn size_rec(t: &CType, target: Target, tags: &StringHashMap<CType>, fuel: usize) -> (r: usize)
    ensures
        r == size_spec(ty_of(*t), target, tags_of(tags@), fuel as nat),
    decreases fuel, t, 0int,
{
    match t {
        CType::Void | CType::Bool | CType::Char | CType::SChar | CType::UChar => 1,
        CType::Function { .. } => 1,
        CType::Short | CType::UShort => 2,
        CType::Int | CType::UInt | CType::Float => 4,
        CType::Long | CType::ULong => target.long_size(),
        CType::Pointer(_, _) => target.pointer_width(),
        CType::LongLong | CType::ULongLong | CType::Double => 8,
        CType::Int128 | CType::UInt128 => 16,
        CType::LongDouble => if target == Target::I686 {
            12
        } else {
            16
        },
        CType::Complex(inner) => sat_mul(2, size_rec(inner, target, tags, fuel)),
        CType::Array(inner, n) => match n {
            Some(count) => sat_mul(size_rec(inner, target, tags, fuel), *count),
            None => 0,
        },
        CType::Struct { name, fields, packed, .. } => {
            match tag_definition(name, fields, tags, fuel) {
                Some(d) => size_rec(d, target, tags, fuel - 1),
                None => {
                    let end: usize = fields_end_rec(fields, *packed, target, tags, fuel);
                    align_up(bytes_of_bits(end), align_rec(t, target, tags, fuel))
                },
            }
        },
        CType::Union { name, fields, .. } => {
            match tag_definition(name, fields, tags, fuel) {
                Some(d) => size_rec(d, target, tags, fuel - 1),
                None => {
                    let extent: usize = fields_extent_rec(fields, target, tags, fuel);
                    align_up(extent, align_rec(t, target, tags, fuel))
                },
            }
        },
        CType::Enum { underlying_type, .. } => size_rec(underlying_type, target, tags, fuel),
        CType::Atomic(inner) => size_rec(inner, target, tags, fuel),
        CType::Typedef { underlying, .. } => size_rec(underlying, target, tags, fuel),
        CType::Qualified(inner, _) => size_rec(inner, target, tags, fuel),
    }
}

fn fields_end_rec(
    fields: &Vec<StructField>,
    packed: bool,
    target: Target,
    tags: &StringHashMap<CType>,
    fuel: usize,
) -> (r: usize)
    ensures
        r == fields_end(fields_of(fields@), 0, 0, packed, target, tags_of(tags@), fuel as nat),
    decreases fuel, fields@, 1int,
{
    let mut offset: usize = 0;
    let mut i: usize = 0;
    let ghost fs = fields_of(fields@);
    #[verifier::loop_isolation(false)]
    while i < fields.len()
        invariant
            i <= fields@.len(),
            fields_end(fs, i as int, offset, packed, target, tags_of(tags@), fuel as nat)
                == fields_end(fs, 0, 0, packed, target, tags_of(tags@), fuel as nat),
        decreases fields@.len() - i,
    {
        let f: &StructField = &fields[i];
        let size: usize = size_rec(&f.ty, target, tags, fuel);
        let align: usize = if packed {
            1
        } else {
            align_rec(&f.ty, target, tags, fuel)
        };
        let (_, next): (usize, usize) = place_member(offset, f.bit_width, size, align);
        offset = next;
        i += 1;
    }
    offset
}

fn fields_extent_rec(
    fields: &Vec<StructField>,
    target: Target,
    tags: &StringHashMap<CType>,
    fuel: usize,
) -> (r: usize)
    ensures
        r == fields_extent(fields_of(fields@), 0, target, tags_of(tags@), fuel as nat),
    decreases fuel, fields@, 1int,
{
    let mut best: usize = 0;
    let mut i: usize = 0;
    let ghost fs = fields_of(fields@);
    #[verifier::loop_isolation(false)]
    while i < fields.len()
        invariant
            i <= fields@.len(),
            larger(best, fields_extent(fs, i as int, target, tags_of(tags@), fuel as nat))
                == fields_extent(fs, 0, target, tags_of(tags@), fuel as nat),
        decreases fields@.len() - i,
    {
        let f: &StructField = &fields[i];
        let size: usize = size_rec(&f.ty, target, tags, fuel);
        let extent: usize = match f.bit_width {
            Some(bits) => bytes_of_bits(bits as usize),
            None => size,
        };
        best = max_of(best, extent);
        i += 1;
    }
    best
}

/// Size of a type in bytes; the members of tag references are found in `tags`.
pub fn sizeof_ctype_resolved(t: &CType, target: Target, tags: &StringHashMap<CType>) -> (r: usize)
    ensures
        r == size_with_tags(t@, target, tags_of(tags@)),
{
    assert(tags_of(tags@).dom() =~= tags@.dom());
    size_rec(t, target, tags, tags.len())
}

/// Alignment of a type in bytes; the members of tag references are found in
/// `tags`.
pub fn alignof_ctype_resolved(t: &CType, target: Target, tags: &StringHashMap<CType>) -> (r: usize)
    ensures
        r == align_with_tags(t@, target, tags_of(tags@)),
{
    assert(tags_of(tags@).dom() =~= tags@.dom());
    align_rec(t, target, tags, tags.len())
}

/// Size of a type on its own, in bytes.
pub fn sizeof_ctype(t: &CType, target: Target) -> (r: usize)
    ensures
        r == plain_size(t@, target),
{
    let none: StringHashMap<CType> = StringHashMap::new();
    assert(tags_of(none@) =~= Map::<Seq<char>, Ty>::empty());
    size_rec(t, target, &none, 0)
}

/// Alignment of a type on its own, in bytes.
pub fn alignof_ctype(t: &CType, target: Target) -> (r: usize)
    ensures
        r == plain_align(t@, target),
{
    let none: StringHashMap<CType> = StringHashMap::new();
    assert(tags_of(none@) =~= Map::<Seq<char>, Ty>::empty());
    align_rec(t, target, &none, 0)
}

/// Every alignment is a power of two, whatever the type.
pub proof fn lemma_alignment_is_power_of_two(
    t: Ty,
    target: Target,
    tags: Map<Seq<char>, Ty>,
    fuel: nat,
)
    ensures
        is_pow2(align_spec(t, target, tags, fuel) as int),
        align_spec(t, target, tags, fuel) >= 1,
    decreases fuel, t, 0int,
{
    reveal_with_fuel(is_pow2, 6);
    match t {
        Ty::Complex(inner) => lemma_alignment_is_power_of_two(*inner, target, tags, fuel),
        Ty::Array(inner, _) => lemma_alignment_is_power_of_two(*inner, target, tags, fuel),
        Ty::Struct { fields, .. } => {
            match tag_reference(t) {
                Some(n) if tags.contains_key(n) && fuel > 0 => lemma_alignment_is_power_of_two(
                    tags[n],
                    target,
                    tags,
                    (fuel - 1) as nat,
                ),
                _ => lemma_fields_alignment_is_power_of_two(fields, 0, target, tags, fuel),
            }
        },
        Ty::Union { fields, .. } => {
            match tag_reference(t) {
                Some(n) if tags.contains_key(n) && fuel > 0 => lemma_alignment_is_power_of_two(
                    tags[n],
                    target,
                    tags,
                    (fuel - 1) as nat,
                ),
                _ => lemma_fields_alignment_is_power_of_two(fields, 0, target, tags, fuel),
            }
        },
        Ty::Enum { underlying_type, .. } => lemma_alignment_is_power_of_two(
            *underlying_type,
            target,
            tags,
            fuel,
        ),
        Ty::Atomic(inner) => lemma_alignment_is_power_of_two(*inner, target, tags, fuel),
        Ty::Typedef { underlying, .. } => lemma_alignment_is_power_of_two(
            *underlying,
            target,
            tags,
            fuel,
        ),
        Ty::Qualified(inner, _) => lemma_alignment_is_power_of_two(*inner, target, tags, fuel),
        _ => {},
    }
}

proof fn lemma_fields_alignment_is_power_of_two(
    fields: Seq<Field>,
    i: int,
    target: Target,
    tags: Map<Seq<char>, Ty>,
    fuel: nat,
)
    ensures
        is_pow2(fields_align(fields, i, target, tags, fuel) as int),
        fields_align(fields, i, target, tags, fuel) >= 1,
    decreases fuel, fields, fields.len() - i,
{
    reveal_with_fuel(is_pow2, 6);
    if 0 <= i < fields.len() {
        lemma_alignment_is_power_of_two(fields[i].ty, target, tags, fuel);
        lemma_fields_alignment_is_power_of_two(fields, i + 1, target, tags, fuel);
    }
}

/// A packed struct or union without an `aligned` attribute is aligned to one
/// byte, whatever its members are.
pub proof fn lemma_packed_alignment(
    t: Ty,
    target: Target,
    tags: Map<Seq<char>, Ty>,
    fuel: nat,
)
    requires
        match t {
            Ty::Struct { fields, packed, aligned, .. } => packed && aligned is None && fields.len()
                > 0,
            Ty::Union { fields, packed, aligned, .. } => packed && aligned is None && fields.len()
                > 0,
            _ => false,
        },
    ensures
        align_spec(t, target, tags, fuel) == 1,
{
}

/// The size of a struct or union with members is a multiple of its alignment,
/// unless it is too large to be counted.
pub proof fn lemma_size_is_multiple_of_alignment(
    t: Ty,
    target: Target,
    tags: Map<Seq<char>, Ty>,
    fuel: nat,
)
    requires
        match t {
            Ty::Struct { fields, .. } => fields.len() > 0,
            Ty::Union { fields, .. } => fields.len() > 0,
            _ => false,
        },
        size_spec(t, target, tags, fuel) < usize::MAX,
    ensures
        size_spec(t, target, tags, fuel) as int % align_spec(t, target, tags, fuel) as int == 0,
{
    lemma_alignment_is_power_of_two(t, target, tags, fuel);
    let extent: usize = match t {
        Ty::Struct { fields, packed, .. } => bytes_for(
            fields_end(fields, 0, 0, packed, target, tags, fuel),
        ),
        Ty::Union { fields, .. } => fields_extent(fields, 0, target, tags, fuel),
        _ => 0,
    };
    let a: int = align_spec(t, target, tags, fuel) as int;
    let q: int = (extent + a - 1) / a;
    assert(size_spec(t, target, tags, fuel) == round_up(extent, a as usize));
    if a > 1 {
        assert(q >= 0 && q * a >= 0) by (nonlinear_arith)
            requires
                q == (extent + a - 1) / a,
                a > 1,
                extent >= 0,
        ;
        assert((q * a) % a == 0) by {
            vstd::arithmetic::div_mod::lemma_mod_multiples_basic(q, a);
        }
    }
}

/// A struct is at least as large as it takes to hold its members one behind the
/// other, and a union is at least as large as each of its members.
pub proof fn lemma_rounding_never_shrinks(n: usize, to: usize)
    ensures
        round_up(n, to) >= n,
{
    if to > 1 {
        let t: int = to as int;
        assert(((n + t - 1) / t) * t >= n) by (nonlinear_arith)
            requires
                t > 1,
                n >= 0,
        ;
    }
}

} // verus!
