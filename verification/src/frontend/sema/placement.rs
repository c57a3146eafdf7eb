//! Where the members of structs and unions lie.

use crate::common::layout::{
    align_spec, align_with_tags, bytes_for, fields_end, fields_extent,
    lemma_alignment_is_power_of_two, lemma_rounding_never_shrinks, member_align, place, round_up,
    saturated, size_spec, size_with_tags, tag_reference,
};
use crate::common::string_interner::Symbol;
use crate::common::target::Target;
use crate::common::types::{Field, Ty, TypeQualifiers};
use crate::frontend::parser::ast::{BuiltinKind, Expression, TypeName, UnaryOp};
use crate::frontend::sema::offsets::{field_text, offset_among, offset_in, offset_of, Step};
use crate::frontend::sema::resolve::{const_value, designator, named_type, null_offset};
use crate::frontend::sema::state::State;
use vstd::arithmetic::div_mod::{lemma_fundamental_div_mod, lemma_mod_multiples_basic};
use vstd::prelude::*;

verus! {

/// The offset of a member of a type, by its name.
pub open spec fn offset_of_member(
    t: Ty,
    name: Seq<char>,
    target: Target,
    tags: Map<Seq<char>, Ty>,
) -> Option<u64> {
    offset_of(t, seq![Step::Field(name)], target, tags)
}

/// Whether a designator that begins with `name` leads past a member: the member has
/// another name, or is an unnamed bit-field, or an unnamed type that it leads nowhere in.
pub open spec fn is_passed(
    f: Field,
    name: Seq<char>,
    chain: Seq<Step>,
    target: Target,
    tags: Map<Seq<char>, Ty>,
) -> bool {
    &&& field_text(f) != name
    &&& field_text(f).len() > 0 || f.bit_width is Some || offset_of(f.ty, chain, target, tags)
        is None
}

/// Whether `name` stands for the member at `k`.
pub open spec fn is_member(
    fields: Seq<Field>,
    k: int,
    name: Seq<char>,
    chain: Seq<Step>,
    target: Target,
    tags: Map<Seq<char>, Ty>,
) -> bool {
    &&& 0 <= k < fields.len()
    &&& name.len() > 0
    &&& fields[k].name == Some(name)
    &&& forall|j: int| 0 <= j < k ==> is_passed(#[trigger] fields[j], name, chain, target, tags)
}

/// The alignment of a member in its struct.
pub open spec fn align_of_member(
    f: Field,
    packed: bool,
    target: Target,
    tags: Map<Seq<char>, Ty>,
) -> usize {
    if packed {
        1
    } else {
        align_with_tags(f.ty, target, tags)
    }
}

/// Whether the size of a type is so small that its bits can be counted.
pub open spec fn is_countable(t: Ty, target: Target, tags: Map<Seq<char>, Ty>) -> bool {
    size_with_tags(t, target, tags) * 8 <= usize::MAX
}

/// The members of a struct lie one behind the other: each begins no earlier than an
/// earlier one ends, at a multiple of its alignment unless the struct is packed, and
/// ends within the struct.
pub proof fn lemma_members_lie_apart(
    t: Ty,
    fields: Seq<Field>,
    packed: bool,
    j: int,
    k: int,
    a: Seq<char>,
    b: Seq<char>,
    target: Target,
    tags: Map<Seq<char>, Ty>,
)
    requires
        t matches Ty::Struct { fields: fs, packed: p, .. } && fs == fields && p == packed,
        is_countable(t, target, tags),
        j < k,
        is_member(fields, j, a, seq![Step::Field(a)], target, tags),
        is_member(fields, k, b, seq![Step::Field(b)], target, tags),
        fields[j].bit_width is None,
        fields[k].bit_width is None,
    ensures
        ({
            let x = offset_of_member(t, a, target, tags);
            let y = offset_of_member(t, b, target, tags);
            &&& x is Some
            &&& y is Some
            &&& x->0 + size_with_tags(fields[j].ty, target, tags) <= y->0
            &&& x->0 as int % align_of_member(fields[j], packed, target, tags) as int == 0
            &&& y->0 as int % align_of_member(fields[k], packed, target, tags) as int == 0
            &&& y->0 + size_with_tags(fields[k].ty, target, tags) <= size_with_tags(
                t,
                target,
                tags,
            )
        }),
{
    lemma_member_is_placed(t, fields, packed, j, a, seq![Step::Field(a)], target, tags);
    lemma_member_is_placed(t, fields, packed, k, b, seq![Step::Field(b)], target, tags);
    assert(seq![Step::Field(a)].skip(1) =~= Seq::empty());
    assert(seq![Step::Field(b)].skip(1) =~= Seq::empty());
    let s = begin(fields, 0, 0, packed, target, tags, j + 1);
    lemma_begin_splits(fields, 0, 0, packed, target, tags, j + 1, k);
    lemma_begin_grows(fields, j + 1, s, packed, target, tags, k);
    lemma_begin_step(fields, 0, 0, packed, target, tags, j);
    let at = begin(fields, 0, 0, packed, target, tags, k);
    lemma_placed_grows(fields[k], at, packed, target, tags);
}

/// A member of a struct begins at the first multiple of its alignment behind the
/// member before it, the first one at the start.
pub proof fn lemma_members_lie_close(
    t: Ty,
    fields: Seq<Field>,
    packed: bool,
    k: int,
    a: Seq<char>,
    b: Seq<char>,
    target: Target,
    tags: Map<Seq<char>, Ty>,
)
    requires
        t matches Ty::Struct { fields: fs, packed: p, .. } && fs == fields && p == packed,
        is_countable(t, target, tags),
        is_member(fields, k, b, seq![Step::Field(b)], target, tags),
        fields[k].bit_width is None,
        k > 0 ==> is_member(fields, k - 1, a, seq![Step::Field(a)], target, tags) && fields[k
            - 1].bit_width is None,
    ensures
        ({
            let x = offset_of_member(t, a, target, tags);
            let y = offset_of_member(t, b, target, tags);
            &&& y is Some
            &&& k == 0 ==> y->0 == 0
            &&& k > 0 ==> x is Some && y->0 < x->0 + size_with_tags(fields[k - 1].ty, target, tags)
                + align_of_member(fields[k], packed, target, tags)
        }),
{
    lemma_member_is_placed(t, fields, packed, k, b, seq![Step::Field(b)], target, tags);
    let at = begin(fields, 0, 0, packed, target, tags, k);
    let size = size_with_tags(fields[k].ty, target, tags);
    let align = align_of_member(fields[k], packed, target, tags);
    lemma_alignment_is_power_of_two(fields[k].ty, target, tags, tags.dom().len());
    if k > 0 {
        lemma_place_bounds(at, fields[k].bit_width, size, align);
        lemma_member_is_placed(t, fields, packed, k - 1, a, seq![Step::Field(a)], target, tags);
        lemma_begin_step(fields, 0, 0, packed, target, tags, k - 1);
        lemma_bytes_of_end(
            placed(
                fields[k - 1],
                begin(fields, 0, 0, packed, target, tags, k - 1),
                packed,
                target,
                tags,
            ),
            size_with_tags(fields[k - 1].ty, target, tags),
        );
    } else {
        lemma_first_place(size, align);
    }
}

/// A struct ends at the first multiple of its alignment behind its last member.
pub proof fn lemma_struct_ends_close(
    t: Ty,
    fields: Seq<Field>,
    packed: bool,
    name: Seq<char>,
    target: Target,
    tags: Map<Seq<char>, Ty>,
)
    requires
        t matches Ty::Struct { fields: fs, packed: p, .. } && fs == fields && p == packed,
        is_countable(t, target, tags),
        is_member(fields, fields.len() - 1, name, seq![Step::Field(name)], target, tags),
        fields.last().bit_width is None,
    ensures
        ({
            let y = offset_of_member(t, name, target, tags);
            let size = size_with_tags(t, target, tags);
            let align = align_with_tags(t, target, tags);
            &&& y is Some
            &&& y->0 + size_with_tags(fields.last().ty, target, tags) <= size
            &&& size < y->0 + size_with_tags(fields.last().ty, target, tags) + align
            &&& size as int % align as int == 0
        }),
{
    let k = fields.len() - 1;
    let fuel = tags.dom().len();
    lemma_member_is_placed(t, fields, packed, k, name, seq![Step::Field(name)], target, tags);
    let at = begin(fields, 0, 0, packed, target, tags, k);
    let after = begin(fields, 0, 0, packed, target, tags, k + 1);
    lemma_begin_step(fields, 0, 0, packed, target, tags, k);
    lemma_end_from(fields, 0, 0, packed, target, tags, k + 1);
    assert(fields_end(fields, k + 1, after, packed, target, tags, fuel) == after);
    lemma_bytes_of_end(
        placed(fields[k], at, packed, target, tags),
        size_with_tags(fields[k].ty, target, tags),
    );
    lemma_alignment_is_power_of_two(t, target, tags, fuel);
    lemma_rounding_is_tight(bytes_for(after), align_spec(t, target, tags, fuel));
}

proof fn lemma_bytes_of_end(p: (usize, usize), size: usize)
    requires
        p.0 % 8 == 0,
        p.1 == p.0 + size * 8,
    ensures
        bytes_for(p.1) == p.0 / 8 + size,
{
}

/// A member of a struct or union that has the first name of a designator lies at the
/// sum of two offsets: its own, and that of the rest of the designator within it.
pub proof fn lemma_nested_offsets_add_up(
    t: Ty,
    k: int,
    name: Seq<char>,
    rest: Seq<Step>,
    target: Target,
    tags: Map<Seq<char>, Ty>,
)
    requires
        ({
            let chain = seq![Step::Field(name)] + rest;
            let one = seq![Step::Field(name)];
            match t {
                Ty::Struct { fields, .. } => is_member(fields, k, name, chain, target, tags)
                    && is_member(fields, k, name, one, target, tags) && fields[k].bit_width is None,
                Ty::Union { fields, .. } => is_member(fields, k, name, chain, target, tags)
                    && is_member(fields, k, name, one, target, tags) && fields[k].bit_width is None,
                _ => false,
            }
        }),
    ensures
        ({
            let f = match t {
                Ty::Struct { fields, .. } => fields[k],
                Ty::Union { fields, .. } => fields[k],
                _ => arbitrary(),
            };
            let whole = offset_of(t, seq![Step::Field(name)] + rest, target, tags);
            let outer = offset_of_member(t, name, target, tags);
            let inner = offset_of(f.ty, rest, target, tags);
            &&& outer is Some
            &&& whole is Some <==> inner is Some
            &&& inner is Some && outer->0 + inner->0 <= u64::MAX ==> whole->0 == outer->0 + inner->0
            &&& inner is Some && outer->0 + inner->0 > u64::MAX ==> whole->0 == outer->0 + inner->0
                - u64::MAX - 1
        }),
{
    let chain = seq![Step::Field(name)] + rest;
    let one = seq![Step::Field(name)];
    assert(chain.skip(1) =~= rest);
    assert(one.skip(1) =~= Seq::empty());
    let fuel = tags.dom().len();
    match t {
        Ty::Struct { fields, packed, .. } => {
            lemma_found(fields, 0, 0, false, packed, k, name, chain, target, tags);
            lemma_found(fields, 0, 0, false, packed, k, name, one, target, tags);
        },
        Ty::Union { fields, packed, .. } => {
            lemma_found(fields, 0, 0, true, packed, k, name, chain, target, tags);
            lemma_found(fields, 0, 0, true, packed, k, name, one, target, tags);
        },
        _ => {},
    }
}

/// Every member of a union begins at its start, and none is larger than the union.
pub proof fn lemma_union_members_share_the_start(
    t: Ty,
    fields: Seq<Field>,
    k: int,
    name: Seq<char>,
    target: Target,
    tags: Map<Seq<char>, Ty>,
)
    requires
        t matches Ty::Union { fields: fs, .. } && fs == fields,
        is_member(fields, k, name, seq![Step::Field(name)], target, tags),
        fields[k].bit_width is None,
        forall|j: int| 0 <= j < k ==> (#[trigger] fields[j]).bit_width != Some(0u32),
    ensures
        offset_of_member(t, name, target, tags) == Some(0u64),
        size_with_tags(fields[k].ty, target, tags) <= size_with_tags(t, target, tags),
{
    let chain = seq![Step::Field(name)];
    assert(chain.skip(1) =~= Seq::empty());
    match t {
        Ty::Union { packed, .. } => {
            lemma_found(fields, 0, 0, true, packed, k, name, chain, target, tags);
            lemma_union_begin(fields, 0, packed, target, tags, k);
            lemma_alignment_is_power_of_two(fields[k].ty, target, tags, tags.dom().len());
            lemma_first_place(
                size_with_tags(fields[k].ty, target, tags),
                align_of_member(fields[k], packed, target, tags),
            );
        },
        _ => {},
    }
    lemma_extent_holds(fields, 0, k, target, tags, tags.dom().len());
    lemma_rounding_never_shrinks(
        fields_extent(fields, 0, target, tags, tags.dom().len()),
        align_with_tags(t, target, tags),
    );
}

/// An element of an array lies as many element sizes behind its start as its index
/// says.
pub proof fn lemma_element_offset(
    elem: Ty,
    n: Option<usize>,
    i: usize,
    rest: Seq<Step>,
    target: Target,
    tags: Map<Seq<char>, Ty>,
)
    requires
        i * size_with_tags(elem, target, tags) <= u64::MAX,
    ensures
        ({
            let whole = offset_of(
                Ty::Array(Box::new(elem), n),
                seq![Step::Index(i)] + rest,
                target,
                tags,
            );
            let inner = offset_of(elem, rest, target, tags);
            let start = i * size_with_tags(elem, target, tags);
            &&& whole is Some <==> inner is Some
            &&& inner is Some && start + inner->0 <= u64::MAX ==> whole->0 == start + inner->0
        }),
{
    let chain = seq![Step::Index(i)] + rest;
    assert(chain.skip(1) =~= rest);
    let s: u64 = size_with_tags(elem, target, tags) as u64;
    let x: nat = (i as u64) as nat * s as nat;
    assert(x == i * size_with_tags(elem, target, tags));
    assert(x % 0x1_0000_0000_0000_0000nat == x) by {
        vstd::arithmetic::div_mod::lemma_small_mod(x, 0x1_0000_0000_0000_0000nat);
    }
}

/// Qualifiers and typedef names do not move a member, and the whole of a type begins
/// where it begins.
pub proof fn lemma_offset_through_names(
    t: Ty,
    q: TypeQualifiers,
    chain: Seq<Step>,
    name: Seq<char>,
    target: Target,
    tags: Map<Seq<char>, Ty>,
)
    ensures
        offset_of(Ty::Qualified(Box::new(t), q), chain, target, tags) == offset_of(
            t,
            chain,
            target,
            tags,
        ),
        offset_of(Ty::Typedef { name, underlying: Box::new(t) }, chain, target, tags) == offset_of(
            t,
            chain,
            target,
            tags,
        ),
        offset_of(t, Seq::empty(), target, tags) == Some(0u64),
{
}

/// A tag that stands for the definition of a struct or union puts its members where
/// the definition puts them.
pub proof fn lemma_tag_stands_for_its_definition(
    t: Ty,
    tag: Seq<char>,
    name: Seq<char>,
    target: Target,
    tags: Map<Seq<char>, Ty>,
)
    requires
        tag_reference(t) == Some(tag),
        tags.dom().finite(),
        tags.contains_key(tag),
        match tags[tag] {
            Ty::Struct { fields, .. } => has_names(fields),
            Ty::Union { fields, .. } => has_names(fields),
            _ => false,
        },
    ensures
        offset_of_member(t, name, target, tags) == offset_of_member(
            tags[tag],
            name,
            target,
            tags,
        ),
{
    let fuel = tags.dom().len();
    assert(fuel > 0) by {
        if fuel == 0 {
            assert(tags.dom() =~= Set::empty());
        }
    }
    let chain = seq![Step::Field(name)];
    let less = (fuel - 1) as nat;
    assert(offset_in(t, chain, target, tags, fuel) == offset_in(
        tags[tag],
        chain,
        target,
        tags,
        less,
    ));
    match tags[tag] {
        Ty::Struct { fields, packed, .. } => lemma_fuel_is_not_used(
            fields,
            0,
            0,
            false,
            packed,
            chain,
            target,
            tags,
            fuel,
            less,
        ),
        Ty::Union { fields, packed, .. } => lemma_fuel_is_not_used(
            fields,
            0,
            0,
            true,
            packed,
            chain,
            target,
            tags,
            fuel,
            less,
        ),
        _ => {},
    }
}

/// Whether there are members, and all of them have names or are bit-fields.
pub open spec fn has_names(fields: Seq<Field>) -> bool {
    &&& fields.len() > 0
    &&& forall|j: int|
        0 <= j < fields.len() ==> field_text(#[trigger] fields[j]).len() > 0
            || fields[j].bit_width is Some
}

proof fn lemma_fuel_is_not_used(
    fields: Seq<Field>,
    i: int,
    bit: usize,
    is_union: bool,
    packed: bool,
    chain: Seq<Step>,
    target: Target,
    tags: Map<Seq<char>, Ty>,
    a: nat,
    b: nat,
)
    requires
        0 <= i <= fields.len(),
        has_names(fields),
        chain.len() == 1,
    ensures
        offset_among(fields, i, bit, is_union, packed, chain, target, tags, a) == offset_among(
            fields,
            i,
            bit,
            is_union,
            packed,
            chain,
            target,
            tags,
            b,
        ),
    decreases fields.len() - i,
{
    if i < fields.len() {
        let f = fields[i];
        let none = chain.skip(1);
        assert(none.len() == 0);
        assert(offset_in(f.ty, none, target, tags, a) == Some(0u64));
        assert(offset_in(f.ty, none, target, tags, b) == Some(0u64));
        assert(field_text(f).len() > 0 || f.bit_width is Some);
        let next = if is_union && f.bit_width != Some(0u32) {
            bit
        } else {
            placed(f, bit, packed, target, tags).1
        };
        lemma_fuel_is_not_used(fields, i + 1, next, is_union, packed, chain, target, tags, a, b);
    }
}

/// A member of an unnamed member lies at the sum of two offsets: that of the unnamed
/// member, which is where a named one of its type would lie, and its own within it.
pub proof fn lemma_unnamed_members_count_as_own(
    t: Ty,
    fields: Seq<Field>,
    packed: bool,
    k: int,
    label: Seq<char>,
    name: Seq<char>,
    target: Target,
    tags: Map<Seq<char>, Ty>,
)
    requires
        t matches Ty::Struct { fields: fs, packed: p, .. } && fs == fields && p == packed,
        0 <= k < fields.len(),
        name.len() > 0,
        label.len() > 0,
        fields[k].name is None,
        fields[k].bit_width is None,
        forall|j: int|
            0 <= j < k ==> is_passed(
                #[trigger] fields[j],
                name,
                seq![Step::Field(name)],
                target,
                tags,
            ),
        forall|j: int|
            0 <= j < k ==> is_passed(
                #[trigger] fields[j],
                label,
                seq![Step::Field(label)],
                target,
                tags,
            ),
        offset_of_member(fields[k].ty, name, target, tags) is Some,
    ensures
        ({
            let labelled = Field { name: Some(label), ..fields[k] };
            let named = Ty::Struct {
                name: None,
                fields: fields.update(k, labelled),
                packed,
                aligned: None,
            };
            let outer = offset_of_member(named, label, target, tags);
            let inner = offset_of_member(fields[k].ty, name, target, tags);
            let whole = offset_of_member(t, name, target, tags);
            &&& outer is Some
            &&& whole is Some
            &&& outer->0 + inner->0 <= u64::MAX ==> whole->0 == outer->0 + inner->0
        }),
{
    let labelled = Field { name: Some(label), ..fields[k] };
    let others = fields.update(k, labelled);
    let chain = seq![Step::Field(label)];
    assert(chain.skip(1) =~= Seq::empty());
    assert forall|j: int| 0 <= j < k implies is_passed(
        #[trigger] others[j],
        label,
        chain,
        target,
        tags,
    ) by {
        assert(others[j] == fields[j]);
    }
    lemma_found(others, 0, 0, false, packed, k, label, chain, target, tags);
    lemma_found_unnamed(fields, 0, 0, packed, k, name, target, tags);
    lemma_begin_in_struct(others, 0, 0, packed, target, tags, k);
    lemma_begin_same(fields, others, 0, 0, packed, target, tags, k);
}

proof fn lemma_begin_same(
    fields: Seq<Field>,
    others: Seq<Field>,
    i: int,
    bit: usize,
    packed: bool,
    target: Target,
    tags: Map<Seq<char>, Ty>,
    k: int,
)
    requires
        0 <= i <= k <= fields.len(),
        others.len() == fields.len(),
        forall|j: int| 0 <= j < k ==> others[j] == #[trigger] fields[j],
    ensures
        begin(fields, i, bit, packed, target, tags, k) == begin(
            others,
            i,
            bit,
            packed,
            target,
            tags,
            k,
        ),
    decreases k - i,
{
    if i < k {
        assert(others[i] == fields[i]);
        let next = placed(fields[i], bit, packed, target, tags).1;
        lemma_begin_same(fields, others, i + 1, next, packed, target, tags, k);
    }
}

proof fn lemma_found_unnamed(
    fields: Seq<Field>,
    i: int,
    bit: usize,
    packed: bool,
    k: int,
    name: Seq<char>,
    target: Target,
    tags: Map<Seq<char>, Ty>,
)
    requires
        0 <= i <= k < fields.len(),
        name.len() > 0,
        fields[k].name is None,
        fields[k].bit_width is None,
        forall|j: int|
            0 <= j < k ==> is_passed(
                #[trigger] fields[j],
                name,
                seq![Step::Field(name)],
                target,
                tags,
            ),
        offset_of_member(fields[k].ty, name, target, tags) is Some,
    ensures
        ({
            let at = placed(
                fields[k],
                begin(fields, i, bit, packed, target, tags, k),
                packed,
                target,
                tags,
            ).0;
            let inner = offset_of_member(fields[k].ty, name, target, tags);
            offset_among(
                fields,
                i,
                bit,
                false,
                packed,
                seq![Step::Field(name)],
                target,
                tags,
                tags.dom().len(),
            ) == Some(((at / 8) as u64).wrapping_add(inner->0))
        }),
    decreases k - i,
{
    if i < k {
        let f = fields[i];
        assert(is_passed(f, name, seq![Step::Field(name)], target, tags));
        let next = placed(f, bit, packed, target, tags).1;
        lemma_found_unnamed(fields, i + 1, next, packed, k, name, target, tags);
    } else {
        assert(field_text(fields[k]).len() == 0);
        assert(Step::Field(name) != Step::Field(field_text(fields[k])));
    }
}

/// A struct or union in which no member answers to a name has no offset for it; nor
/// has a type without members.
pub proof fn lemma_no_member_no_offset(
    t: Ty,
    name: Seq<char>,
    chain: Seq<Step>,
    target: Target,
    tags: Map<Seq<char>, Ty>,
)
    requires
        chain.len() > 0,
        chain[0] == Step::Field(name),
        match t {
            Ty::Struct { fields, .. } => fields.len() > 0 && forall|j: int|
                0 <= j < fields.len() ==> is_passed(
                    #[trigger] fields[j],
                    name,
                    chain,
                    target,
                    tags,
                ),
            Ty::Union { fields, .. } => fields.len() > 0 && forall|j: int|
                0 <= j < fields.len() ==> is_passed(
                    #[trigger] fields[j],
                    name,
                    chain,
                    target,
                    tags,
                ),
            Ty::Qualified(_, _) => false,
            Ty::Typedef { .. } => false,
            _ => true,
        },
    ensures
        offset_of(t, chain, target, tags) is None,
{
    match t {
        Ty::Struct { fields, packed, .. } => lemma_all_passed(
            fields,
            0,
            0,
            false,
            packed,
            name,
            chain,
            target,
            tags,
        ),
        Ty::Union { fields, packed, .. } => lemma_all_passed(
            fields,
            0,
            0,
            true,
            packed,
            name,
            chain,
            target,
            tags,
        ),
        _ => {},
    }
}

/// Where the member at `k` of a struct may begin, in bits, if that at `i` may begin
/// at `bit`.
spec fn begin(
    fields: Seq<Field>,
    i: int,
    bit: usize,
    packed: bool,
    target: Target,
    tags: Map<Seq<char>, Ty>,
    k: int,
) -> usize
    decreases k - i,
{
    if i >= k || i < 0 || i >= fields.len() {
        bit
    } else {
        let next = placed(fields[i], bit, packed, target, tags).1;
        begin(fields, i + 1, next, packed, target, tags, k)
    }
}

/// The place of a member that may begin at `bit`.
spec fn placed(
    f: Field,
    bit: usize,
    packed: bool,
    target: Target,
    tags: Map<Seq<char>, Ty>,
) -> (usize, usize) {
    place(
        bit,
        f.bit_width,
        size_with_tags(f.ty, target, tags),
        align_of_member(f, packed, target, tags),
    )
}

/// The same for a union, whose members all may begin where the first may.
spec fn begin_in(
    fields: Seq<Field>,
    i: int,
    bit: usize,
    is_union: bool,
    packed: bool,
    target: Target,
    tags: Map<Seq<char>, Ty>,
    k: int,
) -> usize
    decreases k - i,
{
    if i >= k || i < 0 || i >= fields.len() {
        bit
    } else {
        let next = if is_union && fields[i].bit_width != Some(0u32) {
            bit
        } else {
            placed(fields[i], bit, packed, target, tags).1
        };
        begin_in(fields, i + 1, next, is_union, packed, target, tags, k)
    }
}

proof fn lemma_begin_in_struct(
    fields: Seq<Field>,
    i: int,
    bit: usize,
    packed: bool,
    target: Target,
    tags: Map<Seq<char>, Ty>,
    k: int,
)
    ensures
        begin_in(fields, i, bit, false, packed, target, tags, k) == begin(
            fields,
            i,
            bit,
            packed,
            target,
            tags,
            k,
        ),
    decreases k - i,
{
    if !(i >= k || i < 0 || i >= fields.len()) {
        let next = placed(fields[i], bit, packed, target, tags).1;
        lemma_begin_in_struct(fields, i + 1, next, packed, target, tags, k);
    }
}

proof fn lemma_found(
    fields: Seq<Field>,
    i: int,
    bit: usize,
    is_union: bool,
    packed: bool,
    k: int,
    name: Seq<char>,
    chain: Seq<Step>,
    target: Target,
    tags: Map<Seq<char>, Ty>,
)
    requires
        0 <= i <= k,
        is_member(fields, k, name, chain, target, tags),
        fields[k].bit_width is None,
        chain.len() > 0,
        chain[0] == Step::Field(name),
    ensures
        ({
            let at = placed(
                fields[k],
                begin_in(fields, i, bit, is_union, packed, target, tags, k),
                packed,
                target,
                tags,
            ).0;
            let inner = offset_of(fields[k].ty, chain.skip(1), target, tags);
            offset_among(
                fields,
                i,
                bit,
                is_union,
                packed,
                chain,
                target,
                tags,
                tags.dom().len(),
            ) == (match inner {
                Some(rest) => Some(((at / 8) as u64).wrapping_add(rest)),
                None => None,
            })
        }),
    decreases k - i,
{
    if i < k {
        let f = fields[i];
        assert(is_passed(f, name, chain, target, tags));
        let next = if is_union && f.bit_width != Some(0u32) {
            bit
        } else {
            placed(f, bit, packed, target, tags).1
        };
        lemma_found(
            fields,
            i + 1,
            next,
            is_union,
            packed,
            k,
            name,
            chain,
            target,
            tags,
        );
    }
}

proof fn lemma_all_passed(
    fields: Seq<Field>,
    i: int,
    bit: usize,
    is_union: bool,
    packed: bool,
    name: Seq<char>,
    chain: Seq<Step>,
    target: Target,
    tags: Map<Seq<char>, Ty>,
)
    requires
        0 <= i <= fields.len(),
        chain.len() > 0,
        chain[0] == Step::Field(name),
        forall|j: int|
            0 <= j < fields.len() ==> is_passed(#[trigger] fields[j], name, chain, target, tags),
    ensures
        offset_among(
            fields,
            i,
            bit,
            is_union,
            packed,
            chain,
            target,
            tags,
            tags.dom().len(),
        ) is None,
    decreases fields.len() - i,
{
    if i < fields.len() {
        let f = fields[i];
        assert(is_passed(f, name, chain, target, tags));
        let next = if is_union && f.bit_width != Some(0u32) {
            bit
        } else {
            placed(f, bit, packed, target, tags).1
        };
        lemma_all_passed(fields, i + 1, next, is_union, packed, name, chain, target, tags);
    }
}

proof fn lemma_rounding_is_tight(n: usize, to: usize)
    requires
        to >= 1,
    ensures
        round_up(n, to) >= n,
        round_up(n, to) < usize::MAX ==> round_up(n, to) as int % to as int == 0 && round_up(n, to)
            < n + to,
        round_up(0, to) == 0,
{
    lemma_rounding_never_shrinks(n, to);
    if to > 1 {
        let t: int = to as int;
        let q: int = (n + t - 1) / t;
        lemma_fundamental_div_mod(n + t - 1, t);
        assert(q * t < n + t && q * t >= 0) by (nonlinear_arith)
            requires
                n + t - 1 == t * q + (n + t - 1) % t,
                0 <= (n + t - 1) % t < t,
                q == (n + t - 1) / t,
                n >= 0,
                t > 1,
        ;
        lemma_mod_multiples_basic(q, t);
        let z: int = (0 + t - 1) / t;
        assert(z == 0) by (nonlinear_arith)
            requires
                z == (t - 1) / t,
                t > 1,
        ;
    }
}

proof fn lemma_place_bounds(bit: usize, width: Option<u32>, size: usize, align: usize)
    requires
        align >= 1,
    ensures
        ({
            let p = place(bit, width, size, align);
            &&& bit <= p.0 <= p.1
            &&& width is None && p.1 < usize::MAX ==> {
                &&& p.0 % 8 == 0
                &&& p.1 == p.0 + size * 8
                &&& (p.0 / 8) as int % align as int == 0
                &&& p.0 / 8 < bytes_for(bit) + align
            }
        }),
{
    match width {
        Some(bits) => {
            lemma_rounding_never_shrinks(bit, saturated(align * 8));
        },
        None => {
            let from = bytes_for(bit);
            let byte = round_up(from, align);
            lemma_rounding_is_tight(from, align);
            let p = place(bit, width, size, align);
            assert(size * 8 >= 0);
            if p.1 < usize::MAX {
                assert(byte * 8 < usize::MAX);
                assert(p.0 == byte * 8);
                assert(p.0 / 8 == byte);
            }
        },
    }
}

proof fn lemma_first_place(size: usize, align: usize)
    requires
        align >= 1,
    ensures
        place(0, None, size, align).0 == 0,
{
    lemma_rounding_is_tight(0, align);
}

proof fn lemma_placed_grows(
    f: Field,
    bit: usize,
    packed: bool,
    target: Target,
    tags: Map<Seq<char>, Ty>,
)
    ensures
        placed(f, bit, packed, target, tags).0 >= bit,
        placed(f, bit, packed, target, tags).1 >= placed(f, bit, packed, target, tags).0,
{
    lemma_alignment_is_power_of_two(f.ty, target, tags, tags.dom().len());
    lemma_place_bounds(
        bit,
        f.bit_width,
        size_with_tags(f.ty, target, tags),
        align_of_member(f, packed, target, tags),
    );
}

proof fn lemma_begin_grows(
    fields: Seq<Field>,
    i: int,
    bit: usize,
    packed: bool,
    target: Target,
    tags: Map<Seq<char>, Ty>,
    k: int,
)
    ensures
        begin(fields, i, bit, packed, target, tags, k) >= bit,
    decreases k - i,
{
    if !(i >= k || i < 0 || i >= fields.len()) {
        lemma_placed_grows(fields[i], bit, packed, target, tags);
        let next = placed(fields[i], bit, packed, target, tags).1;
        lemma_begin_grows(fields, i + 1, next, packed, target, tags, k);
    }
}

proof fn lemma_begin_splits(
    fields: Seq<Field>,
    i: int,
    bit: usize,
    packed: bool,
    target: Target,
    tags: Map<Seq<char>, Ty>,
    j: int,
    k: int,
)
    requires
        0 <= i <= j <= k <= fields.len(),
    ensures
        begin(fields, i, bit, packed, target, tags, k) == begin(
            fields,
            j,
            begin(fields, i, bit, packed, target, tags, j),
            packed,
            target,
            tags,
            k,
        ),
    decreases j - i,
{
    if i < j {
        let next = placed(fields[i], bit, packed, target, tags).1;
        lemma_begin_splits(fields, i + 1, next, packed, target, tags, j, k);
    }
}

proof fn lemma_begin_step(
    fields: Seq<Field>,
    i: int,
    bit: usize,
    packed: bool,
    target: Target,
    tags: Map<Seq<char>, Ty>,
    k: int,
)
    requires
        0 <= i <= k < fields.len(),
    ensures
        begin(fields, i, bit, packed, target, tags, k + 1) == placed(
            fields[k],
            begin(fields, i, bit, packed, target, tags, k),
            packed,
            target,
            tags,
        ).1,
{
    lemma_begin_splits(fields, i, bit, packed, target, tags, k, k + 1);
    let at = begin(fields, i, bit, packed, target, tags, k);
    let next = placed(fields[k], at, packed, target, tags).1;
    assert(begin(fields, k + 1, next, packed, target, tags, k + 1) == next);
}

proof fn lemma_end_from(
    fields: Seq<Field>,
    i: int,
    bit: usize,
    packed: bool,
    target: Target,
    tags: Map<Seq<char>, Ty>,
    k: int,
)
    requires
        0 <= i <= k <= fields.len(),
    ensures
        fields_end(fields, i, bit, packed, target, tags, tags.dom().len()) == fields_end(
            fields,
            k,
            begin(fields, i, bit, packed, target, tags, k),
            packed,
            target,
            tags,
            tags.dom().len(),
        ),
    decreases k - i,
{
    if i < k {
        let next = placed(fields[i], bit, packed, target, tags).1;
        assert(member_align(fields[i].ty, packed, target, tags, tags.dom().len())
            == align_of_member(fields[i], packed, target, tags));
        lemma_end_from(fields, i + 1, next, packed, target, tags, k);
    }
}

proof fn lemma_end_grows(
    fields: Seq<Field>,
    i: int,
    bit: usize,
    packed: bool,
    target: Target,
    tags: Map<Seq<char>, Ty>,
)
    requires
        0 <= i <= fields.len(),
    ensures
        fields_end(fields, i, bit, packed, target, tags, tags.dom().len()) >= bit,
{
    lemma_end_from(fields, i, bit, packed, target, tags, fields.len() as int);
    lemma_begin_grows(fields, i, bit, packed, target, tags, fields.len() as int);
}

proof fn lemma_member_is_placed(
    t: Ty,
    fields: Seq<Field>,
    packed: bool,
    k: int,
    name: Seq<char>,
    chain: Seq<Step>,
    target: Target,
    tags: Map<Seq<char>, Ty>,
)
    requires
        t matches Ty::Struct { fields: fs, packed: p, .. } && fs == fields && p == packed,
        is_countable(t, target, tags),
        is_member(fields, k, name, chain, target, tags),
        fields[k].bit_width is None,
        chain == seq![Step::Field(name)],
    ensures
        ({
            let at = placed(
                fields[k],
                begin(fields, 0, 0, packed, target, tags, k),
                packed,
                target,
                tags,
            );
            let size = size_with_tags(fields[k].ty, target, tags);
            &&& offset_of(t, chain, target, tags) == Some((at.0 / 8) as u64)
            &&& at.1 < usize::MAX
            &&& at.0 % 8 == 0
            &&& at.1 == at.0 + size * 8
            &&& (at.0 / 8) as int % align_of_member(fields[k], packed, target, tags) as int == 0
            &&& at.0 / 8 + size <= size_with_tags(t, target, tags)
        }),
{
    let fuel = tags.dom().len();
    assert(chain.skip(1) =~= Seq::empty());
    lemma_found(fields, 0, 0, false, packed, k, name, chain, target, tags);
    lemma_begin_in_struct(fields, 0, 0, packed, target, tags, k);
    let from = begin(fields, 0, 0, packed, target, tags, k);
    let at = placed(fields[k], from, packed, target, tags);
    lemma_begin_step(fields, 0, 0, packed, target, tags, k);
    lemma_end_from(fields, 0, 0, packed, target, tags, k + 1);
    lemma_end_grows(fields, k + 1, at.1, packed, target, tags);
    let end = fields_end(fields, 0, 0, packed, target, tags, fuel);
    assert(end >= at.1);
    let size = size_with_tags(t, target, tags);
    assert(size == round_up(bytes_for(end), align_spec(t, target, tags, fuel)));
    lemma_rounding_never_shrinks(bytes_for(end), align_spec(t, target, tags, fuel));
    assert(bytes_for(end) <= size);
    assert(end < usize::MAX);
    lemma_alignment_is_power_of_two(fields[k].ty, target, tags, fuel);
    lemma_place_bounds(
        from,
        fields[k].bit_width,
        size_with_tags(fields[k].ty, target, tags),
        align_of_member(fields[k], packed, target, tags),
    );
}

proof fn lemma_union_begin(
    fields: Seq<Field>,
    i: int,
    packed: bool,
    target: Target,
    tags: Map<Seq<char>, Ty>,
    k: int,
)
    requires
        0 <= i <= k <= fields.len(),
        forall|j: int| 0 <= j < k ==> (#[trigger] fields[j]).bit_width != Some(0u32),
    ensures
        begin_in(fields, i, 0, true, packed, target, tags, k) == 0,
    decreases k - i,
{
    if i < k {
        assert(fields[i].bit_width != Some(0u32));
        lemma_union_begin(fields, i + 1, packed, target, tags, k);
    }
}

proof fn lemma_extent_holds(
    fields: Seq<Field>,
    i: int,
    k: int,
    target: Target,
    tags: Map<Seq<char>, Ty>,
    fuel: nat,
)
    requires
        0 <= i <= k < fields.len(),
        fields[k].bit_width is None,
    ensures
        size_spec(fields[k].ty, target, tags, fuel) <= fields_extent(fields, i, target, tags, fuel),
    decreases k - i,
{
    if i < k {
        lemma_extent_holds(fields, i + 1, k, target, tags, fuel);
    }
}

/// `offsetof` and the address of a member behind a null pointer are the offset of
/// that member in the type that is named.
pub proof fn lemma_offsetof_is_the_offset(
    st: State,
    call: Expression,
    access: Expression,
    tn: TypeName,
    inner: Ty,
    member: Symbol,
)
    requires
        call matches Expression::BuiltinCall { builtin, args, .. } && builtin
            == BuiltinKind::Offsetof && args@.len() == 2 && (args@[0] matches
            Expression::SizeofType { ty_name, .. } && named_type(st, *ty_name) == inner) && (
        args@[1] matches Expression::Identifier { name, .. } && name == member),
        access matches Expression::UnaryOp { op, operand, .. } && op == UnaryOp::AddressOf && (
        *operand matches Expression::PointerMemberAccess { object, member: m, .. } && m == member
            && (*object matches Expression::Cast { ty_name, operand: zero, .. } && *ty_name == tn
            && (*zero matches Expression::IntegerLiteral { value, .. } && value == 0))),
        named_type(st, tn) matches Ty::Pointer(p, _) && *p == inner,
    ensures
        const_value(st, call) == offset_of_member(inner, st.text(member), st.target, st.tags),
        offset_of_member(inner, st.text(member), st.target, st.tags) is Some ==> const_value(
            st,
            access,
        ) == offset_of_member(inner, st.text(member), st.target, st.tags),
{
    match call {
        Expression::BuiltinCall { args, .. } => {
            assert(designator(st, args@[1]) == seq![Step::Field(st.text(member))]);
        },
        _ => {},
    }
    match access {
        Expression::UnaryOp { operand, .. } => match *operand {
            Expression::PointerMemberAccess { object, .. } => {
                let none = Seq::<Step>::empty();
                let one = seq![Step::Field(st.text(member))];
                assert(one + none =~= one);
                assert(null_offset(st, *operand, none) == null_offset(st, *object, one));
                match *object {
                    Expression::Cast { operand: zero, .. } => {
                        assert(const_value(st, *zero) == Some(0u64));
                    },
                    _ => {},
                }
            },
            _ => {},
        },
        _ => {},
    }
}

/// A bit-field that is no wider than its type and stands behind a plain member begins in the
/// byte behind that member.
pub proof fn lemma_bit_field_follows_its_neighbour(
    t: Ty,
    fields: Seq<Field>,
    packed: bool,
    k: int,
    a: Seq<char>,
    b: Seq<char>,
    width: u32,
    target: Target,
    tags: Map<Seq<char>, Ty>,
)
    requires
        t matches Ty::Struct { fields: fs, packed: p, .. } && fs == fields && p == packed,
        is_countable(t, target, tags),
        0 < k,
        is_member(fields, k - 1, a, seq![Step::Field(a)], target, tags),
        is_member(fields, k, b, seq![Step::Field(b)], target, tags),
        fields[k - 1].bit_width is None,
        fields[k].bit_width == Some(width),
        0 < width <= size_with_tags(fields[k].ty, target, tags) * 8,
    ensures
        ({
            let x = offset_of_member(t, a, target, tags);
            let y = offset_of_member(t, b, target, tags);
            &&& x is Some
            &&& y is Some
            &&& y->0 == x->0 + size_with_tags(fields[k - 1].ty, target, tags)
        }),
{
    let fuel = tags.dom().len();
    lemma_member_is_placed(t, fields, packed, k - 1, a, seq![Step::Field(a)], target, tags);
    lemma_begin_step(fields, 0, 0, packed, target, tags, k - 1);
    lemma_found_bit_field(fields, 0, 0, packed, k, b, target, tags);
    let at = begin(fields, 0, 0, packed, target, tags, k);
    let size = size_with_tags(fields[k].ty, target, tags);
    let align = align_of_member(fields[k], packed, target, tags);
    lemma_begin_step(fields, 0, 0, packed, target, tags, k);
    lemma_end_from(fields, 0, 0, packed, target, tags, k + 1);
    let after = placed(fields[k], at, packed, target, tags).1;
    lemma_end_grows(fields, k + 1, after, packed, target, tags);
    let end = fields_end(fields, 0, 0, packed, target, tags, fuel);
    lemma_rounding_never_shrinks(bytes_for(end), align_spec(t, target, tags, fuel));
    assert(after < usize::MAX);
    lemma_rounding_never_shrinks(at, saturated(align * 8));
    assert(placed(fields[k], at, packed, target, tags).0 == at) by {
        let boundary = round_up(at, saturated(align * 8));
        assert(boundary >= at);
        let unit_end = saturated(boundary + saturated(size * 8));
        assert(saturated(at + width) <= unit_end);
    }
}

proof fn lemma_found_bit_field(
    fields: Seq<Field>,
    i: int,
    bit: usize,
    packed: bool,
    k: int,
    name: Seq<char>,
    target: Target,
    tags: Map<Seq<char>, Ty>,
)
    requires
        0 <= i <= k,
        is_member(fields, k, name, seq![Step::Field(name)], target, tags),
        fields[k].bit_width matches Some(w) && w > 0,
    ensures
        ({
            let at = placed(
                fields[k],
                begin(fields, i, bit, packed, target, tags, k),
                packed,
                target,
                tags,
            ).0;
            offset_among(
                fields,
                i,
                bit,
                false,
                packed,
                seq![Step::Field(name)],
                target,
                tags,
                tags.dom().len(),
            ) == Some((at / 8) as u64)
        }),
    decreases k - i,
{
    if i < k {
        let f = fields[i];
        assert(is_passed(f, name, seq![Step::Field(name)], target, tags));
        let next = placed(f, bit, packed, target, tags).1;
        lemma_found_bit_field(fields, i + 1, next, packed, k, name, target, tags);
    }
}

} // verus!
