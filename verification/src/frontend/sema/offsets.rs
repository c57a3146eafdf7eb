//! Byte offsets of members, as `offsetof` gives them.

use crate::common::layout::{
    align_with_tags, alignof_ctype_resolved, place, place_member, size_with_tags,
    sizeof_ctype_resolved, tag_definition, tag_reference, tags_of,
};
use crate::common::target::Target;
use crate::common::text::{opt_chars, str_eq};
use crate::common::types::{fields_of, CType, Field, StructField, Ty};
use vstd::hash_map::StringHashMap;
use vstd::prelude::*;

verus! {

broadcast use crate::common::types::group_type_models;

/// One step of a member designator.
#[derive(Debug)]
pub enum OffsetofStep {
    Field(String),
    Index(usize),
}

/// One step of a member designator, as contracts see it.
pub enum Step {
    Field(Seq<char>),
    Index(usize),
}

/// The model of a step.
pub open spec fn step_of(s: OffsetofStep) -> Step {
    match s {
        OffsetofStep::Field(n) => Step::Field(n@),
        OffsetofStep::Index(i) => Step::Index(i),
    }
}

/// The models of several steps.
pub open spec fn steps_of(s: Seq<OffsetofStep>) -> Seq<Step> {
    Seq::new(s.len(), |i: int| step_of(s[i]))
}

/// The text by which a designator can name a member: that of an unnamed member
/// is empty.
pub open spec fn field_text(f: Field) -> Seq<char> {
    match f.name {
        Some(n) => n,
        None => Seq::empty(),
    }
}

/// The offset that a designator leads to within a type. Tag references are
/// looked up in `tags`, at most `fuel` of them one inside the other.
pub open spec fn offset_in(
    t: Ty,
    chain: Seq<Step>,
    target: Target,
    tags: Map<Seq<char>, Ty>,
    fuel: nat,
) -> Option<u64>
    decreases fuel, t, 0int,
{
    if chain.len() == 0 {
        Some(0)
    } else {
        match t {
            Ty::Qualified(inner, _) => offset_in(*inner, chain, target, tags, fuel),
            Ty::Typedef { underlying, .. } => offset_in(*underlying, chain, target, tags, fuel),
            Ty::Array(elem, _) => match chain[0] {
                Step::Index(i) => match offset_in(*elem, chain.skip(1), target, tags, fuel) {
                    Some(rest) => Some(
                        (i as u64).wrapping_mul(
                            size_with_tags(*elem, target, tags) as u64,
                        ).wrapping_add(rest),
                    ),
                    None => None,
                },
                Step::Field(_) => None,
            },
            Ty::Struct { fields, packed, .. } => match tag_reference(t) {
                Some(n) => if tags.contains_key(n) && fuel > 0 {
                    offset_in(tags[n], chain, target, tags, (fuel - 1) as nat)
                } else {
                    None
                },
                None => match chain[0] {
                    Step::Field(_) => offset_among(
                        fields,
                        0,
                        0,
                        false,
                        packed,
                        chain,
                        target,
                        tags,
                        fuel,
                    ),
                    Step::Index(_) => None,
                },
            },
            Ty::Union { fields, packed, .. } => match tag_reference(t) {
                Some(n) => if tags.contains_key(n) && fuel > 0 {
                    offset_in(tags[n], chain, target, tags, (fuel - 1) as nat)
                } else {
                    None
                },
                None => match chain[0] {
                    Step::Field(_) => offset_among(
                        fields,
                        0,
                        0,
                        true,
                        packed,
                        chain,
                        target,
                        tags,
                        fuel,
                    ),
                    Step::Index(_) => None,
                },
            },
            _ => None,
        }
    }
}

/// The offset that a designator leads to among the members from the `i`-th on,
/// if the first of them may begin at `bit_offset`. All members of a union begin
/// at its start.
pub open spec fn offset_among(
    fields: Seq<Field>,
    i: int,
    bit_offset: usize,
    is_union: bool,
    packed: bool,
    chain: Seq<Step>,
    target: Target,
    tags: Map<Seq<char>, Ty>,
    fuel: nat,
) -> Option<u64>
    decreases fuel, fields, fields.len() - i,
{
    if i < 0 || i >= fields.len() {
        None
    } else {
        let f = fields[i];
        let align = if packed {
            1
        } else {
            align_with_tags(f.ty, target, tags)
        };
        let at = place(bit_offset, f.bit_width, size_with_tags(f.ty, target, tags), align);
        let next = if is_union && f.bit_width != Some(0u32) {
            bit_offset
        } else {
            at.1
        };
        let byte = (at.0 / 8) as u64;
        let wanted = chain[0] == Step::Field(field_text(f));
        let here = match f.bit_width {
            Some(bits) => if bits != 0 && wanted {
                Some(byte)
            } else {
                None
            },
            None => if wanted {
                match offset_in(f.ty, chain.skip(1), target, tags, fuel) {
                    Some(rest) => Some(byte.wrapping_add(rest)),
                    None => None,
                }
            } else if field_text(f).len() == 0 {
                match offset_in(f.ty, chain, target, tags, fuel) {
                    Some(rest) => Some(byte.wrapping_add(rest)),
                    None => None,
                }
            } else {
                None
            },
        };
        if here is Some || (wanted && f.bit_width is None) {
            here
        } else {
            offset_among(fields, i + 1, next, is_union, packed, chain, target, tags, fuel)
        }
    }
}

/// The offset that a designator leads to within a type.
pub open spec fn offset_of(
    t: Ty,
    chain: Seq<Step>,
    target: Target,
    tags: Map<Seq<char>, Ty>,
) -> Option<u64> {
    offset_in(t, chain, target, tags, tags.dom().len())
}

fn names_step(step: &OffsetofStep, name: &Option<String>) -> (r: bool)
    ensures
        r == (step_of(*step) == Step::Field(
            match *name {
                Some(n) => n@,
                None => Seq::empty(),
            },
        )),
{
    match step {
        OffsetofStep::Field(wanted) => match name {
            Some(n) => str_eq(wanted.as_str(), n.as_str()),
            None => {
                proof {
                    reveal_strlit("");
                    assert(""@ =~= Seq::<char>::empty());
                }
                str_eq(wanted.as_str(), "")
            },
        },
        OffsetofStep::Index(_) => false,
    }
}

fn is_unnamed(name: &Option<String>) -> (r: bool)
    ensures
        r == ((match *name {
            Some(n) => n@,
            None => Seq::empty(),
        }).len() == 0),
{
    match name {
        Some(n) => {
            proof {
                reveal_strlit("");
                assert(""@ =~= Seq::<char>::empty());
                if n@.len() == 0 {
                    assert(n@ =~= ""@);
                }
            }
            str_eq(n.as_str(), "")
        },
        None => true,
    }
}

fn offset_rec(
    t: &CType,
    chain: &Vec<OffsetofStep>,
    from: usize,
    target: Target,
    tags: &StringHashMap<CType>,
    fuel: usize,
) -> (r: Option<u64>)
    requires
        from <= chain@.len(),
    ensures
        r == offset_in(
            t@,
            steps_of(chain@).skip(from as int),
            target,
            tags_of(tags@),
            fuel as nat,
        ),
    decreases fuel, t, 0int,
{
    let ghost steps = steps_of(chain@).skip(from as int);
    if from >= chain.len() {
        return Some(0);
    }
    assert(steps.skip(1) =~= steps_of(chain@).skip(from + 1));
    assert(steps[0] == step_of(chain@[from as int]));
    match t {
        CType::Qualified(inner, _) => offset_rec(inner, chain, from, target, tags, fuel),
        CType::Typedef { underlying, .. } => offset_rec(
            underlying,
            chain,
            from,
            target,
            tags,
            fuel,
        ),
        CType::Array(elem, _) => match &chain[from] {
            OffsetofStep::Index(i) => {
                let size: usize = sizeof_ctype_resolved(elem, target, tags);
                match offset_rec(elem, chain, from + 1, target, tags, fuel) {
                    Some(rest) => Some(
                        (*i as u64).wrapping_mul(size as u64).wrapping_add(rest),
                    ),
                    None => None,
                }
            },
            OffsetofStep::Field(_) => None,
        },
        CType::Struct { name, fields, packed, .. } => {
            assert(fields_of(fields@).len() == fields@.len());
            if name.is_some() && fields.len() == 0 {
                match tag_definition(name, fields, tags, fuel) {
                    Some(d) => offset_rec(d, chain, from, target, tags, fuel - 1),
                    None => None,
                }
            } else {
                match &chain[from] {
                    OffsetofStep::Field(_) => offset_among_rec(
                        fields,
                        false,
                        *packed,
                        chain,
                        from,
                        target,
                        tags,
                        fuel,
                    ),
                    OffsetofStep::Index(_) => None,
                }
            }
        },
        CType::Union { name, fields, packed, .. } => {
            assert(fields_of(fields@).len() == fields@.len());
            if name.is_some() && fields.len() == 0 {
                match tag_definition(name, fields, tags, fuel) {
                    Some(d) => offset_rec(d, chain, from, target, tags, fuel - 1),
                    None => None,
                }
            } else {
                match &chain[from] {
                    OffsetofStep::Field(_) => offset_among_rec(
                        fields,
                        true,
                        *packed,
                        chain,
                        from,
                        target,
                        tags,
                        fuel,
                    ),
                    OffsetofStep::Index(_) => None,
                }
            }
        },
        _ => None,
    }
}

fn offset_among_rec(
    fields: &Vec<StructField>,
    is_union: bool,
    packed: bool,
    chain: &Vec<OffsetofStep>,
    from: usize,
    target: Target,
    tags: &StringHashMap<CType>,
    fuel: usize,
) -> (r: Option<u64>)
    requires
        from < chain@.len(),
    ensures
        r == offset_among(
            fields_of(fields@),
            0,
            0,
            is_union,
            packed,
            steps_of(chain@).skip(from as int),
            target,
            tags_of(tags@),
            fuel as nat,
        ),
    decreases fuel, fields@, 1int,
{
    let ghost steps = steps_of(chain@).skip(from as int);
    let ghost fs = fields_of(fields@);
    let ghost m = tags_of(tags@);
    assert(steps.skip(1) =~= steps_of(chain@).skip(from + 1));
    assert(steps[0] == step_of(chain@[from as int]));
    let len: usize = chain.len();
    assert(from < len);
    let mut offset: usize = 0;
    let mut i: usize = 0;
    #[verifier::loop_isolation(false)]
    while i < fields.len()
        invariant
            i <= fields@.len(),
            offset_among(fs, i as int, offset, is_union, packed, steps, target, m, fuel as nat)
                == offset_among(fs, 0, 0, is_union, packed, steps, target, m, fuel as nat),
        decreases fields@.len() - i,
    {
        let f: &StructField = &fields[i];
        assert(fs[i as int].name == opt_chars(f.name));
        let size: usize = sizeof_ctype_resolved(&f.ty, target, tags);
        let align: usize = if packed {
            1
        } else {
            alignof_ctype_resolved(&f.ty, target, tags)
        };
        let (start, end): (usize, usize) = place_member(offset, f.bit_width, size, align);
        let byte: u64 = (start / 8) as u64;
        let wanted: bool = names_step(&chain[from], &f.name);
        let mut skipped: bool = false;
        match f.bit_width {
            Some(bits) => {
                if bits != 0 && wanted {
                    return Some(byte);
                }
                skipped = bits == 0;
            },
            None => {
                if wanted {
                    return match offset_rec(&f.ty, chain, from + 1, target, tags, fuel) {
                        Some(rest) => Some(byte.wrapping_add(rest)),
                        None => None,
                    };
                }
                if is_unnamed(&f.name) {
                    match offset_rec(&f.ty, chain, from, target, tags, fuel) {
                        Some(rest) => {
                            return Some(byte.wrapping_add(rest));
                        },
                        None => {},
                    }
                }
            },
        }
        if !is_union || skipped {
            offset = end;
        }
        i += 1;
    }
    None
}

/// The offset that a designator leads to within a type.
pub fn field_offset(
    t: &CType,
    chain: &Vec<OffsetofStep>,
    target: Target,
    tags: &StringHashMap<CType>,
) -> (r: Option<u64>)
    ensures
        r == offset_of(t@, steps_of(chain@), target, tags_of(tags@)),
{
    assert(tags_of(tags@).dom() =~= tags@.dom());
    assert(steps_of(chain@).skip(0) =~= steps_of(chain@));
    offset_rec(t, chain, 0, target, tags, tags.len())
}

} // verus!
