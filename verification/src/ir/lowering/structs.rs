//! Struct and union definitions, and the references among them.

use crate::common::layout::tags_of;
use crate::common::text::{own, own_opt};
use crate::common::types::{
    fields_of, CType, Field, StructField, Ty,
};
use crate::frontend::parser::ast::{
    BlockItem, ForInit, Statement, StructMember, StructOrUnionSpecifier, TypeSpecifier,
};
use crate::frontend::sema::analyzer::SemanticAnalyzer;
use crate::frontend::sema::attributes::{
    any_says_packed, attributes_alignment, members_alignment, merge_alignment, stricter,
};
use crate::frontend::sema::resolve::{field_list, make_aggregate};
use crate::frontend::sema::specifiers::aggregate;
use crate::frontend::sema::state::State;
use vstd::hash_map::StringHashMap;
use vstd::prelude::*;

verus! {

broadcast use crate::common::types::group_type_models;

// ---------------------------------------------------------------------------
// Collecting definitions
// ---------------------------------------------------------------------------

/// A definition with its tag.
#[derive(Debug)]
pub struct TagDefinition {
    pub tag: String,
    pub ty: CType,
}

/// The models of definitions.
pub open spec fn definitions_of(s: Seq<TagDefinition>) -> Seq<(Seq<char>, Ty)> {
    s.map_values(|d: TagDefinition| (d.tag@, d.ty@))
}

/// The type that a struct or union definition with a tag defines.
#[verifier::opaque]
pub open spec fn defined_type(
    st: State,
    s: StructOrUnionSpecifier,
    ms: Seq<StructMember>,
    tag: Seq<char>,
    is_struct: bool,
) -> Ty {
    aggregate(
        is_struct,
        Some(tag),
        field_list(st, ms),
        any_says_packed(st, s.attributes@),
        stricter(
            attributes_alignment(st, s.attributes@, 0, None),
            members_alignment(st, ms, 0, None),
        ),
    )
}

/// The definitions with that of a specifier, and with those inside it.
pub open spec fn with_definition(
    st: State,
    s: StructOrUnionSpecifier,
    is_struct: bool,
    defs: Seq<(Seq<char>, Ty)>,
) -> Seq<(Seq<char>, Ty)>
    decreases s, 0int,
{
    match s.members {
        None => defs,
        Some(ms) => {
            let own_def = match s.tag {
                Some(tag) => if tag.0 < st.names.len() {
                    let name = st.names[tag.0 as int];
                    defs.push((name, defined_type(st, s, ms@, name, is_struct)))
                } else {
                    defs
                },
                None => defs,
            };
            with_member_definitions(st, ms@, 0, own_def)
        },
    }
}

/// The definitions with those of the type specifiers from the `i`-th on.
pub open spec fn with_definitions(
    st: State,
    specs: Seq<TypeSpecifier>,
    i: int,
    defs: Seq<(Seq<char>, Ty)>,
) -> Seq<(Seq<char>, Ty)>
    decreases specs, specs.len() - i,
{
    if i < 0 || i >= specs.len() {
        defs
    } else {
        let next = match specs[i] {
            TypeSpecifier::Struct(s) => with_definition(st, s, true, defs),
            TypeSpecifier::Union(s) => with_definition(st, s, false, defs),
            _ => defs,
        };
        with_definitions(st, specs, i + 1, next)
    }
}

/// The definitions with those of the members from the `i`-th on.
pub open spec fn with_member_definitions(
    st: State,
    ms: Seq<StructMember>,
    i: int,
    defs: Seq<(Seq<char>, Ty)>,
) -> Seq<(Seq<char>, Ty)>
    decreases ms, ms.len() - i,
{
    if i < 0 || i >= ms.len() {
        defs
    } else {
        with_member_definitions(
            st,
            ms,
            i + 1,
            with_definitions(st, ms[i].specifiers.type_specifiers@, 0, defs),
        )
    }
}

/// The definitions with those of the block items from the `i`-th on.
pub open spec fn with_block_definitions(
    st: State,
    items: Seq<BlockItem>,
    i: int,
    defs: Seq<(Seq<char>, Ty)>,
) -> Seq<(Seq<char>, Ty)>
    decreases items, items.len() - i,
{
    if i < 0 || i >= items.len() {
        defs
    } else {
        let next = match items[i] {
            BlockItem::Declaration(d) => with_definitions(
                st,
                d.specifiers.type_specifiers@,
                0,
                defs,
            ),
            BlockItem::Statement(s) => with_statement_definitions(st, s, defs),
        };
        with_block_definitions(st, items, i + 1, next)
    }
}

/// The definitions with those of the first clause of a `for`.
pub open spec fn with_clause_definitions(
    st: State,
    init: Option<ForInit>,
    defs: Seq<(Seq<char>, Ty)>,
) -> Seq<(Seq<char>, Ty)> {
    match init {
        Some(ForInit::Declaration(d)) => with_definitions(
            st,
            d.specifiers.type_specifiers@,
            0,
            defs,
        ),
        _ => defs,
    }
}

/// The definitions with those of a statement.
pub open spec fn with_statement_definitions(
    st: State,
    s: Statement,
    defs: Seq<(Seq<char>, Ty)>,
) -> Seq<(Seq<char>, Ty)>
    decreases s, 0int,
{
    match s {
        Statement::Compound(c) => with_block_definitions(st, c.items@, 0, defs),
        Statement::If { then_branch, else_branch, .. } => {
            let next = with_statement_definitions(st, *then_branch, defs);
            match else_branch {
                Some(x) => with_statement_definitions(st, *x, next),
                None => next,
            }
        },
        Statement::While { body, .. } => with_statement_definitions(st, *body, defs),
        Statement::DoWhile { body, .. } => with_statement_definitions(st, *body, defs),
        Statement::Switch { body, .. } => with_statement_definitions(st, *body, defs),
        Statement::Labeled { statement, .. } => with_statement_definitions(st, *statement, defs),
        Statement::Case { statement, .. } => with_statement_definitions(st, *statement, defs),
        Statement::Default { statement, .. } => with_statement_definitions(st, *statement, defs),
        Statement::For { init, body, .. } => with_statement_definitions(
            st,
            *body,
            with_clause_definitions(st, init, defs),
        ),
        _ => defs,
    }
}

fn define(
    s: &StructOrUnionSpecifier,
    ms: &Vec<StructMember>,
    tag: &str,
    is_struct: bool,
    sema: &SemanticAnalyzer<'_>,
) -> (r: CType)
    ensures
        r@ == defined_type(sema@, *s, ms@, tag@, is_struct),
{
    proof {
        reveal(defined_type);
    }
    let fields: Vec<StructField> = sema.list_fields(ms);
    let packed: bool = sema.has_packed_attribute(&s.attributes);
    let aligned: Option<usize> = merge_alignment(
        sema.alignment_of_attributes(&s.attributes, None),
        sema.alignment_of_members(ms),
    );
    make_aggregate(is_struct, Some(own(tag)), fields, packed, aligned)
}

fn collect_definition(
    s: &StructOrUnionSpecifier,
    is_struct: bool,
    sema: &SemanticAnalyzer<'_>,
    out: &mut Vec<TagDefinition>,
)
    ensures
        definitions_of(final(out)@) == with_definition(
            sema@,
            *s,
            is_struct,
            definitions_of(old(out)@),
        ),
    decreases s, 0int,
{
    match &s.members {
        None => {},
        Some(ms) => {
            match s.tag {
                Some(tag) => {
                    if (tag.0 as usize) < sema.interner.len() {
                        let name: &str = sema.interner.resolve(tag);
                        let ty: CType = define(s, ms, name, is_struct, sema);
                        let ghost before = out@;
                        let ghost entry = (name@, ty@);
                        out.push(TagDefinition { tag: own(name), ty });
                        assert(definitions_of(out@) =~= definitions_of(before).push(entry));
                    }
                },
                None => {},
            }
            collect_struct_defs_from_members(ms, sema, out);
        },
    }
}

/// Collects the struct and union definitions that type specifiers hold.
pub fn collect_struct_defs_from_specifiers(
    specs: &Vec<TypeSpecifier>,
    sema: &SemanticAnalyzer<'_>,
    out: &mut Vec<TagDefinition>,
)
    ensures
        definitions_of(final(out)@) == with_definitions(
            sema@,
            specs@,
            0,
            definitions_of(old(out)@),
        ),
    decreases specs@, specs@.len() + 1,
{
    let ghost defs = definitions_of(out@);
    let mut i: usize = 0;
    #[verifier::loop_isolation(false)]
    while i < specs.len()
        invariant
            i <= specs@.len(),
            with_definitions(sema@, specs@, i as int, definitions_of(out@)) == with_definitions(
                sema@,
                specs@,
                0,
                defs,
            ),
        decreases specs@.len() - i,
    {
        match &specs[i] {
            TypeSpecifier::Struct(s) => collect_definition(s, true, sema, out),
            TypeSpecifier::Union(s) => collect_definition(s, false, sema, out),
            _ => {},
        }
        i += 1;
    }
}

fn collect_struct_defs_from_members(
    ms: &Vec<StructMember>,
    sema: &SemanticAnalyzer<'_>,
    out: &mut Vec<TagDefinition>,
)
    ensures
        definitions_of(final(out)@) == with_member_definitions(
            sema@,
            ms@,
            0,
            definitions_of(old(out)@),
        ),
    decreases ms@, ms@.len() + 1,
{
    let ghost defs = definitions_of(out@);
    let mut i: usize = 0;
    #[verifier::loop_isolation(false)]
    while i < ms.len()
        invariant
            i <= ms@.len(),
            with_member_definitions(sema@, ms@, i as int, definitions_of(out@))
                == with_member_definitions(sema@, ms@, 0, defs),
        decreases ms@.len() - i,
    {
        collect_struct_defs_from_specifiers(&ms[i].specifiers.type_specifiers, sema, out);
        i += 1;
    }
}

/// Collects the struct and union definitions that a block holds.
pub fn collect_struct_defs_from_compound(
    items: &Vec<BlockItem>,
    sema: &SemanticAnalyzer<'_>,
    out: &mut Vec<TagDefinition>,
)
    ensures
        definitions_of(final(out)@) == with_block_definitions(
            sema@,
            items@,
            0,
            definitions_of(old(out)@),
        ),
    decreases items@, items@.len() + 1,
{
    let ghost defs = definitions_of(out@);
    let mut i: usize = 0;
    #[verifier::loop_isolation(false)]
    while i < items.len()
        invariant
            i <= items@.len(),
            with_block_definitions(sema@, items@, i as int, definitions_of(out@))
                == with_block_definitions(sema@, items@, 0, defs),
        decreases items@.len() - i,
    {
        match &items[i] {
            BlockItem::Declaration(d) => collect_struct_defs_from_specifiers(
                &d.specifiers.type_specifiers,
                sema,
                out,
            ),
            BlockItem::Statement(s) => collect_struct_defs_from_statement(s, sema, out),
        }
        i += 1;
    }
}

/// Collects the struct and union definitions that a statement holds.
pub fn collect_struct_defs_from_statement(
    stmt: &Statement,
    sema: &SemanticAnalyzer<'_>,
    out: &mut Vec<TagDefinition>,
)
    ensures
        definitions_of(final(out)@) == with_statement_definitions(
            sema@,
            *stmt,
            definitions_of(old(out)@),
        ),
    decreases stmt, 0int,
{
    match stmt {
        Statement::Compound(c) => collect_struct_defs_from_compound(&c.items, sema, out),
        Statement::If { then_branch, else_branch, .. } => {
            collect_struct_defs_from_statement(then_branch, sema, out);
            match else_branch {
                Some(x) => collect_struct_defs_from_statement(x, sema, out),
                None => {},
            }
        },
        Statement::While { body, .. } => collect_struct_defs_from_statement(body, sema, out),
        Statement::DoWhile { body, .. } => collect_struct_defs_from_statement(body, sema, out),
        Statement::Switch { body, .. } => collect_struct_defs_from_statement(body, sema, out),
        Statement::Labeled { statement, .. } => collect_struct_defs_from_statement(
            statement,
            sema,
            out,
        ),
        Statement::Case { statement, .. } => collect_struct_defs_from_statement(
            statement,
            sema,
            out,
        ),
        Statement::Default { statement, .. } => collect_struct_defs_from_statement(
            statement,
            sema,
            out,
        ),
        Statement::For { init, body, .. } => {
            match init {
                Some(ForInit::Declaration(d)) => collect_struct_defs_from_specifiers(
                    &d.specifiers.type_specifiers,
                    sema,
                    out,
                ),
                _ => {},
            }
            collect_struct_defs_from_statement(body, sema, out);
        },
        _ => {},
    }
}

// ---------------------------------------------------------------------------
// Forward references
// ---------------------------------------------------------------------------

/// Whether a type mentions a struct or union by its tag alone, within the depth
/// that is looked into.
pub open spec fn mentions_tag(t: Ty, depth: int) -> bool
    decreases t,
{
    if depth > 8 {
        false
    } else {
        match t {
            Ty::Struct { name, fields, .. } => if name is Some && fields.len() == 0 {
                true
            } else {
                member_mentions_tag(fields, depth + 1)
            },
            Ty::Union { name, fields, .. } => if name is Some && fields.len() == 0 {
                true
            } else {
                member_mentions_tag(fields, depth + 1)
            },
            Ty::Pointer(inner, _) => mentions_tag(*inner, depth + 1),
            Ty::Array(inner, _) => mentions_tag(*inner, depth + 1),
            Ty::Atomic(inner) => mentions_tag(*inner, depth + 1),
            Ty::Qualified(inner, _) => mentions_tag(*inner, depth + 1),
            Ty::Typedef { underlying, .. } => mentions_tag(*underlying, depth + 1),
            _ => false,
        }
    }
}

/// Whether one of the members mentions a struct or union by its tag alone.
pub open spec fn member_mentions_tag(fields: Seq<Field>, depth: int) -> bool
    decreases fields,
{
    exists|i: int|
        #![trigger fields[i]]
        0 <= i < fields.len() && mentions_tag(fields[i].ty, depth)
}

/// Whether a definition still has members that mention a tag alone.
pub open spec fn is_open_definition(t: Ty) -> bool {
    match t {
        Ty::Struct { fields, .. } => member_mentions_tag(fields, 1),
        Ty::Union { fields, .. } => member_mentions_tag(fields, 1),
        _ => false,
    }
}

/// Whether a definition can take the place of its tag.
pub open spec fn is_usable(t: Ty) -> bool {
    match t {
        Ty::Struct { fields, .. } => fields.len() > 0,
        Ty::Union { fields, .. } => fields.len() > 0,
        _ => true,
    }
}

/// A type in which tags were replaced by their definitions, down to the depth
/// that is looked into.
pub open spec fn resolved(tags: Map<Seq<char>, Ty>, t: Ty, depth: int) -> Ty
    decreases 8 - depth, 0int,
{
    if depth > 6 {
        t
    } else {
        match t {
            Ty::Struct { name, fields, packed, aligned } => if name is Some && fields.len() == 0 {
                looked_up(tags, t, name->0, depth)
            } else {
                Ty::Struct {
                    name,
                    fields: fields_resolved(tags, fields, depth + 1),
                    packed,
                    aligned,
                }
            },
            Ty::Union { name, fields, packed, aligned } => if name is Some && fields.len() == 0 {
                looked_up(tags, t, name->0, depth)
            } else {
                Ty::Union {
                    name,
                    fields: fields_resolved(tags, fields, depth + 1),
                    packed,
                    aligned,
                }
            },
            Ty::Typedef { name, underlying } => Ty::Typedef {
                name,
                underlying: Box::new(resolved(tags, *underlying, depth + 1)),
            },
            Ty::Array(inner, n) => Ty::Array(Box::new(resolved(tags, *inner, depth + 1)), n),
            Ty::Qualified(inner, q) => Ty::Qualified(
                Box::new(resolved(tags, *inner, depth + 1)),
                q,
            ),
            Ty::Atomic(inner) => Ty::Atomic(Box::new(resolved(tags, *inner, depth + 1))),
            Ty::Pointer(inner, q) => Ty::Pointer(Box::new(resolved(tags, *inner, depth + 1)), q),
            _ => t,
        }
    }
}

/// What takes the place of a type `t` that is a tag alone.
pub open spec fn looked_up(tags: Map<Seq<char>, Ty>, t: Ty, tag: Seq<char>, depth: int) -> Ty
    decreases 7 - depth, 2int,
{
    if depth > 6 {
        t
    } else if tags.contains_key(tag) && is_usable(tags[tag]) {
        completed(tags, tags[tag], depth + 1)
    } else {
        t
    }
}

/// A definition whose members were resolved.
pub open spec fn completed(tags: Map<Seq<char>, Ty>, t: Ty, depth: int) -> Ty
    decreases 8 - depth, 0int,
{
    if depth > 6 {
        t
    } else {
        match t {
            Ty::Struct { name, fields, packed, aligned } => Ty::Struct {
                name,
                fields: fields_resolved(tags, fields, depth + 1),
                packed,
                aligned,
            },
            Ty::Union { name, fields, packed, aligned } => Ty::Union {
                name,
                fields: fields_resolved(tags, fields, depth + 1),
                packed,
                aligned,
            },
            _ => t,
        }
    }
}

/// Members in whose types tags were replaced.
pub open spec fn fields_resolved(tags: Map<Seq<char>, Ty>, fields: Seq<Field>, depth: int) -> Seq<
    Field,
>
    decreases 8 - depth, 1int,
{
    Seq::new(
        fields.len(),
        |i: int| Field { ty: resolved(tags, fields[i].ty, depth), ..fields[i] },
    )
}

fn has_empty_type_ref(t: &CType, depth: u32) -> (r: bool)
    requires
        depth <= 9,
    ensures
        r == mentions_tag(t@, depth as int),
    decreases t,
{
    if depth > 8 {
        return false;
    }
    match t {
        CType::Struct { name, fields, .. } => {
            assert(fields_of(fields@).len() == fields@.len());
            if name.is_some() && fields.len() == 0 {
                true
            } else {
                any_empty_type_ref(fields, depth + 1)
            }
        },
        CType::Union { name, fields, .. } => {
            assert(fields_of(fields@).len() == fields@.len());
            if name.is_some() && fields.len() == 0 {
                true
            } else {
                any_empty_type_ref(fields, depth + 1)
            }
        },
        CType::Pointer(inner, _) => has_empty_type_ref(inner, depth + 1),
        CType::Array(inner, _) => has_empty_type_ref(inner, depth + 1),
        CType::Atomic(inner) => has_empty_type_ref(inner, depth + 1),
        CType::Qualified(inner, _) => has_empty_type_ref(inner, depth + 1),
        CType::Typedef { underlying, .. } => has_empty_type_ref(underlying, depth + 1),
        _ => false,
    }
}

fn any_empty_type_ref(fields: &Vec<StructField>, depth: u32) -> (r: bool)
    requires
        depth <= 9,
    ensures
        r == member_mentions_tag(fields_of(fields@), depth as int),
    decreases fields@,
{
    let mut i: usize = 0;
    #[verifier::loop_isolation(false)]
    while i < fields.len()
        invariant
            i <= fields@.len(),
            forall|j: int|
                #![trigger fields_of(fields@)[j]]
                0 <= j < i ==> !mentions_tag(fields_of(fields@)[j].ty, depth as int),
        decreases fields@.len() - i,
    {
        assert(fields_of(fields@)[i as int].ty == fields@[i as int].ty@);
        if has_empty_type_ref(&fields[i].ty, depth) {
            return true;
        }
        i += 1;
    }
    false
}

/// Whether a definition still has members that mention a tag alone.
pub fn has_empty_struct_refs(t: &CType) -> (r: bool)
    ensures
        r == is_open_definition(t@),
{
    match t {
        CType::Struct { fields, .. } => {
            assert(fields_of(fields@).len() == fields@.len());
            any_empty_type_ref(fields, 1)
        },
        CType::Union { fields, .. } => {
            assert(fields_of(fields@).len() == fields@.len());
            any_empty_type_ref(fields, 1)
        },
        _ => false,
    }
}

fn is_usable_definition(t: &CType) -> (r: bool)
    ensures
        r == is_usable(t@),
{
    match t {
        CType::Struct { fields, .. } => {
            assert(fields_of(fields@).len() == fields@.len());
            fields.len() > 0
        },
        CType::Union { fields, .. } => {
            assert(fields_of(fields@).len() == fields@.len());
            fields.len() > 0
        },
        _ => true,
    }
}

fn look_up(t: &CType, tag: &str, tags: &StringHashMap<CType>, depth: u32) -> (r: CType)
    requires
        depth <= 6,
    ensures
        r@ == looked_up(tags_of(tags@), t@, tag@, depth as int),
    decreases 7 - depth, 2int,
{
    match tags.get(tag) {
        Some(full) => {
            assert(tags_of(tags@)[tag@] == full@);
            if is_usable_definition(full) {
                complete_definition(full, tags, depth + 1)
            } else {
                t.clone()
            }
        },
        None => t.clone(),
    }
}

/// A definition whose members were resolved, from a depth on.
fn complete_definition(t: &CType, tags: &StringHashMap<CType>, depth: u32) -> (r: CType)
    requires
        depth <= 7,
    ensures
        r@ == completed(tags_of(tags@), t@, depth as int),
    decreases 8 - depth, 0int,
{
    if depth > 6 {
        return t.clone();
    }
    match t {
        CType::Struct { name, fields, packed, aligned } => {
            assert(fields_of(fields@).len() == fields@.len());
            CType::Struct {
                name: own_opt(name),
                fields: resolve_fields(fields, tags, depth + 1),
                packed: *packed,
                aligned: *aligned,
            }
        },
        CType::Union { name, fields, packed, aligned } => {
            assert(fields_of(fields@).len() == fields@.len());
            CType::Union {
                name: own_opt(name),
                fields: resolve_fields(fields, tags, depth + 1),
                packed: *packed,
                aligned: *aligned,
            }
        },
        _ => t.clone(),
    }
}

fn resolve_fields(fields: &Vec<StructField>, tags: &StringHashMap<CType>, depth: u32) -> (r: Vec<
    StructField,
>)
    requires
        depth <= 7,
    ensures
        fields_of(r@) == fields_resolved(tags_of(tags@), fields_of(fields@), depth as int),
    decreases 8 - depth, 1int,
{
    let mut out: Vec<StructField> = Vec::new();
    let mut i: usize = 0;
    #[verifier::loop_isolation(false)]
    while i < fields.len()
        invariant
            i <= fields@.len(),
            out@.len() == i,
            forall|j: int|
                #![trigger fields_of(out@)[j]]
                0 <= j < i ==> fields_of(out@)[j] == fields_resolved(
                    tags_of(tags@),
                    fields_of(fields@),
                    depth as int,
                )[j],
        decreases fields@.len() - i,
    {
        let f: &StructField = &fields[i];
        let ghost before = out@;
        assert(fields_of(fields@)[i as int].ty == f.ty@);
        let t: CType = resolve_type_forward_refs_deep(&f.ty, tags, depth);
        out.push(StructField { name: own_opt(&f.name), ty: t, bit_width: f.bit_width });
        assert forall|j: int|
            #![trigger fields_of(out@)[j]]
            0 <= j < i + 1 implies fields_of(out@)[j] == fields_resolved(
            tags_of(tags@),
            fields_of(fields@),
            depth as int,
        )[j] by {
            if j < i {
                assert(out@[j] == before[j]);
                assert(fields_of(before)[j] == fields_of(out@)[j]);
            }
        }
        i += 1;
    }
    assert(fields_of(out@) =~= fields_resolved(
        tags_of(tags@),
        fields_of(fields@),
        depth as int,
    ));
    out
}

/// A type in which tags were replaced by their definitions, from a depth on.
fn resolve_type_forward_refs_deep(t: &CType, tags: &StringHashMap<CType>, depth: u32) -> (r: CType)
    requires
        depth <= 7,
    ensures
        r@ == resolved(tags_of(tags@), t@, depth as int),
    decreases 8 - depth, 0int,
{
    if depth > 6 {
        return t.clone();
    }
    match t {
        CType::Struct { name, fields, packed, aligned } => {
            assert(fields_of(fields@).len() == fields@.len());
            if fields.len() == 0 {
                match name {
                    Some(tag) => {
                        return look_up(t, tag.as_str(), tags, depth);
                    },
                    None => {},
                }
            }
            CType::Struct {
                name: own_opt(name),
                fields: resolve_fields(fields, tags, depth + 1),
                packed: *packed,
                aligned: *aligned,
            }
        },
        CType::Union { name, fields, packed, aligned } => {
            assert(fields_of(fields@).len() == fields@.len());
            if fields.len() == 0 {
                match name {
                    Some(tag) => {
                        return look_up(t, tag.as_str(), tags, depth);
                    },
                    None => {},
                }
            }
            CType::Union {
                name: own_opt(name),
                fields: resolve_fields(fields, tags, depth + 1),
                packed: *packed,
                aligned: *aligned,
            }
        },
        CType::Typedef { name, underlying } => CType::Typedef {
            name: own(name.as_str()),
            underlying: Box::new(resolve_type_forward_refs_deep(underlying, tags, depth + 1)),
        },
        CType::Array(inner, n) => CType::Array(
            Box::new(resolve_type_forward_refs_deep(inner, tags, depth + 1)),
            *n,
        ),
        CType::Qualified(inner, q) => CType::Qualified(
            Box::new(resolve_type_forward_refs_deep(inner, tags, depth + 1)),
            *q,
        ),
        CType::Atomic(inner) => CType::Atomic(
            Box::new(resolve_type_forward_refs_deep(inner, tags, depth + 1)),
        ),
        CType::Pointer(inner, q) => CType::Pointer(
            Box::new(resolve_type_forward_refs_deep(inner, tags, depth + 1)),
            *q,
        ),
        _ => t.clone(),
    }
}

/// A definition in whose members tags were replaced by their definitions.
pub fn resolve_struct_field_forward_refs(t: &CType, tags: &StringHashMap<CType>) -> (r: CType)
    ensures
        r@ == completed(tags_of(tags@), t@, 0),
{
    complete_definition(t, tags, 0)
}

} // verus!
