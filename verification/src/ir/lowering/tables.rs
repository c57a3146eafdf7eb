//! What the tables of a translation unit hold, and what its work consists of.

use crate::common::string_interner::Symbol;
use crate::common::types::{below_typedefs, Field, Ty};
use crate::frontend::parser::ast::{
    Declarator, DirectDeclarator, ExternalDeclaration, InitDeclarator, Pointer, StructMember,
    StructOrUnionSpecifier, TypeSpecifier,
};
use crate::frontend::sema::attributes::{any_says_packed, says_packed};
use crate::frontend::sema::definitions::{fields_in, is_packed};
use crate::frontend::sema::resolve::{
    declarator_type, direct_type, field_list, full_type, members_fields, parameter_types,
};
use crate::frontend::sema::specifiers::{
    behind_pointer, behind_pointers, direct_name, quals_of,
};
use crate::frontend::sema::state::State;
use crate::ir::lowering::structs::{
    completed, defined_type, fields_resolved, looked_up, resolved, with_definition,
    with_definitions, with_member_definitions,
};
use crate::ir::lowering::unit::{
    declares_function, first_pass, first_work, has_function_shape, has_initializer, is_typedef,
    second_pass, with_listed, with_typedef_names, work_of, Definitions, WorkItem,
};
use vstd::prelude::*;

verus! {

/// Every function with a body is lowered, and nothing else is lowered as one. Every
/// declaration that declares something other than typedef names is worked on: as
/// functions where it declares one and initializes nothing, else as variables.
pub proof fn lemma_work_is_complete(ds: Seq<ExternalDeclaration>, i: int)
    requires
        0 <= i < ds.len() <= usize::MAX,
    ensures
        work_of(ds).contains(WorkItem::FunctionDefinition(i as usize))
            <==> ds[i] is FunctionDefinition,
        work_of(ds).contains(WorkItem::FunctionDeclaration(i as usize)) <==> (ds[i] matches
            ExternalDeclaration::Declaration(d) && !is_typedef(*d) && d.declarators@.len() > 0
            && declares_function(*d) && !has_initializer(*d)),
        work_of(ds).contains(WorkItem::GlobalVariable(i as usize)) <==> (ds[i] matches
            ExternalDeclaration::Declaration(d) && !is_typedef(*d) && d.declarators@.len() > 0 && !(
        declares_function(*d) && !has_initializer(*d))),
{
    let n = ds.len() as int;
    let a = first_pass(ds, n);
    let b = second_pass(ds, n);
    let f = WorkItem::FunctionDefinition(i as usize);
    let p = WorkItem::FunctionDeclaration(i as usize);
    let g = WorkItem::GlobalVariable(i as usize);
    lemma_first_pass_holds(ds, n, i);
    lemma_second_pass_holds(ds, n, i);
    lemma_concatenated(a, b, f);
    lemma_concatenated(a, b, p);
    lemma_concatenated(a, b, g);
}

proof fn lemma_concatenated(a: Seq<WorkItem>, b: Seq<WorkItem>, w: WorkItem)
    ensures
        (a + b).contains(w) <==> a.contains(w) || b.contains(w),
{
    if (a + b).contains(w) {
        let i = choose|i: int| 0 <= i < (a + b).len() && (a + b)[i] == w;
        if i < a.len() {
            assert(a[i] == w);
        } else {
            assert(b[i - a.len()] == w);
        }
    }
    if a.contains(w) {
        let i = choose|i: int| 0 <= i < a.len() && a[i] == w;
        assert((a + b)[i] == w);
    }
    if b.contains(w) {
        let i = choose|i: int| 0 <= i < b.len() && b[i] == w;
        assert((a + b)[a.len() + i] == w);
    }
}

proof fn lemma_pushed(a: Seq<WorkItem>, x: WorkItem, w: WorkItem)
    ensures
        a.push(x).contains(w) <==> a.contains(w) || x == w,
{
    if a.contains(w) {
        let i = choose|i: int| 0 <= i < a.len() && a[i] == w;
        assert(a.push(x)[i] == w);
    }
    assert(a.push(x)[a.len() as int] == x);
    if a.push(x).contains(w) {
        let i = choose|i: int| 0 <= i < a.push(x).len() && a.push(x)[i] == w;
        if i < a.len() {
            assert(a[i] == w);
        }
    }
}

proof fn lemma_first_pass_holds(ds: Seq<ExternalDeclaration>, n: int, i: int)
    requires
        0 <= n <= ds.len() <= usize::MAX,
        0 <= i < ds.len(),
    ensures
        !first_pass(ds, n).contains(WorkItem::FunctionDefinition(i as usize)),
        first_pass(ds, n).contains(WorkItem::FunctionDeclaration(i as usize)) <==> i < n && (
        ds[i] matches ExternalDeclaration::Declaration(d) && first_work(*d, i as usize) == Some(
            WorkItem::FunctionDeclaration(i as usize),
        )),
        first_pass(ds, n).contains(WorkItem::GlobalVariable(i as usize)) <==> i < n && (
        ds[i] matches ExternalDeclaration::Declaration(d) && first_work(*d, i as usize) == Some(
            WorkItem::GlobalVariable(i as usize),
        )),
    decreases n,
{
    if n > 0 {
        lemma_first_pass_holds(ds, n - 1, i);
        let before = first_pass(ds, n - 1);
        match ds[n - 1] {
            ExternalDeclaration::Declaration(d) => match first_work(*d, (n - 1) as usize) {
                Some(w) => {
                    lemma_pushed(before, w, WorkItem::FunctionDefinition(i as usize));
                    lemma_pushed(before, w, WorkItem::FunctionDeclaration(i as usize));
                    lemma_pushed(before, w, WorkItem::GlobalVariable(i as usize));
                },
                None => {},
            },
            _ => {},
        }
    }
}

proof fn lemma_second_pass_holds(ds: Seq<ExternalDeclaration>, n: int, i: int)
    requires
        0 <= n <= ds.len() <= usize::MAX,
        0 <= i < ds.len(),
    ensures
        second_pass(ds, n).contains(WorkItem::FunctionDefinition(i as usize)) <==> i < n
            && ds[i] is FunctionDefinition,
        !second_pass(ds, n).contains(WorkItem::FunctionDeclaration(i as usize)),
        !second_pass(ds, n).contains(WorkItem::GlobalVariable(i as usize)),
    decreases n,
{
    if n > 0 {
        lemma_second_pass_holds(ds, n - 1, i);
        let before = second_pass(ds, n - 1);
        match ds[n - 1] {
            ExternalDeclaration::FunctionDefinition(_) => {
                let w = WorkItem::FunctionDefinition((n - 1) as usize);
                lemma_pushed(before, w, WorkItem::FunctionDefinition(i as usize));
                lemma_pushed(before, w, WorkItem::FunctionDeclaration(i as usize));
                lemma_pushed(before, w, WorkItem::GlobalVariable(i as usize));
            },
            _ => {},
        }
    }
}

/// The declaration that a piece of work is about.
pub open spec fn index_of(w: WorkItem) -> usize {
    match w {
        WorkItem::FunctionDeclaration(i) => i,
        WorkItem::GlobalVariable(i) => i,
        WorkItem::FunctionDefinition(i) => i,
    }
}

/// Work of either kind is done in the order of the source: of two pieces that are both
/// on functions with bodies, or both not, the one that stands first in the source comes
/// first.
pub proof fn lemma_work_follows_the_source(ds: Seq<ExternalDeclaration>, i: int, j: int)
    requires
        ds.len() <= usize::MAX,
        0 <= i < j < work_of(ds).len(),
        work_of(ds)[i] is FunctionDefinition <==> work_of(ds)[j] is FunctionDefinition,
    ensures
        index_of(work_of(ds)[i]) < index_of(work_of(ds)[j]),
{
    let n = ds.len() as int;
    let a = first_pass(ds, n);
    let b = second_pass(ds, n);
    lemma_first_pass_is_sorted(ds, n);
    lemma_second_pass_is_sorted(ds, n);
    let w = work_of(ds);
    if i < a.len() {
        assert(w[i] == a[i]);
        if j < a.len() {
            assert(w[j] == a[j]);
        } else {
            assert(w[j] == b[j - a.len()]);
        }
    } else {
        assert(w[i] == b[i - a.len()]);
        assert(w[j] == b[j - a.len()]);
    }
}

proof fn lemma_first_pass_is_sorted(ds: Seq<ExternalDeclaration>, n: int)
    requires
        0 <= n <= ds.len() <= usize::MAX,
    ensures
        forall|i: int|
            0 <= i < first_pass(ds, n).len() ==> index_of(#[trigger] first_pass(ds, n)[i]) < n
                && !(first_pass(ds, n)[i] is FunctionDefinition),
        forall|i: int, j: int|
            0 <= i < j < first_pass(ds, n).len() ==> index_of(#[trigger] first_pass(ds, n)[i])
                < index_of(#[trigger] first_pass(ds, n)[j]),
    decreases n,
{
    if n > 0 {
        lemma_first_pass_is_sorted(ds, n - 1);
    }
}

proof fn lemma_second_pass_is_sorted(ds: Seq<ExternalDeclaration>, n: int)
    requires
        0 <= n <= ds.len() <= usize::MAX,
    ensures
        forall|i: int|
            0 <= i < second_pass(ds, n).len() ==> index_of(#[trigger] second_pass(ds, n)[i]) < n
                && second_pass(ds, n)[i] is FunctionDefinition,
        forall|i: int, j: int|
            0 <= i < j < second_pass(ds, n).len() ==> index_of(#[trigger] second_pass(ds, n)[i])
                < index_of(#[trigger] second_pass(ds, n)[j]),
    decreases n,
{
    if n > 0 {
        lemma_second_pass_is_sorted(ds, n - 1);
    }
}

/// A name with a parameter list behind it is declared as a function, of function type;
/// a pointer in parentheses with one behind it is not, and is of pointer type.
pub proof fn lemma_function_shape_is_function_type(
    st: State,
    base: Ty,
    d: Declarator,
    inner: DirectDeclarator,
)
    requires
        d.direct matches DirectDeclarator::Function { base: x, .. } && *x == inner,
    ensures
        inner is Identifier ==> has_function_shape(d) && declarator_type(st, base, d) is Function,
        inner matches DirectDeclarator::Parenthesized(x) ==> (x.pointer is Some
            && x.direct is Identifier ==> !has_function_shape(d) && declarator_type(
            st,
            base,
            d,
        ) is Pointer),
{
    match d.direct {
        DirectDeclarator::Function { params, is_variadic, .. } => match inner {
            DirectDeclarator::Parenthesized(x) => {
                let f = Ty::Function {
                    return_type: Box::new(behind_pointers(base, d.pointer)),
                    params: parameter_types(st, params@, 0),
                    variadic: is_variadic,
                };
                if x.pointer is Some && x.direct is Identifier {
                    lemma_pointer_on_top(f, x.pointer->0);
                    let p = behind_pointers(f, x.pointer);
                    assert(direct_type(st, p, x.direct) == p);
                    assert(declarator_type(st, f, *x) == p);
                }
            },
            _ => {},
        },
        _ => {},
    }
}

proof fn lemma_pointer_on_top(t: Ty, p: Pointer)
    ensures
        behind_pointer(t, p) is Pointer,
    decreases p,
{
    match p.inner {
        Some(inner) => lemma_pointer_on_top(
            Ty::Pointer(Box::new(t), quals_of(p.qualifiers@)),
            *inner,
        ),
        None => {},
    }
}

/// A typedef name that is declared alone stands for the type that its declarator
/// gives, below other typedef names; other names stay what they were.
pub proof fn lemma_typedef_name_is_recorded(
    st: State,
    base: Ty,
    ds: Seq<InitDeclarator>,
    m: Map<Seq<char>, Ty>,
    other: Seq<char>,
)
    requires
        ds.len() == 1,
        direct_name(ds[0].declarator.direct).0 < st.names.len(),
    ensures
        ({
            let r = with_typedef_names(st, base, ds, 0, m);
            let name = st.names[direct_name(ds[0].declarator.direct).0 as int];
            &&& r.contains_key(name)
            &&& r[name] == below_typedefs(declarator_type(st, base, ds[0].declarator))
            &&& !(r[name] is Typedef)
            &&& other != name ==> r.contains_key(other) == m.contains_key(other)
            &&& other != name && m.contains_key(other) ==> r[other] == m[other]
        }),
{
    reveal(full_type);
    let name = st.names[direct_name(ds[0].declarator.direct).0 as int];
    let t = below_typedefs(full_type(st, base, ds[0].declarator));
    assert(with_typedef_names(st, base, ds, 1, m.insert(name, t)) == m.insert(name, t));
    lemma_below_typedefs(full_type(st, base, ds[0].declarator));
}

proof fn lemma_below_typedefs(t: Ty)
    ensures
        !(below_typedefs(t) is Typedef),
    decreases t,
{
    match t {
        Ty::Typedef { underlying, .. } => lemma_below_typedefs(*underlying),
        _ => {},
    }
}

/// Of several definitions of one tag the last counts, and each tag is listed once.
pub proof fn lemma_last_definition_counts(
    d: Definitions,
    list: Seq<(Seq<char>, Ty)>,
    i: int,
)
    requires
        0 <= i <= list.len(),
        d.order.no_duplicates(),
        forall|t: Seq<char>| #[trigger] d.by_tag.contains_key(t) <==> d.order.contains(t),
    ensures
        with_listed(d, list, i).order.no_duplicates(),
        forall|t: Seq<char>| #[trigger]
            with_listed(d, list, i).by_tag.contains_key(t) <==> with_listed(
                d,
                list,
                i,
            ).order.contains(t),
        i < list.len() ==> with_listed(d, list, i).by_tag.contains_key(list.last().0)
            && with_listed(d, list, i).by_tag[list.last().0] == list.last().1,
    decreases list.len() - i,
{
    if i < list.len() {
        let tag = list[i].0;
        let next = Definitions {
            order: if d.by_tag.contains_key(tag) {
                d.order
            } else {
                d.order.push(tag)
            },
            by_tag: d.by_tag.insert(tag, list[i].1),
        };
        if !d.by_tag.contains_key(tag) {
            assert(!d.order.contains(tag));
            assert(next.order.no_duplicates()) by {
                assert forall|a: int, b: int|
                    0 <= a < next.order.len() && 0 <= b < next.order.len() && a != b implies
                    next.order[a] != next.order[b] by {
                    if a < d.order.len() && b < d.order.len() {
                        assert(d.order[a] != d.order[b]);
                    } else if a < d.order.len() {
                        assert(d.order.contains(d.order[a]));
                    } else {
                        assert(d.order.contains(d.order[b]));
                    }
                }
            }
        }
        assert forall|t: Seq<char>| #[trigger] next.by_tag.contains_key(t) <==> next.order.contains(
            t,
        ) by {
            if d.by_tag.contains_key(t) {
                let k = choose|k: int| 0 <= k < d.order.len() && d.order[k] == t;
                assert(d.order.contains(t));
                assert(next.order[k] == t);
            }
            if t == tag && !d.by_tag.contains_key(tag) {
                assert(next.order[d.order.len() as int] == t);
            }
            if next.order.contains(t) {
                let k = choose|k: int| 0 <= k < next.order.len() && next.order[k] == t;
                if k < d.order.len() {
                    assert(d.order[k] == t);
                    assert(d.order.contains(t));
                }
            }
        }
        lemma_last_definition_counts(next, list, i + 1);
        if i + 1 == list.len() {
            assert(with_listed(next, list, i + 1) == next);
        }
    }
}

/// A struct or union definition that lowering collects has the members that its
/// declarations declare, and is packed exactly where an attribute says so in either
/// spelling.
pub proof fn lemma_collected_definition(
    st: State,
    s: StructOrUnionSpecifier,
    ms: Seq<StructMember>,
    tag: Seq<char>,
    is_struct: bool,
)
    ensures
        ({
            let t = defined_type(st, s, ms, tag, is_struct);
            &&& is_struct ==> (t matches Ty::Struct { name, .. } && name == Some(tag))
            &&& !is_struct ==> (t matches Ty::Union { name, .. } && name == Some(tag))
            &&& fields_in(t) == members_fields(st, ms, 0)
            &&& is_packed(t) <==> exists|i: int|
                0 <= i < s.attributes@.len() && (st.text((#[trigger] s.attributes@[i]).name)
                    == "packed"@ || st.text(s.attributes@[i].name) == "__packed__"@)
        }),
{
    reveal(defined_type);
    reveal(field_list);
    let a = s.attributes@;
    if any_says_packed(st, a) {
        let i = choose|i: int| 0 <= i < a.len() && says_packed(st.text(#[trigger] a[i].name));
        assert(st.text(a[i].name) == "packed"@ || st.text(a[i].name) == "__packed__"@);
    }
    assert forall|i: int| 0 <= i < a.len() && says_packed(st.text((#[trigger] a[i]).name)) implies
        any_says_packed(st, a) by {
        assert(says_packed(st.text(a[i].name)));
    }
}

/// To replace tags in members changes their types alone: how many there are, their
/// names and the widths of bit-fields stay. A type without tags stays as it is.
pub proof fn lemma_replacing_tags_keeps_members(
    tags: Map<Seq<char>, Ty>,
    fields: Seq<Field>,
    depth: int,
    k: int,
)
    requires
        0 <= k < fields.len(),
    ensures
        fields_resolved(tags, fields, depth).len() == fields.len(),
        fields_resolved(tags, fields, depth)[k].name == fields[k].name,
        fields_resolved(tags, fields, depth)[k].bit_width == fields[k].bit_width,
        is_bare(fields[k].ty) ==> fields_resolved(tags, fields, depth)[k] == fields[k],
{
    if is_bare(fields[k].ty) {
        lemma_bare_stays(tags, fields[k].ty, depth);
    }
}

/// Whether no struct or union stands in a type.
pub open spec fn is_bare(t: Ty) -> bool
    decreases t,
{
    match t {
        Ty::Struct { .. } => false,
        Ty::Union { .. } => false,
        Ty::Pointer(inner, _) => is_bare(*inner),
        Ty::Array(inner, _) => is_bare(*inner),
        Ty::Atomic(inner) => is_bare(*inner),
        Ty::Qualified(inner, _) => is_bare(*inner),
        Ty::Typedef { underlying, .. } => is_bare(*underlying),
        _ => true,
    }
}

proof fn lemma_bare_stays(tags: Map<Seq<char>, Ty>, t: Ty, depth: int)
    requires
        is_bare(t),
    ensures
        resolved(tags, t, depth) == t,
    decreases t,
{
    match t {
        Ty::Pointer(inner, _) => lemma_bare_stays(tags, *inner, depth + 1),
        Ty::Array(inner, _) => lemma_bare_stays(tags, *inner, depth + 1),
        Ty::Atomic(inner) => lemma_bare_stays(tags, *inner, depth + 1),
        Ty::Qualified(inner, _) => lemma_bare_stays(tags, *inner, depth + 1),
        Ty::Typedef { underlying, .. } => lemma_bare_stays(tags, *underlying, depth + 1),
        _ => {},
    }
}

/// A tag alone is replaced by its definition where there is one with members: the
/// result has as many members as the definition, of the same names.
pub proof fn lemma_tag_is_replaced(
    tags: Map<Seq<char>, Ty>,
    t: Ty,
    tag: Seq<char>,
    depth: int,
)
    requires
        0 <= depth <= 6,
        match t {
            Ty::Struct { name, fields, .. } => name == Some(tag) && fields.len() == 0,
            Ty::Union { name, fields, .. } => name == Some(tag) && fields.len() == 0,
            _ => false,
        },
    ensures
        tags.contains_key(tag) && fields_in(tags[tag]).len() > 0 ==> {
            let r = resolved(tags, t, depth);
            &&& fields_in(r).len() == fields_in(tags[tag]).len()
            &&& is_packed(r) == is_packed(tags[tag])
            &&& forall|k: int|
                0 <= k < fields_in(r).len() ==> (#[trigger] fields_in(r)[k]).name == fields_in(
                    tags[tag],
                )[k].name
        },
        !tags.contains_key(tag) ==> resolved(tags, t, depth) == t,
{
    assert(resolved(tags, t, depth) == looked_up(tags, t, tag, depth));
    if tags.contains_key(tag) && fields_in(tags[tag]).len() > 0 {
        assert(looked_up(tags, t, tag, depth) == completed(tags, tags[tag], depth + 1));
    }
}

/// A definition with a tag is collected before those inside it.
pub proof fn lemma_definition_is_collected(
    st: State,
    s: StructOrUnionSpecifier,
    is_struct: bool,
    defs: Seq<(Seq<char>, Ty)>,
    tag: Symbol,
)
    requires
        s.members is Some,
        s.tag == Some(tag),
        tag.0 < st.names.len(),
    ensures
        ({
            let r = with_definition(st, s, is_struct, defs);
            let name = st.names[tag.0 as int];
            &&& r.len() > defs.len()
            &&& r.take(defs.len() as int) == defs
            &&& r[defs.len() as int] == (
                name,
                defined_type(st, s, s.members->0@, name, is_struct),
            )
        }),
{
    let name = st.names[tag.0 as int];
    let own = defs.push((name, defined_type(st, s, s.members->0@, name, is_struct)));
    lemma_members_add(st, s.members->0@, 0, own);
    let r = with_definition(st, s, is_struct, defs);
    assert(r.take(own.len() as int)[defs.len() as int] == own[defs.len() as int]);
    assert(r.take(defs.len() as int) =~= defs) by {
        assert forall|k: int| 0 <= k < defs.len() implies r[k] == defs[k] by {
            assert(r.take(own.len() as int)[k] == own[k]);
        }
    }
}

proof fn lemma_members_add(
    st: State,
    ms: Seq<StructMember>,
    i: int,
    defs: Seq<(Seq<char>, Ty)>,
)
    ensures
        with_member_definitions(st, ms, i, defs).len() >= defs.len(),
        with_member_definitions(st, ms, i, defs).take(defs.len() as int) == defs,
    decreases ms, ms.len() - i,
{
    if 0 <= i < ms.len() {
        let specs = ms[i].specifiers.type_specifiers@;
        lemma_specifiers_add(st, specs, 0, defs);
        let next = with_definitions(st, specs, 0, defs);
        lemma_members_add(st, ms, i + 1, next);
        let r = with_member_definitions(st, ms, i + 1, next);
        lemma_prefix(defs, next, r);
    } else {
        assert(defs.take(defs.len() as int) =~= defs);
    }
}

proof fn lemma_prefix(
    a: Seq<(Seq<char>, Ty)>,
    b: Seq<(Seq<char>, Ty)>,
    c: Seq<(Seq<char>, Ty)>,
)
    requires
        a.len() <= b.len() <= c.len(),
        b.take(a.len() as int) == a,
        c.take(b.len() as int) == b,
    ensures
        c.take(a.len() as int) == a,
{
    assert forall|k: int| 0 <= k < a.len() implies c[k] == a[k] by {
        assert(c.take(b.len() as int)[k] == b[k]);
        assert(b.take(a.len() as int)[k] == a[k]);
    }
    assert(c.take(a.len() as int) =~= a);
}

proof fn lemma_specifiers_add(
    st: State,
    specs: Seq<TypeSpecifier>,
    i: int,
    defs: Seq<(Seq<char>, Ty)>,
)
    ensures
        with_definitions(st, specs, i, defs).len() >= defs.len(),
        with_definitions(st, specs, i, defs).take(defs.len() as int) == defs,
    decreases specs, specs.len() - i,
{
    if 0 <= i < specs.len() {
        let next = match specs[i] {
            TypeSpecifier::Struct(s) => with_definition(st, s, true, defs),
            TypeSpecifier::Union(s) => with_definition(st, s, false, defs),
            _ => defs,
        };
        assert(defs.take(defs.len() as int) =~= defs);
        match specs[i] {
            TypeSpecifier::Struct(s) => lemma_specifier_adds(st, s, true, defs),
            TypeSpecifier::Union(s) => lemma_specifier_adds(st, s, false, defs),
            _ => {},
        }
        lemma_specifiers_add(st, specs, i + 1, next);
        lemma_prefix(defs, next, with_definitions(st, specs, i + 1, next));
    } else {
        assert(defs.take(defs.len() as int) =~= defs);
    }
}

proof fn lemma_specifier_adds(
    st: State,
    s: StructOrUnionSpecifier,
    is_struct: bool,
    defs: Seq<(Seq<char>, Ty)>,
)
    ensures
        with_definition(st, s, is_struct, defs).len() >= defs.len(),
        with_definition(st, s, is_struct, defs).take(defs.len() as int) == defs,
    decreases s, 0int,
{
    assert(defs.take(defs.len() as int) =~= defs);
    match s.members {
        None => {},
        Some(ms) => {
            let own = match s.tag {
                Some(tag) => if tag.0 < st.names.len() {
                    let name = st.names[tag.0 as int];
                    defs.push((name, defined_type(st, s, ms@, name, is_struct)))
                } else {
                    defs
                },
                None => defs,
            };
            assert(own.take(defs.len() as int) =~= defs);
            lemma_members_add(st, ms@, 0, own);
            lemma_prefix(defs, own, with_member_definitions(st, ms@, 0, own));
        },
    }
}

} // verus!
