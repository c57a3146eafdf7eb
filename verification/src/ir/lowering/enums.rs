//! Enumeration constants and the types of enums.

use crate::common::layout::tags_of;
use crate::common::text::own;
use crate::common::types::{CType, Ty};
use crate::frontend::parser::ast::{
    BlockItem, EnumSpecifier, Enumerator, ForInit, Statement, StructMember,
    StructOrUnionSpecifier, TypeSpecifier,
};
use crate::frontend::sema::analyzer::SemanticAnalyzer;
use crate::frontend::sema::attributes::any_says_packed;
use crate::frontend::sema::state::State;
use crate::ir::lowering::constants::{const_int, try_eval_const_int_expr_ctx};
use vstd::hash_map::StringHashMap;
use vstd::prelude::*;

verus! {

broadcast use crate::common::types::group_type_models;

/// The value of an enumerator that would be `next` if it stated none. What
/// cannot be evaluated counts as not stated.
pub open spec fn stated_or_next(
    st: State,
    enums: Map<Seq<char>, i128>,
    e: Enumerator,
    next: i128,
) -> i128 {
    match e.value {
        Some(x) => match const_int(st, enums, *x) {
            Some(v) => v,
            None => next,
        },
        None => next,
    }
}

/// The constants with those of the enumerators from the `i`-th on. Each is one
/// more than the one before it, unless it states its value.
pub open spec fn numbered(
    st: State,
    es: Seq<Enumerator>,
    i: int,
    m: Map<Seq<char>, i128>,
    next: i128,
) -> Map<Seq<char>, i128>
    decreases es.len() - i,
{
    if i < 0 || i >= es.len() {
        m
    } else {
        let v = stated_or_next(st, m, es[i], next);
        let m1 = if es[i].name.0 < st.names.len() {
            m.insert(st.names[es[i].name.0 as int], v)
        } else {
            m
        };
        numbered(st, es, i + 1, m1, v.wrapping_add(1))
    }
}

/// The constants with those of an enum.
pub open spec fn with_enum(st: State, e: EnumSpecifier, m: Map<Seq<char>, i128>) -> Map<
    Seq<char>,
    i128,
> {
    match e.enumerators {
        Some(es) => numbered(st, es@, 0, m, 0),
        None => m,
    }
}

/// The constants with those that the type specifiers from the `i`-th on define,
/// also inside struct and union definitions.
pub open spec fn with_specifiers(
    st: State,
    specs: Seq<TypeSpecifier>,
    i: int,
    m: Map<Seq<char>, i128>,
) -> Map<Seq<char>, i128>
    decreases specs, specs.len() - i,
{
    if i < 0 || i >= specs.len() {
        m
    } else {
        let m1 = match specs[i] {
            TypeSpecifier::Enum(e) => with_enum(st, e, m),
            TypeSpecifier::Struct(s) => with_aggregate(st, s, m),
            TypeSpecifier::Union(s) => with_aggregate(st, s, m),
            _ => m,
        };
        with_specifiers(st, specs, i + 1, m1)
    }
}

/// The constants with those inside a struct or union definition.
pub open spec fn with_aggregate(
    st: State,
    s: StructOrUnionSpecifier,
    m: Map<Seq<char>, i128>,
) -> Map<Seq<char>, i128>
    decreases s, 0int,
{
    match s.members {
        Some(ms) => with_members(st, ms@, 0, m),
        None => m,
    }
}

/// The constants with those of the members from the `i`-th on.
pub open spec fn with_members(
    st: State,
    ms: Seq<StructMember>,
    i: int,
    m: Map<Seq<char>, i128>,
) -> Map<Seq<char>, i128>
    decreases ms, ms.len() - i,
{
    if i < 0 || i >= ms.len() {
        m
    } else {
        with_members(
            st,
            ms,
            i + 1,
            with_specifiers(st, ms[i].specifiers.type_specifiers@, 0, m),
        )
    }
}

/// The constants with those that the block items from the `i`-th on define.
pub open spec fn with_block(
    st: State,
    items: Seq<BlockItem>,
    i: int,
    m: Map<Seq<char>, i128>,
) -> Map<Seq<char>, i128>
    decreases items, items.len() - i,
{
    if i < 0 || i >= items.len() {
        m
    } else {
        let m1 = match items[i] {
            BlockItem::Declaration(d) => with_specifiers(
                st,
                d.specifiers.type_specifiers@,
                0,
                m,
            ),
            BlockItem::Statement(s) => with_statement(st, s, m),
        };
        with_block(st, items, i + 1, m1)
    }
}

/// The constants with those that the first clause of a `for` defines.
pub open spec fn with_for_clause(st: State, init: Option<ForInit>, m: Map<Seq<char>, i128>) -> Map<
    Seq<char>,
    i128,
> {
    match init {
        Some(ForInit::Declaration(d)) => with_specifiers(st, d.specifiers.type_specifiers@, 0, m),
        _ => m,
    }
}

/// The constants with those that a statement defines.
pub open spec fn with_statement(st: State, s: Statement, m: Map<Seq<char>, i128>) -> Map<
    Seq<char>,
    i128,
>
    decreases s, 0int,
{
    match s {
        Statement::Compound(c) => with_block(st, c.items@, 0, m),
        Statement::If { then_branch, else_branch, .. } => {
            let m1 = with_statement(st, *then_branch, m);
            match else_branch {
                Some(x) => with_statement(st, *x, m1),
                None => m1,
            }
        },
        Statement::While { body, .. } => with_statement(st, *body, m),
        Statement::DoWhile { body, .. } => with_statement(st, *body, m),
        Statement::For { init, body, .. } => with_statement(
            st,
            *body,
            with_for_clause(st, init, m),
        ),
        Statement::Switch { body, .. } => with_statement(st, *body, m),
        Statement::Labeled { statement, .. } => with_statement(st, *statement, m),
        Statement::Case { statement, .. } => with_statement(st, *statement, m),
        Statement::Default { statement, .. } => with_statement(st, *statement, m),
        _ => m,
    }
}

fn collect_enumerators(
    es: &Vec<Enumerator>,
    sema: &SemanticAnalyzer<'_>,
    out: &mut StringHashMap<i128>,
)
    ensures
        final(out)@ == numbered(sema@, es@, 0, old(out)@, 0),
{
    let ghost m = out@;
    let mut next: i128 = 0;
    let mut i: usize = 0;
    while i < es.len()
        invariant
            i <= es@.len(),
            numbered(sema@, es@, i as int, out@, next) == numbered(sema@, es@, 0, m, 0),
        decreases es@.len() - i,
    {
        let v: i128 = match &es[i].value {
            Some(x) => match try_eval_const_int_expr_ctx(x, sema, out) {
                Some(v) => v,
                None => next,
            },
            None => next,
        };
        if (es[i].name.0 as usize) < sema.interner.len() {
            out.insert(own(sema.interner.resolve(es[i].name)), v);
        }
        next = v.wrapping_add(1);
        i += 1;
    }
}

/// Collects the enumeration constants that type specifiers define.
pub fn collect_enum_constants_from_specifiers(
    specs: &Vec<TypeSpecifier>,
    sema: &SemanticAnalyzer<'_>,
    out: &mut StringHashMap<i128>,
)
    ensures
        final(out)@ == with_specifiers(sema@, specs@, 0, old(out)@),
    decreases specs@, specs@.len() + 1,
{
    let ghost m = out@;
    let mut i: usize = 0;
    #[verifier::loop_isolation(false)]
    while i < specs.len()
        invariant
            i <= specs@.len(),
            with_specifiers(sema@, specs@, i as int, out@) == with_specifiers(
                sema@,
                specs@,
                0,
                m,
            ),
        decreases specs@.len() - i,
    {
        match &specs[i] {
            TypeSpecifier::Enum(e) => match &e.enumerators {
                Some(es) => collect_enumerators(es, sema, out),
                None => {},
            },
            TypeSpecifier::Struct(s) => collect_enum_constants_from_aggregate(s, sema, out),
            TypeSpecifier::Union(s) => collect_enum_constants_from_aggregate(s, sema, out),
            _ => {},
        }
        i += 1;
    }
}

fn collect_enum_constants_from_aggregate(
    s: &StructOrUnionSpecifier,
    sema: &SemanticAnalyzer<'_>,
    out: &mut StringHashMap<i128>,
)
    ensures
        final(out)@ == with_aggregate(sema@, *s, old(out)@),
    decreases s, 0int,
{
    match &s.members {
        Some(ms) => collect_enum_constants_from_members(ms, sema, out),
        None => {},
    }
}

fn collect_enum_constants_from_members(
    ms: &Vec<StructMember>,
    sema: &SemanticAnalyzer<'_>,
    out: &mut StringHashMap<i128>,
)
    ensures
        final(out)@ == with_members(sema@, ms@, 0, old(out)@),
    decreases ms@, ms@.len() + 1,
{
    let ghost m = out@;
    let mut i: usize = 0;
    #[verifier::loop_isolation(false)]
    while i < ms.len()
        invariant
            i <= ms@.len(),
            with_members(sema@, ms@, i as int, out@) == with_members(sema@, ms@, 0, m),
        decreases ms@.len() - i,
    {
        collect_enum_constants_from_specifiers(&ms[i].specifiers.type_specifiers, sema, out);
        i += 1;
    }
}

/// Collects the enumeration constants that a block defines.
pub fn collect_enum_constants_from_compound(
    items: &Vec<BlockItem>,
    sema: &SemanticAnalyzer<'_>,
    out: &mut StringHashMap<i128>,
)
    ensures
        final(out)@ == with_block(sema@, items@, 0, old(out)@),
    decreases items@, items@.len() + 1,
{
    let ghost m = out@;
    let mut i: usize = 0;
    #[verifier::loop_isolation(false)]
    while i < items.len()
        invariant
            i <= items@.len(),
            with_block(sema@, items@, i as int, out@) == with_block(sema@, items@, 0, m),
        decreases items@.len() - i,
    {
        match &items[i] {
            BlockItem::Declaration(d) => collect_enum_constants_from_specifiers(
                &d.specifiers.type_specifiers,
                sema,
                out,
            ),
            BlockItem::Statement(s) => collect_enum_constants_from_statement(s, sema, out),
        }
        i += 1;
    }
}

/// Collects the enumeration constants that a statement defines.
pub fn collect_enum_constants_from_statement(
    stmt: &Statement,
    sema: &SemanticAnalyzer<'_>,
    out: &mut StringHashMap<i128>,
)
    ensures
        final(out)@ == with_statement(sema@, *stmt, old(out)@),
    decreases stmt, 0int,
{
    match stmt {
        Statement::Compound(c) => collect_enum_constants_from_compound(&c.items, sema, out),
        Statement::If { then_branch, else_branch, .. } => {
            collect_enum_constants_from_statement(then_branch, sema, out);
            match else_branch {
                Some(x) => collect_enum_constants_from_statement(x, sema, out),
                None => {},
            }
        },
        Statement::While { body, .. } => collect_enum_constants_from_statement(body, sema, out),
        Statement::DoWhile { body, .. } => collect_enum_constants_from_statement(body, sema, out),
        Statement::For { init, body, .. } => {
            match init {
                Some(ForInit::Declaration(d)) => collect_enum_constants_from_specifiers(
                    &d.specifiers.type_specifiers,
                    sema,
                    out,
                ),
                _ => {},
            }
            collect_enum_constants_from_statement(body, sema, out);
        },
        Statement::Switch { body, .. } => collect_enum_constants_from_statement(body, sema, out),
        Statement::Labeled { statement, .. } => collect_enum_constants_from_statement(
            statement,
            sema,
            out,
        ),
        Statement::Case { statement, .. } => collect_enum_constants_from_statement(
            statement,
            sema,
            out,
        ),
        Statement::Default { statement, .. } => collect_enum_constants_from_statement(
            statement,
            sema,
            out,
        ),
        _ => {},
    }
}

// ---------------------------------------------------------------------------
// The types of enums
// ---------------------------------------------------------------------------

/// The least and the greatest of `lo`, `hi` and the values of the enumerators
/// from the `i`-th on.
pub open spec fn bounds(
    st: State,
    enums: Map<Seq<char>, i128>,
    es: Seq<Enumerator>,
    i: int,
    next: i128,
    lo: i128,
    hi: i128,
) -> (i128, i128)
    decreases es.len() - i,
{
    if i < 0 || i >= es.len() {
        (lo, hi)
    } else {
        let v = stated_or_next(st, enums, es[i], next);
        bounds(
            st,
            enums,
            es,
            i + 1,
            v.wrapping_add(1),
            if v < lo {
                v
            } else {
                lo
            },
            if v > hi {
                v
            } else {
                hi
            },
        )
    }
}

/// The type of an enum whose values lie between `lo` and `hi`. A packed enum
/// takes the smallest type that holds its values; another is unsigned if none of
/// its values is negative.
pub open spec fn enum_type_for(lo: i128, hi: i128, packed: bool) -> Ty {
    if packed {
        if lo >= 0 && hi <= 255 {
            Ty::UChar
        } else if lo >= -128 && hi <= 127 {
            Ty::SChar
        } else if lo >= 0 && hi <= 65535 {
            Ty::UShort
        } else if lo >= -32768 && hi <= 32767 {
            Ty::Short
        } else {
            Ty::Int
        }
    } else if lo >= 0 {
        Ty::UInt
    } else {
        Ty::Int
    }
}

/// The type of an enum with the given enumerators; one without enumerators
/// counts as if its only value were zero.
pub open spec fn underlying(
    st: State,
    enums: Map<Seq<char>, i128>,
    es: Seq<Enumerator>,
    packed: bool,
) -> Ty {
    let b = bounds(st, enums, es, 0, 0, i128::MAX, i128::MIN);
    enum_type_for(
        if b.0 == i128::MAX {
            0
        } else {
            b.0
        },
        if b.1 == i128::MIN {
            0
        } else {
            b.1
        },
        packed,
    )
}

/// The enum types with that of an enum that has both a tag and enumerators.
pub open spec fn with_enum_type(
    st: State,
    enums: Map<Seq<char>, i128>,
    e: EnumSpecifier,
    m: Map<Seq<char>, Ty>,
) -> Map<Seq<char>, Ty> {
    match (e.tag, e.enumerators) {
        (Some(tag), Some(es)) => if tag.0 < st.names.len() {
            m.insert(
                st.names[tag.0 as int],
                underlying(st, enums, es@, any_says_packed(st, e.attributes@)),
            )
        } else {
            m
        },
        _ => m,
    }
}

/// The enum types with those that the type specifiers from the `i`-th on define.
pub open spec fn with_enum_types(
    st: State,
    enums: Map<Seq<char>, i128>,
    specs: Seq<TypeSpecifier>,
    i: int,
    m: Map<Seq<char>, Ty>,
) -> Map<Seq<char>, Ty>
    decreases specs, specs.len() - i,
{
    if i < 0 || i >= specs.len() {
        m
    } else {
        let m1 = match specs[i] {
            TypeSpecifier::Enum(e) => with_enum_type(st, enums, e, m),
            TypeSpecifier::Struct(s) => with_inner_enum_types(st, enums, s, m),
            TypeSpecifier::Union(s) => with_inner_enum_types(st, enums, s, m),
            _ => m,
        };
        with_enum_types(st, enums, specs, i + 1, m1)
    }
}

/// The enum types with those inside a struct or union definition.
pub open spec fn with_inner_enum_types(
    st: State,
    enums: Map<Seq<char>, i128>,
    s: StructOrUnionSpecifier,
    m: Map<Seq<char>, Ty>,
) -> Map<Seq<char>, Ty>
    decreases s, 0int,
{
    match s.members {
        Some(ms) => with_member_enum_types(st, enums, ms@, 0, m),
        None => m,
    }
}

/// The enum types with those of the members from the `i`-th on.
pub open spec fn with_member_enum_types(
    st: State,
    enums: Map<Seq<char>, i128>,
    ms: Seq<StructMember>,
    i: int,
    m: Map<Seq<char>, Ty>,
) -> Map<Seq<char>, Ty>
    decreases ms, ms.len() - i,
{
    if i < 0 || i >= ms.len() {
        m
    } else {
        with_member_enum_types(
            st,
            enums,
            ms,
            i + 1,
            with_enum_types(st, enums, ms[i].specifiers.type_specifiers@, 0, m),
        )
    }
}

/// The values of the enumerators from the `i`-th on.
pub open spec fn values(
    st: State,
    enums: Map<Seq<char>, i128>,
    es: Seq<Enumerator>,
    i: int,
    next: i128,
) -> Seq<i128>
    decreases es.len() - i,
{
    if i < 0 || i >= es.len() {
        Seq::empty()
    } else {
        let v = stated_or_next(st, enums, es[i], next);
        seq![v] + values(st, enums, es, i + 1, v.wrapping_add(1))
    }
}

/// The smallest and the greatest value of a type that an enum can have.
pub open spec fn range_of(t: Ty) -> (int, int) {
    match t {
        Ty::UChar => (0, 255),
        Ty::SChar => (-128, 127),
        Ty::UShort => (0, 65535),
        Ty::Short => (-32768, 32767),
        Ty::UInt => (0, 0xffff_ffff),
        _ => (-0x8000_0000, 0x7fff_ffff),
    }
}

proof fn lemma_bounds_hold(
    st: State,
    enums: Map<Seq<char>, i128>,
    es: Seq<Enumerator>,
    i: int,
    next: i128,
    lo: i128,
    hi: i128,
)
    requires
        0 <= i <= es.len(),
    ensures
        ({
            let b = bounds(st, enums, es, i, next, lo, hi);
            let vs = values(st, enums, es, i, next);
            &&& b.0 <= lo
            &&& hi <= b.1
            &&& vs.len() == es.len() - i
            &&& forall|k: int| 0 <= k < vs.len() ==> b.0 <= #[trigger] vs[k] <= b.1
        }),
    decreases es.len() - i,
{
    if i < es.len() {
        let v = stated_or_next(st, enums, es[i], next);
        let lo1 = if v < lo {
            v
        } else {
            lo
        };
        let hi1 = if v > hi {
            v
        } else {
            hi
        };
        lemma_bounds_hold(st, enums, es, i + 1, v.wrapping_add(1), lo1, hi1);
        let rest = values(st, enums, es, i + 1, v.wrapping_add(1));
        let vs = values(st, enums, es, i, next);
        let b = bounds(st, enums, es, i, next, lo, hi);
        assert forall|k: int| 0 <= k < vs.len() implies b.0 <= #[trigger] vs[k] <= b.1 by {
            if k > 0 {
                assert(vs[k] == rest[k - 1]);
            }
        }
    }
}

/// The type of a packed enum holds the value of each of its enumerators, unless
/// no type smaller than `int` does. The type of another enum is `unsigned` or `int`, and
/// `unsigned` only if no enumerator is negative.
pub proof fn lemma_enum_type_holds_values(
    st: State,
    enums: Map<Seq<char>, i128>,
    es: Seq<Enumerator>,
    packed: bool,
)
    requires
        es.len() > 0,
    ensures
        ({
            let t = underlying(st, enums, es, packed);
            let vs = values(st, enums, es, 0, 0);
            &&& vs.len() == es.len()
            &&& packed && t != Ty::Int ==> forall|k: int|
                0 <= k < vs.len() ==> range_of(t).0 <= #[trigger] vs[k] <= range_of(t).1
            &&& !packed && t == Ty::UInt ==> forall|k: int|
                0 <= k < vs.len() ==> 0 <= #[trigger] vs[k]
            &&& !packed ==> t == Ty::UInt || t == Ty::Int
        }),
{
    lemma_bounds_hold(st, enums, es, 0, 0, i128::MAX, i128::MIN);
    let vs = values(st, enums, es, 0, 0);
    assert(vs[0] == vs[0]);
}

fn type_for(lo: i128, hi: i128, packed: bool) -> (r: CType)
    ensures
        r@ == enum_type_for(lo, hi, packed),
{
    if packed {
        if lo >= 0 && hi <= 255 {
            CType::UChar
        } else if lo >= -128 && hi <= 127 {
            CType::SChar
        } else if lo >= 0 && hi <= 65535 {
            CType::UShort
        } else if lo >= -32768 && hi <= 32767 {
            CType::Short
        } else {
            CType::Int
        }
    } else if lo >= 0 {
        CType::UInt
    } else {
        CType::Int
    }
}

fn underlying_type(
    es: &Vec<Enumerator>,
    sema: &SemanticAnalyzer<'_>,
    enums: &StringHashMap<i128>,
    packed: bool,
) -> (r: CType)
    ensures
        r@ == underlying(sema@, enums@, es@, packed),
{
    let mut lo: i128 = i128::MAX;
    let mut hi: i128 = i128::MIN;
    let mut next: i128 = 0;
    let mut i: usize = 0;
    while i < es.len()
        invariant
            i <= es@.len(),
            bounds(sema@, enums@, es@, i as int, next, lo, hi) == bounds(
                sema@,
                enums@,
                es@,
                0,
                0,
                i128::MAX,
                i128::MIN,
            ),
        decreases es@.len() - i,
    {
        let v: i128 = match &es[i].value {
            Some(x) => match try_eval_const_int_expr_ctx(x, sema, enums) {
                Some(v) => v,
                None => next,
            },
            None => next,
        };
        if v < lo {
            lo = v;
        }
        if v > hi {
            hi = v;
        }
        next = v.wrapping_add(1);
        i += 1;
    }
    type_for(
        if lo == i128::MAX {
            0
        } else {
            lo
        },
        if hi == i128::MIN {
            0
        } else {
            hi
        },
        packed,
    )
}

fn collect_enum_type(
    e: &EnumSpecifier,
    sema: &SemanticAnalyzer<'_>,
    enums: &StringHashMap<i128>,
    out: &mut StringHashMap<CType>,
)
    ensures
        tags_of(final(out)@) == with_enum_type(sema@, enums@, *e, tags_of(old(out)@)),
{
    match (&e.tag, &e.enumerators) {
        (Some(tag), Some(es)) => {
            if (tag.0 as usize) < sema.interner.len() {
                let packed: bool = sema.has_packed_attribute(&e.attributes);
                let t: CType = underlying_type(es, sema, enums, packed);
                let ghost before = out@;
                let ghost model = t@;
                out.insert(own(sema.interner.resolve(*tag)), t);
                assert(tags_of(out@) =~= tags_of(before).insert(
                    sema@.names[tag.0 as int],
                    model,
                ));
            }
        },
        _ => {},
    }
}

/// Collects the types of the enums that type specifiers define.
pub fn collect_enum_underlying_types(
    specs: &Vec<TypeSpecifier>,
    sema: &SemanticAnalyzer<'_>,
    enums: &StringHashMap<i128>,
    out: &mut StringHashMap<CType>,
)
    ensures
        tags_of(final(out)@) == with_enum_types(sema@, enums@, specs@, 0, tags_of(old(out)@)),
    decreases specs@, specs@.len() + 1,
{
    let ghost m = tags_of(out@);
    let mut i: usize = 0;
    #[verifier::loop_isolation(false)]
    while i < specs.len()
        invariant
            i <= specs@.len(),
            with_enum_types(sema@, enums@, specs@, i as int, tags_of(out@)) == with_enum_types(
                sema@,
                enums@,
                specs@,
                0,
                m,
            ),
        decreases specs@.len() - i,
    {
        match &specs[i] {
            TypeSpecifier::Enum(e) => collect_enum_type(e, sema, enums, out),
            TypeSpecifier::Struct(s) => collect_inner_enum_types(s, sema, enums, out),
            TypeSpecifier::Union(s) => collect_inner_enum_types(s, sema, enums, out),
            _ => {},
        }
        i += 1;
    }
}

fn collect_inner_enum_types(
    s: &StructOrUnionSpecifier,
    sema: &SemanticAnalyzer<'_>,
    enums: &StringHashMap<i128>,
    out: &mut StringHashMap<CType>,
)
    ensures
        tags_of(final(out)@) == with_inner_enum_types(sema@, enums@, *s, tags_of(old(out)@)),
    decreases s, 0int,
{
    match &s.members {
        Some(ms) => collect_member_enum_types(ms, sema, enums, out),
        None => {},
    }
}

fn collect_member_enum_types(
    ms: &Vec<StructMember>,
    sema: &SemanticAnalyzer<'_>,
    enums: &StringHashMap<i128>,
    out: &mut StringHashMap<CType>,
)
    ensures
        tags_of(final(out)@) == with_member_enum_types(
            sema@,
            enums@,
            ms@,
            0,
            tags_of(old(out)@),
        ),
    decreases ms@, ms@.len() + 1,
{
    let ghost m = tags_of(out@);
    let mut i: usize = 0;
    #[verifier::loop_isolation(false)]
    while i < ms.len()
        invariant
            i <= ms@.len(),
            with_member_enum_types(sema@, enums@, ms@, i as int, tags_of(out@))
                == with_member_enum_types(sema@, enums@, ms@, 0, m),
        decreases ms@.len() - i,
    {
        collect_enum_underlying_types(&ms[i].specifiers.type_specifiers, sema, enums, out);
        i += 1;
    }
}

} // verus!
