//! What definitions of structs, unions and enums come to, and what their attributes
//! ask for.

use crate::common::layout::plain_size;
use crate::common::target::Target;
use crate::common::types::{Field, Ty};
use crate::frontend::parser::ast::{
    Attribute, AttributeArg, EnumSpecifier, Enumerator, Expression, StructDeclarator,
    StructMember, StructOrUnion, StructOrUnionSpecifier, TypeSpecifier,
};
use crate::frontend::sema::attribute_handler::{has_packed, Attr};
use crate::frontend::sema::attributes::{
    attributes_alignment, declarators_alignment, flag_attribute, member_alignment,
    members_alignment, recognised, recognised_from, stricter, validated,
};
use crate::frontend::sema::resolve::{member_fields, members_fields};
use crate::frontend::sema::scope::{tag_completed, tag_declared, tag_in, tag_scope, TagModel};
use crate::frontend::sema::state::State;
use crate::frontend::sema::tags::{
    constant_declared, embedded_definitions, empty_range, enum_definition, enumerators_declared,
    kind_of, members_definition, range_with, struct_definition, underlying, value_of, EnumRange,
};
use crate::ir::lowering::enums::enum_type_for;
use vstd::prelude::*;

verus! {

/// Whether an attribute of the given name stands in a list.
pub open spec fn stands_in(st: State, name: Seq<char>, s: Seq<Attribute>) -> bool {
    exists|i: int| 0 <= i < s.len() && st.text((#[trigger] s[i]).name) == name
}

/// Whether a type is packed.
pub open spec fn is_packed(t: Ty) -> bool {
    match t {
        Ty::Struct { packed, .. } => packed,
        Ty::Union { packed, .. } => packed,
        _ => false,
    }
}

/// The alignment that a type asks for.
pub open spec fn asks_for(t: Ty) -> Option<usize> {
    match t {
        Ty::Struct { aligned, .. } => aligned,
        Ty::Union { aligned, .. } => aligned,
        _ => None,
    }
}

/// The members of a type.
pub open spec fn fields_in(t: Ty) -> Seq<Field> {
    match t {
        Ty::Struct { fields, .. } => fields,
        Ty::Union { fields, .. } => fields,
        _ => Seq::empty(),
    }
}

/// Whether no tag that a specifier names is known yet.
pub open spec fn is_new(st: State, s: StructOrUnionSpecifier) -> bool {
    s.tag matches Some(tag) ==> tag_in(st.scopes, tag) is None
}

/// A definition of a new struct or union gives a type of that kind and name, which is
/// packed exactly where one of its attributes is `packed`.
pub proof fn lemma_definition_gives_its_type(st: State, s: StructOrUnionSpecifier)
    requires
        is_new(st, s),
    ensures
        ({
            let r = struct_definition(st, s);
            &&& r.1 is Some
            &&& s.kind == StructOrUnion::Struct ==> (r.1->0 matches Ty::Struct { name, .. } && name
                == st.opt_text(s.tag))
            &&& s.kind == StructOrUnion::Union ==> (r.1->0 matches Ty::Union { name, .. } && name
                == st.opt_text(s.tag))
            &&& is_packed(r.1->0) <==> stands_in(st, "packed"@, s.attributes@)
            &&& s.members is None ==> fields_in(r.1->0).len() == 0
        }),
{
    lemma_packed_is_recognised(st, s.attributes@);
}

proof fn lemma_packed_is_recognised(st: State, s: Seq<Attribute>)
    ensures
        has_packed(validated(st, s, Seq::empty())) <==> stands_in(st, "packed"@, s),
{
    let r = recognised_from(st, s, 0);
    assert(validated(st, s, Seq::empty()) =~= r);
    lemma_recognised_holds(st, s, 0, Attr::Packed);
    if has_packed(r) {
        let i = choose|i: int| 0 <= i < r.len() && #[trigger] r[i] == Attr::Packed;
        assert(r.contains(r[i]));
    }
    if stands_in(st, "packed"@, s) {
        let i = choose|i: int| 0 <= i < s.len() && st.text((#[trigger] s[i]).name) == "packed"@;
        assert(recognised(st, s[i]) == Some(Attr::Packed));
    }
}

/// Among the recognised attributes are those that are listed and known, and no others.
pub proof fn lemma_known_attributes_are_recognised(st: State, s: Seq<Attribute>, a: Attr)
    ensures
        recognised_from(st, s, 0).contains(a) <==> exists|i: int|
            0 <= i < s.len() && #[trigger] recognised(st, s[i]) == Some(a),
{
    lemma_recognised_holds(st, s, 0, a);
}

proof fn lemma_recognised_holds(st: State, s: Seq<Attribute>, i: int, a: Attr)
    requires
        0 <= i <= s.len(),
    ensures
        recognised_from(st, s, i).contains(a) <==> exists|k: int|
            i <= k < s.len() && #[trigger] recognised(st, s[k]) == Some(a),
    decreases s.len() - i,
{
    let r = recognised_from(st, s, i);
    if i < s.len() {
        let rest = recognised_from(st, s, i + 1);
        lemma_recognised_holds(st, s, i + 1, a);
        match recognised(st, s[i]) {
            Some(x) => {
                assert(r == seq![x] + rest);
                if r.contains(a) {
                    let j = choose|j: int| 0 <= j < r.len() && r[j] == a;
                    if j > 0 {
                        assert(rest[j - 1] == a);
                        assert(rest.contains(a));
                    } else {
                        assert(recognised(st, s[i]) == Some(a));
                    }
                }
                if rest.contains(a) {
                    let j = choose|j: int| 0 <= j < rest.len() && rest[j] == a;
                    assert(r[j + 1] == a);
                }
                if x == a {
                    assert(r[0] == a);
                }
            },
            None => {},
        }
    }
}

/// A name stands for an attribute exactly where it is spelled as one.
pub proof fn lemma_spellings_of_attributes(n: Seq<char>)
    ensures
        flag_attribute(n) == Some(Attr::Weak) <==> n == "weak"@,
        flag_attribute(n) == Some(Attr::Used) <==> n == "used"@,
        flag_attribute(n) == Some(Attr::Unused) <==> n == "unused"@,
        flag_attribute(n) == Some(Attr::NoReturn) <==> n == "noreturn"@ || n == "__noreturn__"@,
        flag_attribute(n) == Some(Attr::NoInline) <==> n == "noinline"@,
        flag_attribute(n) == Some(Attr::AlwaysInline) <==> n == "always_inline"@,
        flag_attribute(n) == Some(Attr::Cold) <==> n == "cold"@,
        flag_attribute(n) == Some(Attr::Hot) <==> n == "hot"@,
        flag_attribute(n) == Some(Attr::Malloc) <==> n == "malloc"@,
        flag_attribute(n) == Some(Attr::Pure) <==> n == "pure"@,
        flag_attribute(n) == Some(Attr::Const) <==> n == "const"@,
{
    reveal_strlit("used");
    reveal_strlit("unused");
    reveal_strlit("weak");
    reveal_strlit("noreturn");
    reveal_strlit("__noreturn__");
    reveal_strlit("noinline");
    reveal_strlit("always_inline");
    reveal_strlit("cold");
    reveal_strlit("hot");
    reveal_strlit("deprecated");
    reveal_strlit("constructor");
    reveal_strlit("destructor");
    reveal_strlit("malloc");
    reveal_strlit("pure");
    reveal_strlit("const");
    assert("used"@.len() == 4);
    assert("unused"@.len() == 6);
    assert("weak"@.len() == 4);
    assert("noreturn"@.len() == 8);
    assert("__noreturn__"@.len() == 12);
    assert("noinline"@.len() == 8);
    assert("always_inline"@.len() == 13);
    assert("cold"@.len() == 4);
    assert("hot"@.len() == 3);
    assert("deprecated"@.len() == 10);
    assert("constructor"@.len() == 11);
    assert("destructor"@.len() == 10);
    assert("malloc"@.len() == 6);
    assert("pure"@.len() == 4);
    assert("const"@.len() == 5);
    assert("used"@[0] == 'u' && "weak"@[0] == 'w' && "pure"@[0] == 'p' && "cold"@[0] == 'c');
    assert("unused"@[0] == 'u' && "malloc"@[0] == 'm');
    assert("noreturn"@[2] == 'r' && "noinline"@[2] == 'i');
}

/// The stricter of two alignments is one of them and not below either, in whatever
/// order they are given; where only one is asked for it is that one.
pub proof fn lemma_stricter_alignment(a: Option<usize>, b: Option<usize>)
    ensures
        stricter(a, b) == stricter(b, a),
        stricter(a, None) == a,
        stricter(a, b) == a || stricter(a, b) == b,
        a is Some ==> stricter(a, b) is Some && stricter(a, b)->0 >= a->0,
{
}

/// An `aligned` with a literal asks for that alignment, on its struct or union and on
/// any of its members; the type asks for no less.
pub proof fn lemma_alignment_is_asked_for(
    st: State,
    s: Seq<Attribute>,
    i: int,
    n: u64,
    cur: Option<usize>,
)
    requires
        0 <= i < s.len(),
        st.text(s[i].name) == "aligned"@,
        s[i].args@.len() == 1,
        s[i].args@[0] matches AttributeArg::Expression(e) && (*e matches
            Expression::IntegerLiteral { value, .. } && value == n),
        n <= usize::MAX,
    ensures
        recognised(st, s[i]) == Some(Attr::Aligned(n)),
        attributes_alignment(st, s, 0, cur) matches Some(x) && x >= n,
{
    reveal_strlit("aligned");
    reveal_strlit("packed");
    assert("aligned"@.len() == 7 && "packed"@.len() == 6);
    lemma_attributes_reach(st, s, 0, i, cur, n as usize);
}

proof fn lemma_attributes_grow(st: State, s: Seq<Attribute>, i: int, cur: Option<usize>)
    ensures
        cur is Some ==> attributes_alignment(st, s, i, cur) is Some && attributes_alignment(
            st,
            s,
            i,
            cur,
        )->0 >= cur->0,
    decreases s.len() - i,
{
    if 0 <= i < s.len() {
        lemma_attributes_grow(st, s, i + 1, stricter(cur, member_alignment(st, s[i])));
    }
}

proof fn lemma_attributes_reach(
    st: State,
    s: Seq<Attribute>,
    i: int,
    k: int,
    cur: Option<usize>,
    n: usize,
)
    requires
        0 <= i <= k < s.len(),
        member_alignment(st, s[k]) == Some(n),
    ensures
        attributes_alignment(st, s, i, cur) matches Some(x) && x >= n,
    decreases k - i,
{
    let next = stricter(cur, member_alignment(st, s[i]));
    if i < k {
        lemma_attributes_reach(st, s, i + 1, k, next, n);
    } else {
        lemma_attributes_grow(st, s, i + 1, next);
    }
}

/// The strictest alignment that members ask for is not below what any of their
/// specifiers' attributes asks for.
pub proof fn lemma_members_ask_for_alignment(
    st: State,
    ms: Seq<StructMember>,
    i: int,
    k: int,
    j: int,
    cur: Option<usize>,
    n: usize,
)
    requires
        0 <= i <= k < ms.len(),
        0 <= j < ms[k].specifiers.attributes@.len(),
        member_alignment(st, ms[k].specifiers.attributes@[j]) == Some(n),
    ensures
        members_alignment(st, ms, i, cur) matches Some(x) && x >= n,
    decreases k - i,
{
    let m = ms[i];
    let a = attributes_alignment(st, m.specifiers.attributes@, 0, cur);
    let b = attributes_alignment(st, m.attributes@, 0, a);
    let c = declarators_alignment(st, m.declarators@, 0, b);
    if i < k {
        lemma_members_ask_for_alignment(st, ms, i + 1, k, j, c, n);
    } else {
        lemma_attributes_reach(st, m.specifiers.attributes@, 0, j, cur, n);
        lemma_attributes_grow(st, m.attributes@, 0, a);
        lemma_declarators_grow(st, m.declarators@, 0, b);
        lemma_members_grow(st, ms, i + 1, c);
    }
}

proof fn lemma_declarators_grow(
    st: State,
    ds: Seq<StructDeclarator>,
    i: int,
    cur: Option<usize>,
)
    ensures
        cur is Some ==> declarators_alignment(st, ds, i, cur) is Some && declarators_alignment(
            st,
            ds,
            i,
            cur,
        )->0 >= cur->0,
    decreases ds.len() - i,
{
    if 0 <= i < ds.len() {
        let next = match ds[i].declarator {
            Some(d) => attributes_alignment(st, d.attributes@, 0, cur),
            None => cur,
        };
        match ds[i].declarator {
            Some(d) => lemma_attributes_grow(st, d.attributes@, 0, cur),
            None => {},
        }
        lemma_declarators_grow(st, ds, i + 1, next);
    }
}

proof fn lemma_members_grow(st: State, ms: Seq<StructMember>, i: int, cur: Option<usize>)
    ensures
        cur is Some ==> members_alignment(st, ms, i, cur) is Some && members_alignment(
            st,
            ms,
            i,
            cur,
        )->0 >= cur->0,
    decreases ms.len() - i,
{
    if 0 <= i < ms.len() {
        let m = ms[i];
        let a = attributes_alignment(st, m.specifiers.attributes@, 0, cur);
        let b = attributes_alignment(st, m.attributes@, 0, a);
        let c = declarators_alignment(st, m.declarators@, 0, b);
        lemma_attributes_grow(st, m.specifiers.attributes@, 0, cur);
        lemma_attributes_grow(st, m.attributes@, 0, a);
        lemma_declarators_grow(st, m.declarators@, 0, b);
        lemma_members_grow(st, ms, i + 1, c);
    }
}

/// Once a new struct or union is defined, its tag means the complete type that the
/// definition gave, also where sizes are asked for.
pub proof fn lemma_definition_is_known_by_its_tag(st: State, s: StructOrUnionSpecifier)
    requires
        s.tag is Some,
        is_new(st, s),
        s.members is Some,
        members_definition(st, s.members->0@, 0, Seq::empty()).0.scopes.len() > 0,
    ensures
        ({
            let r = struct_definition(st, s);
            let known = tag_in(r.0.scopes, s.tag->0);
            let text = members_definition(st, s.members->0@, 0, Seq::empty()).0.text(s.tag->0);
            &&& known is Some
            &&& known->0.is_complete
            &&& known->0.kind == kind_of(s)
            &&& Some(known->0.ty) == r.1
            &&& r.0.tags.contains_key(text)
            &&& Some(r.0.tags[text]) == r.1
        }),
{
    let st1 = members_definition(st, s.members->0@, 0, Seq::empty()).0;
    let ty = struct_definition(st, s).1->0;
    let tag = s.tag->0;
    let entry = TagModel { kind: kind_of(s), ty, is_complete: true, span: s.span };
    let declared = tag_declared(st1.scopes, tag, entry);
    let n = declared.len() as int;
    assert(tag_scope(declared, n, tag.0) == Some(n - 1));
    let completed = tag_completed(declared, tag, ty);
    assert(tag_scope(completed, n, tag.0) == Some(n - 1));
}

/// Whether the specifiers of members define no struct, union or enum themselves.
pub open spec fn defines_nothing(ms: Seq<StructMember>) -> bool {
    forall|i: int, j: int|
        0 <= i < ms.len() && 0 <= j < ms[i].specifiers.type_specifiers@.len()
            ==> match #[trigger] ms[i].specifiers.type_specifiers@[j] {
            TypeSpecifier::Struct(s) => s.members is None,
            TypeSpecifier::Union(s) => s.members is None,
            TypeSpecifier::Enum(e) => e.enumerators is None,
            _ => true,
        }
}

/// The type of a definition has the members that its member declarations declare,
/// in their order, where these define nothing else.
pub proof fn lemma_definition_has_its_members(st: State, s: StructOrUnionSpecifier)
    requires
        is_new(st, s),
        s.members is Some,
        defines_nothing(s.members->0@),
    ensures
        struct_definition(st, s).1 is Some,
        fields_in(struct_definition(st, s).1->0) == members_fields(st, s.members->0@, 0),
{
    let ms = s.members->0@;
    lemma_members_collected(st, ms, 0, Seq::empty());
    assert(Seq::<Field>::empty() + members_fields(st, ms, 0) =~= members_fields(st, ms, 0));
}

proof fn lemma_members_collected(st: State, ms: Seq<StructMember>, i: int, before: Seq<Field>)
    requires
        0 <= i <= ms.len(),
        defines_nothing(ms),
    ensures
        members_definition(st, ms, i, before) == (st, before + members_fields(st, ms, i)),
    decreases ms.len() - i,
{
    if i < ms.len() {
        let specs = ms[i].specifiers.type_specifiers@;
        assert forall|j: int| 0 <= j < specs.len() implies match #[trigger] specs[j] {
            TypeSpecifier::Struct(s) => s.members is None,
            TypeSpecifier::Union(s) => s.members is None,
            TypeSpecifier::Enum(e) => e.enumerators is None,
            _ => true,
        } by {
            assert(ms[i].specifiers.type_specifiers@[j] == specs[j]);
        }
        lemma_nothing_embedded(st, specs, 0);
        let here = member_fields(st, ms[i]);
        lemma_members_collected(st, ms, i + 1, before + here);
        assert(before + here + members_fields(st, ms, i + 1) =~= before + members_fields(
            st,
            ms,
            i,
        ));
    } else {
        assert(before + members_fields(st, ms, i) =~= before);
    }
}

proof fn lemma_nothing_embedded(st: State, specs: Seq<TypeSpecifier>, i: int)
    requires
        0 <= i <= specs.len(),
        forall|j: int|
            0 <= j < specs.len() ==> match #[trigger] specs[j] {
                TypeSpecifier::Struct(s) => s.members is None,
                TypeSpecifier::Union(s) => s.members is None,
                TypeSpecifier::Enum(e) => e.enumerators is None,
                _ => true,
            },
    ensures
        embedded_definitions(st, specs, i) == st,
    decreases specs.len() - i,
{
    if i < specs.len() {
        let s = specs[i];
        lemma_nothing_embedded(st, specs, i + 1);
    }
}

/// The values that an integer type of the given size can hold.
pub open spec fn least_and_greatest(t: Ty) -> (int, int) {
    match t {
        Ty::UChar => (0, 0xff),
        Ty::SChar => (-0x80, 0x7f),
        Ty::UShort => (0, 0xffff),
        Ty::Short => (-0x8000, 0x7fff),
        Ty::UInt => (0, 0xffff_ffff),
        _ => (-0x8000_0000, 0x7fff_ffff),
    }
}

/// The type of a packed enum holds all its values where one below `int` does, and no
/// smaller type does; that of another is `unsigned` exactly where no value is
/// negative, else `int`. Lowering chooses the same type.
pub proof fn lemma_enum_type_fits(packed: bool, r: EnumRange)
    requires
        r.min <= r.max,
        r.min != i128::MAX,
        r.max != i128::MIN,
    ensures
        ({
            let t = underlying(packed, r);
            let bounds = least_and_greatest(t);
            &&& packed && !(t is Int) ==> bounds.0 <= r.min && r.max <= bounds.1
            &&& packed && plain_size(t, Target::X86_64) > 1 ==> !(0 <= r.min && r.max <= 0xff) && !(
            -0x80 <= r.min && r.max <= 0x7f)
            &&& packed && plain_size(t, Target::X86_64) > 2 ==> !(0 <= r.min && r.max <= 0xffff)
                && !(-0x8000 <= r.min && r.max <= 0x7fff)
            &&& !packed ==> (t is UInt <==> r.min >= 0) && (t is Int <==> r.min < 0)
            &&& t == enum_type_for(r.min, r.max, packed)
        }),
{
}

/// The range that an enum ends with holds the values of all its enumerators: after one
/// more of them it holds what it held and the new value.
pub proof fn lemma_range_holds_values(r: EnumRange, v: i128, w: i128)
    requires
        r.min <= w <= r.max,
    ensures
        range_with(r, v).min <= w <= range_with(r, v).max,
        range_with(r, v).min <= v <= range_with(r, v).max,
        range_with(r, v).min == v || range_with(r, v).min == r.min,
        range_with(r, v).max == v || range_with(r, v).max == r.max,
        v < i128::MAX ==> range_with(r, v).next == v + 1,
{
}

/// The type of an enum is chosen for a range that holds the values of all its constants.
pub proof fn lemma_enum_range_holds_its_constants(
    st: State,
    es: Seq<Enumerator>,
    i: int,
    r: EnumRange,
    k: int,
)
    requires
        0 <= i <= k < es.len(),
        forall|a: int, b: int|
            0 <= a < b < es.len() ==> st.text((#[trigger] es[a]).name) != st.text(
                (#[trigger] es[b]).name,
            ),
    ensures
        ({
            let after = enumerators_declared(st, es, i, r);
            let name = st.text(es[k].name);
            &&& after.0.enums.contains_key(name)
            &&& after.1.min <= after.0.enums[name] <= after.1.max
        }),
    decreases es.len() - i,
{
    let v = value_of(st, es[i], r.next);
    let next = constant_declared(st, es[i], v);
    if i < k {
        lemma_enum_range_holds_its_constants(next, es, i + 1, range_with(r, v), k);
    } else {
        let name = st.text(es[k].name);
        assert forall|j: int| i + 1 <= j < es.len() implies st.text((#[trigger] es[j]).name)
            != name by {
            assert(st.text(es[k].name) != st.text(es[j].name));
        }
        lemma_constant_stays(next, es, i + 1, range_with(r, v), name);
    }
}

proof fn lemma_constant_stays(
    st: State,
    es: Seq<Enumerator>,
    i: int,
    r: EnumRange,
    name: Seq<char>,
)
    requires
        0 <= i <= es.len(),
        st.enums.contains_key(name),
        r.min <= st.enums[name] <= r.max,
        forall|j: int| i <= j < es.len() ==> st.text((#[trigger] es[j]).name) != name,
    ensures
        ({
            let after = enumerators_declared(st, es, i, r);
            &&& after.0.enums.contains_key(name)
            &&& after.0.enums[name] == st.enums[name]
            &&& after.1.min <= st.enums[name] <= after.1.max
        }),
    decreases es.len() - i,
{
    if i < es.len() {
        let v = value_of(st, es[i], r.next);
        assert(st.text(es[i].name) != name);
        lemma_constant_stays(constant_declared(st, es[i], v), es, i + 1, range_with(r, v), name);
    }
}

/// The type of an enum definition is an enum of the name that it gives, over a type that
/// its range was chosen for, and its tag means that type.
pub proof fn lemma_enum_definition_gives_its_type(st: State, e: EnumSpecifier)
    requires
        e.enumerators is Some,
    ensures
        ({
            let r = enum_definition(st, e);
            let range = enumerators_declared(st, e.enumerators->0@, 0, empty_range()).1;
            &&& r.1 matches Ty::Enum { name, underlying_type } && name == st.opt_text(e.tag) && (
            *underlying_type == underlying(true, range) || *underlying_type == underlying(
                false,
                range,
            ))
            &&& r.0.enums == enumerators_declared(
                st,
                e.enumerators->0@,
                0,
                empty_range(),
            ).0.enums
        }),
{
}

} // verus!
