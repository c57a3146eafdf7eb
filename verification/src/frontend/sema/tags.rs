//! Definitions of structs, unions and enums.

use crate::common::diagnostics::Span;
use crate::common::layout::tags_of;
use crate::common::string_interner::Symbol;
use crate::common::text::own;
use crate::common::types::{fields_of, res_ty, ty_of, CType, Field, StructField, Ty};
use crate::frontend::parser::ast::{
    Attribute, DeclarationSpecifiers, EnumSpecifier, Enumerator, StructMember, StructOrUnion,
    StructOrUnionSpecifier, TypeSpecifier,
};
use crate::frontend::sema::analyzer::SemanticAnalyzer;
use crate::frontend::sema::attribute_handler::{
    any_packed, find_aligned, first_aligned, has_packed, ValidatedAttribute,
};
use crate::frontend::sema::attributes::{
    any_says_packed, members_alignment, merge_alignment, stricter, validated,
};
use crate::frontend::sema::constants::enumerator_value;
use crate::frontend::sema::resolve::{make_aggregate, member_fields};
use crate::frontend::sema::scope::{
    ordinary_declared, tag_completed, tag_declared, tag_in, SymbolId, TagEntry, TagKind, TagModel,
};
use crate::frontend::sema::specifiers::aggregate;
use crate::frontend::sema::state::State;
use crate::frontend::sema::symbol_table::{added, enum_symbol};
use vstd::prelude::*;

verus! {

broadcast use crate::common::types::group_type_models;

/// The kind of tag that a specifier is about.
pub open spec fn kind_of(s: StructOrUnionSpecifier) -> TagKind {
    match s.kind {
        StructOrUnion::Struct => TagKind::Struct,
        StructOrUnion::Union => TagKind::Union,
    }
}

/// The state after a tag was declared that has no definition yet.
pub open spec fn tag_announced(
    st: State,
    tag: Option<Symbol>,
    kind: TagKind,
    ty: Ty,
    span: Span,
) -> State {
    match tag {
        None => st,
        Some(name) => State {
            scopes: tag_declared(
                st.scopes,
                name,
                TagModel { kind, ty, is_complete: false, span },
            ),
            ..st
        },
    }
}

/// The state after a tag was declared with a type that may or may not be its
/// definition.
pub open spec fn tag_registered(
    st: State,
    name: Symbol,
    kind: TagKind,
    ty: Ty,
    is_complete: bool,
    span: Span,
) -> State {
    State {
        scopes: tag_declared(st.scopes, name, TagModel { kind, ty, is_complete, span }),
        ..st
    }
}

/// The scopes after a tag was declared together with its definition.
pub open spec fn tag_defined(
    st: State,
    tag: Option<Symbol>,
    kind: TagKind,
    ty: Ty,
    span: Span,
) -> State {
    match tag {
        None => st,
        Some(name) => State {
            scopes: tag_completed(
                tag_declared(st.scopes, name, TagModel { kind, ty, is_complete: true, span }),
                name,
                ty,
            ),
            ..st
        },
    }
}

/// The state after a struct or union definition became known by its tag.
pub open spec fn aggregate_defined(
    st: State,
    tag: Option<Symbol>,
    kind: TagKind,
    ty: Ty,
    span: Span,
) -> State {
    let s = tag_defined(st, tag, kind, ty, span);
    match tag {
        None => s,
        Some(name) => State { tags: st.tags.insert(st.text(name), ty), ..s },
    }
}

/// A struct or union specifier on its own: what it does to the state, and its
/// type, or `None` where its tag names something of another kind.
pub open spec fn struct_definition(st: State, s: StructOrUnionSpecifier) -> (State, Option<Ty>)
    decreases s, 0int,
{
    let is_struct = s.kind == StructOrUnion::Struct;
    let attrs = validated(st, s.attributes@, Seq::empty());
    let packed = has_packed(attrs);
    let aligned = match first_aligned(attrs, 0) {
        Some(n) => Some(n as usize),
        None => None,
    };
    let known = match s.tag {
        Some(tag) => tag_in(st.scopes, tag),
        None => None,
    };
    if known is Some && known->0.kind != kind_of(s) {
        (st.error(s.span, "use of tag with wrong kind (struct vs union vs enum)"@), None)
    } else if known is Some && known->0.is_complete && s.members is Some {
        (st, Some(known->0.ty))
    } else {
        match s.members {
            None => {
                let ty = aggregate(is_struct, st.opt_text(s.tag), Seq::empty(), packed, aligned);
                (tag_announced(st, s.tag, kind_of(s), ty, s.span), Some(ty))
            },
            Some(ms) => {
                let (st1, fields) = members_definition(st, ms@, 0, Seq::empty());
                let ty = aggregate(
                    is_struct,
                    st.opt_text(s.tag),
                    fields,
                    packed,
                    stricter(aligned, members_alignment(st1, ms@, 0, None)),
                );
                (aggregate_defined(st1, s.tag, kind_of(s), ty, s.span), Some(ty))
            },
        }
    }
}

/// The member declarations from the `i`-th on: tags that they define become
/// known before their own members are resolved.
pub open spec fn members_definition(
    st: State,
    ms: Seq<StructMember>,
    i: int,
    fields: Seq<Field>,
) -> (State, Seq<Field>)
    decreases ms, ms.len() - i,
{
    if i < 0 || i >= ms.len() {
        (st, fields)
    } else {
        let st1 = embedded_definitions(st, ms[i].specifiers.type_specifiers@, 0);
        members_definition(st1, ms, i + 1, fields + member_fields(st1, ms[i]))
    }
}

/// The definitions that stand among the type specifiers from the `i`-th on.
pub open spec fn embedded_definitions(st: State, specs: Seq<TypeSpecifier>, i: int) -> State
    decreases specs, specs.len() - i,
{
    if i < 0 || i >= specs.len() {
        st
    } else {
        let st1 = match specs[i] {
            TypeSpecifier::Struct(s) => if s.members is Some {
                struct_definition(st, s).0
            } else {
                st
            },
            TypeSpecifier::Union(s) => if s.members is Some {
                struct_definition(st, s).0
            } else {
                st
            },
            TypeSpecifier::Enum(e) => if e.enumerators is Some {
                enum_definition(st, e).0
            } else {
                st
            },
            _ => st,
        };
        embedded_definitions(st1, specs, i + 1)
    }
}

/// The definitions that stand among declaration specifiers.
#[verifier::opaque]
pub open spec fn tags_defined(st: State, specs: DeclarationSpecifiers) -> State {
    embedded_definitions(st, specs.type_specifiers@, 0)
}

/// The values of an enum so far.
#[derive(Clone, Copy, Debug, PartialEq, Eq, Structural)]
pub struct EnumRange {
    /// What the next enumerator without an explicit value gets.
    pub next: i128,
    pub min: i128,
    pub max: i128,
}

/// The range before the first enumerator.
pub open spec fn empty_range() -> EnumRange {
    EnumRange { next: 0, min: i128::MAX, max: i128::MIN }
}

/// The range after an enumerator with the value `v`.
pub open spec fn range_with(r: EnumRange, v: i128) -> EnumRange {
    EnumRange {
        next: v.wrapping_add(1),
        min: if v < r.min {
            v
        } else {
            r.min
        },
        max: if v > r.max {
            v
        } else {
            r.max
        },
    }
}

/// The value of an enumerator: its explicit value where there is one that can
/// be evaluated, else one more than that of its predecessor.
pub open spec fn value_of(st: State, e: Enumerator, next: i128) -> i128 {
    match e.value {
        Some(x) => match enumerator_value(*x, st.enums, st.names) {
            Some(v) => v,
            None => next,
        },
        None => next,
    }
}

/// The state after an enumeration constant was declared.
pub open spec fn constant_declared(st: State, e: Enumerator, v: i128) -> State {
    State {
        enums: st.enums.insert(st.text(e.name), v),
        symbols: added(st.symbols, enum_symbol(e.name, v, Ty::Int, e.span)),
        scopes: ordinary_declared(
            st.scopes,
            e.name,
            SymbolId(st.symbols.entries.len() as usize),
        ),
        ..st
    }
}

/// The enumerators from the `i`-th on.
pub open spec fn enumerators_declared(st: State, es: Seq<Enumerator>, i: int, r: EnumRange) -> (
    State,
    EnumRange,
)
    decreases es.len() - i,
{
    if i < 0 || i >= es.len() {
        (st, r)
    } else {
        let v = value_of(st, es[i], r.next);
        enumerators_declared(constant_declared(st, es[i], v), es, i + 1, range_with(r, v))
    }
}

/// Enumerators without explicit values count up from that of the first.
pub proof fn lemma_enumerators_count_up(
    st: State,
    es: Seq<Enumerator>,
    i: int,
    r: EnumRange,
    k: int,
)
    requires
        0 <= i <= k < es.len(),
        forall|j: int| 0 <= j < es.len() ==> (#[trigger] es[j]).value is None,
        forall|j: int, l: int|
            0 <= j < l < es.len() ==> st.text((#[trigger] es[j]).name) != st.text(
                (#[trigger] es[l]).name,
            ),
        r.next + es.len() - i <= i128::MAX,
    ensures
        enumerators_declared(st, es, i, r).0.enums.contains_key(st.text(es[k].name)),
        enumerators_declared(st, es, i, r).0.enums[st.text(es[k].name)] == r.next + (k - i),
    decreases es.len() - i,
{
    let st1 = constant_declared(st, es[i], r.next);
    let r1 = range_with(r, r.next);
    if i < k {
        lemma_enumerators_count_up(st1, es, i + 1, r1, k);
    } else {
        lemma_constants_stay(st1, es, i + 1, r1, st.text(es[k].name));
    }
}

proof fn lemma_constants_stay(
    st: State,
    es: Seq<Enumerator>,
    i: int,
    r: EnumRange,
    name: Seq<char>,
)
    requires
        0 <= i <= es.len(),
        st.enums.contains_key(name),
        forall|j: int| i <= j < es.len() ==> st.text((#[trigger] es[j]).name) != name,
    ensures
        enumerators_declared(st, es, i, r).0.enums.contains_key(name),
        enumerators_declared(st, es, i, r).0.enums[name] == st.enums[name],
    decreases es.len() - i,
{
    if i < es.len() {
        let v = value_of(st, es[i], r.next);
        lemma_constants_stay(constant_declared(st, es[i], v), es, i + 1, range_with(r, v), name);
    }
}

/// The type that holds the values of an enum: the narrowest of one and two
/// bytes that does where the enum is packed, else `int`, and `unsigned int`
/// where no value is negative.
pub open spec fn underlying(packed: bool, r: EnumRange) -> Ty {
    let min = if r.min == i128::MAX {
        0
    } else {
        r.min
    };
    let max = if r.max == i128::MIN {
        0
    } else {
        r.max
    };
    if packed {
        if min >= 0 && max <= 255 {
            Ty::UChar
        } else if min >= -128 && max <= 127 {
            Ty::SChar
        } else if min >= 0 && max <= 65535 {
            Ty::UShort
        } else if min >= -32768 && max <= 32767 {
            Ty::Short
        } else {
            Ty::Int
        }
    } else if min >= 0 {
        Ty::UInt
    } else {
        Ty::Int
    }
}

/// An enum specifier on its own: what it does to the state, and its type.
pub open spec fn enum_definition(st: State, e: EnumSpecifier) -> (State, Ty) {
    match e.enumerators {
        None => {
            let ty = Ty::Enum {
                name: st.opt_text(e.tag),
                underlying_type: Box::new(Ty::Int),
            };
            (tag_announced(st, e.tag, TagKind::Enum, ty, e.span), ty)
        },
        Some(es) => {
            let (st1, r) = enumerators_declared(st, es@, 0, empty_range());
            let ty = Ty::Enum {
                name: st.opt_text(e.tag),
                underlying_type: Box::new(underlying(any_says_packed(st, e.attributes@), r)),
            };
            (tag_defined(st1, e.tag, TagKind::Enum, ty, e.span), ty)
        },
    }
}

/// The type that holds the values of an enum.
pub fn underlying_type(packed: bool, r: EnumRange) -> (t: CType)
    ensures
        t@ == underlying(packed, r),
{
    let min: i128 = if r.min == i128::MAX {
        0
    } else {
        r.min
    };
    let max: i128 = if r.max == i128::MIN {
        0
    } else {
        r.max
    };
    if packed {
        if min >= 0 && max <= 255 {
            CType::UChar
        } else if min >= -128 && max <= 127 {
            CType::SChar
        } else if min >= 0 && max <= 65535 {
            CType::UShort
        } else if min >= -32768 && max <= 32767 {
            CType::Short
        } else {
            CType::Int
        }
    } else if min >= 0 {
        CType::UInt
    } else {
        CType::Int
    }
}

/// The range after an enumerator with the value `v`.
pub fn extend_range(r: EnumRange, v: i128) -> (x: EnumRange)
    ensures
        x == range_with(r, v),
{
    EnumRange {
        next: v.wrapping_add(1),
        min: if v < r.min {
            v
        } else {
            r.min
        },
        max: if v > r.max {
            v
        } else {
            r.max
        },
    }
}

/// The range before the first enumerator.
pub fn start_range() -> (x: EnumRange)
    ensures
        x == empty_range(),
{
    EnumRange { next: 0, min: i128::MAX, max: i128::MIN }
}

impl<'a> SemanticAnalyzer<'a> {
    fn announce_tag(&mut self, tag: Option<Symbol>, kind: TagKind, ty: &CType, span: Span)
        ensures
            final(self)@ == tag_announced(old(self)@, tag, kind, ty@, span),
            *final(final(self).diagnostics) == *final(old(self).diagnostics),
    {
        match tag {
            None => {},
            Some(name) => {
                self.scopes.declare_tag(
                    name,
                    TagEntry { kind, ty: ty.clone(), is_complete: false, span },
                );
            },
        }
    }

    fn define_tag(&mut self, tag: Option<Symbol>, kind: TagKind, ty: &CType, span: Span)
        ensures
            final(self)@ == tag_defined(old(self)@, tag, kind, ty@, span),
            *final(final(self).diagnostics) == *final(old(self).diagnostics),
    {
        match tag {
            None => {},
            Some(name) => {
                self.scopes.declare_tag(
                    name,
                    TagEntry { kind, ty: ty.clone(), is_complete: true, span },
                );
                self.scopes.complete_tag(name, ty.clone());
            },
        }
    }

    fn define_aggregate(&mut self, tag: Option<Symbol>, kind: TagKind, ty: &CType, span: Span)
        ensures
            final(self)@ == aggregate_defined(old(self)@, tag, kind, ty@, span),
            *final(final(self).diagnostics) == *final(old(self).diagnostics),
    {
        self.define_tag(tag, kind, ty, span);
        match tag {
            None => {},
            Some(name) => {
                let text: String = own(self.interner.resolve(name));
                let ghost before = self.tag_types_by_name@;
                let copy: CType = ty.clone();
                self.tag_types_by_name.insert(text, copy);
                assert(tags_of(self.tag_types_by_name@) =~= tags_of(before).insert(
                    self@.text(name),
                    ty@,
                ));
            },
        }
    }

    /// Analyzes a struct or union specifier: declares its tag, resolves its
    /// members, and returns its type.
    pub fn analyze_struct_definition(&mut self, spec: &StructOrUnionSpecifier) -> (r: Result<
        CType,
        (),
    >)
        ensures
            final(self)@ == struct_definition(old(self)@, *spec).0,
            res_ty(r) == struct_definition(old(self)@, *spec).1,
            *final(final(self).diagnostics) == *final(old(self).diagnostics),
        decreases spec, 0int,
    {
        let ghost st = self@;
        let is_struct: bool = spec.kind == StructOrUnion::Struct;
        let tag_kind: TagKind = if is_struct {
            TagKind::Struct
        } else {
            TagKind::Union
        };
        let none: Vec<Attribute> = Vec::new();
        assert(none@ =~= Seq::<Attribute>::empty());
        let attrs: Vec<ValidatedAttribute> = self.validate_attributes_for_context(
            &spec.attributes,
            &none,
        );
        let packed: bool = any_packed(&attrs);
        let aligned: Option<usize> = match find_aligned(&attrs) {
            Some(n) => Some(n as usize),
            None => None,
        };
        match spec.tag {
            Some(tag) => {
                match self.scopes.lookup_tag(tag) {
                    Some(known) => {
                        if known.kind != tag_kind {
                            self.diagnostics.emit_error(
                                spec.span,
                                "use of tag with wrong kind (struct vs union vs enum)",
                            );
                            return Err(());
                        }
                        if known.is_complete && spec.members.is_some() {
                            return Ok(known.ty.clone());
                        }
                    },
                    None => {},
                }
            },
            None => {},
        }
        let name: Option<String> = self.opt_text(spec.tag);
        match &spec.members {
            None => {
                let no_fields: Vec<StructField> = Vec::new();
                assert(fields_of(no_fields@) =~= Seq::<Field>::empty());
                let ty: CType = make_aggregate(is_struct, name, no_fields, packed, aligned);
                self.announce_tag(spec.tag, tag_kind, &ty, spec.span);
                Ok(ty)
            },
            Some(members) => {
                let fields: Vec<StructField> = self.define_members(members);
                let total: Option<usize> = merge_alignment(
                    aligned,
                    self.alignment_of_members(members),
                );
                let ty: CType = make_aggregate(is_struct, name, fields, packed, total);
                self.define_aggregate(spec.tag, tag_kind, &ty, spec.span);
                Ok(ty)
            },
        }
    }

    /// Defines the tags that member declarations hold and resolves the members.
    fn define_members(&mut self, members: &Vec<StructMember>) -> (r: Vec<StructField>)
        ensures
            final(self)@ == members_definition(
                old(self)@,
                members@,
                0,
                Seq::empty(),
            ).0,
            fields_of(r@) == members_definition(
                old(self)@,
                members@,
                0,
                Seq::empty(),
            ).1,
            *final(final(self).diagnostics) == *final(old(self).diagnostics),
        decreases members@, members@.len() + 1,
    {
        let ghost st = self@;
        let ghost engine = *final(self.diagnostics);
        let mut fields: Vec<StructField> = Vec::new();
        assert(fields_of(fields@) =~= Seq::<Field>::empty());
        let mut i: usize = 0;
        #[verifier::loop_isolation(false)]
        while i < members.len()
            invariant
                i <= members@.len(),
                members_definition(self@, members@, i as int, fields_of(fields@))
                    == members_definition(st, members@, 0, Seq::empty()),
                *final(self.diagnostics) == engine,
            decreases members@.len() - i,
        {
            let m: &StructMember = &members[i];
            self.define_embedded(&m.specifiers.type_specifiers);
            self.append_member_fields(m, &mut fields);
            i += 1;
        }
        fields
    }

    /// Defines the tags that stand among type specifiers.
    pub fn define_embedded(&mut self, specs: &Vec<TypeSpecifier>)
        ensures
            final(self)@ == embedded_definitions(old(self)@, specs@, 0),
            *final(final(self).diagnostics) == *final(old(self).diagnostics),
        decreases specs@, specs@.len() + 1,
    {
        let ghost st = self@;
        let ghost engine = *final(self.diagnostics);
        let mut i: usize = 0;
        #[verifier::loop_isolation(false)]
        while i < specs.len()
            invariant
                i <= specs@.len(),
                embedded_definitions(self@, specs@, i as int) == embedded_definitions(
                    st,
                    specs@,
                    0,
                ),
                *final(self.diagnostics) == engine,
            decreases specs@.len() - i,
        {
            match &specs[i] {
                TypeSpecifier::Struct(s) => {
                    if s.members.is_some() {
                        let _ = self.analyze_struct_definition(s);
                    }
                },
                TypeSpecifier::Union(s) => {
                    if s.members.is_some() {
                        let _ = self.analyze_struct_definition(s);
                    }
                },
                TypeSpecifier::Enum(e) => {
                    if e.enumerators.is_some() {
                        let _ = self.analyze_enum_definition(e);
                    }
                },
                _ => {},
            }
            i += 1;
        }
    }

    /// Defines the tags that stand among declaration specifiers.
    pub fn process_embedded_tag_definitions(&mut self, specs: &DeclarationSpecifiers)
        ensures
            final(self)@ == tags_defined(old(self)@, *specs),
            *final(final(self).diagnostics) == *final(old(self).diagnostics),
    {
        proof {
            reveal(tags_defined);
        }
        self.define_embedded(&specs.type_specifiers);
    }

    /// Analyzes an enum specifier: declares its constants and its tag, and
    /// returns its type. It never fails.
    pub fn analyze_enum_definition(&mut self, spec: &EnumSpecifier) -> (r: Result<CType, ()>)
        ensures
            r is Ok,
            final(self)@ == enum_definition(old(self)@, *spec).0,
            ty_of(r->Ok_0) == enum_definition(old(self)@, *spec).1,
            *final(final(self).diagnostics) == *final(old(self).diagnostics),
    {
        let ghost st = self@;
        let packed: bool = self.has_packed_attribute(&spec.attributes);
        let name: Option<String> = self.opt_text(spec.tag);
        match &spec.enumerators {
            None => {
                let held = CType::Int;
                assert(held@ == Ty::Int);
                let ty = CType::Enum { name, underlying_type: Box::new(held) };
                self.announce_tag(spec.tag, TagKind::Enum, &ty, spec.span);
                Ok(ty)
            },
            Some(es) => {
                let range: EnumRange = self.declare_enumerators(es);
                let held: CType = underlying_type(packed, range);
                let ty = CType::Enum { name, underlying_type: Box::new(held) };
                self.define_tag(spec.tag, TagKind::Enum, &ty, spec.span);
                Ok(ty)
            },
        }
    }

    fn declare_enumerators(&mut self, es: &Vec<Enumerator>) -> (r: EnumRange)
        ensures
            final(self)@ == enumerators_declared(old(self)@, es@, 0, empty_range()).0,
            r == enumerators_declared(old(self)@, es@, 0, empty_range()).1,
            *final(final(self).diagnostics) == *final(old(self).diagnostics),
    {
        let ghost st = self@;
        let ghost engine = *final(self.diagnostics);
        let mut range: EnumRange = start_range();
        let mut i: usize = 0;
        #[verifier::loop_isolation(false)]
        while i < es.len()
            invariant
                i <= es@.len(),
                enumerators_declared(self@, es@, i as int, range) == enumerators_declared(
                    st,
                    es@,
                    0,
                    empty_range(),
                ),
                *final(self.diagnostics) == engine,
            decreases es@.len() - i,
        {
            let e: &Enumerator = &es[i];
            let v: i128 = match &e.value {
                Some(x) => match self.evaluate_enum_value_expr(x) {
                    Some(v) => v,
                    None => range.next,
                },
                None => range.next,
            };
            let text: String = own(self.interner.resolve(e.name));
            self.enum_constant_values.insert(text, v);
            let id: SymbolId = self.symbols.declare_enum_constant(
                e.name,
                v,
                CType::Int,
                e.span,
            );
            self.scopes.declare_ordinary(e.name, id);
            range = extend_range(range, v);
            i += 1;
        }
        range
    }

    /// Declares the tag of a struct or union with an empty type of its name.
    pub fn register_struct_union_tag(&mut self, spec: &StructOrUnionSpecifier, is_struct: bool)
        ensures
            final(self)@ == (match spec.tag {
                None => old(self)@,
                Some(name) => tag_registered(
                    old(self)@,
                    name,
                    if is_struct {
                        TagKind::Struct
                    } else {
                        TagKind::Union
                    },
                    aggregate(is_struct, Some(old(self)@.text(name)), Seq::empty(), false, None),
                    spec.members is Some,
                    spec.span,
                ),
            }),
            *final(final(self).diagnostics) == *final(old(self).diagnostics),
    {
        match spec.tag {
            None => {},
            Some(name) => {
                let text: String = own(self.interner.resolve(name));
                let fields: Vec<StructField> = Vec::new();
                assert(fields_of(fields@) =~= Seq::<Field>::empty());
                let ty: CType = make_aggregate(is_struct, Some(text), fields, false, None);
                let kind: TagKind = if is_struct {
                    TagKind::Struct
                } else {
                    TagKind::Union
                };
                self.scopes.declare_tag(
                    name,
                    TagEntry { kind, ty, is_complete: spec.members.is_some(), span: spec.span },
                );
            },
        }
    }

    /// Declares the tag of an enum as an `int` enum of its name.
    pub fn register_enum_tag(&mut self, spec: &EnumSpecifier)
        ensures
            final(self)@ == (match spec.tag {
                None => old(self)@,
                Some(name) => tag_registered(
                    old(self)@,
                    name,
                    TagKind::Enum,
                    Ty::Enum {
                        name: Some(old(self)@.text(name)),
                        underlying_type: Box::new(Ty::Int),
                    },
                    spec.enumerators is Some,
                    spec.span,
                ),
            }),
            *final(final(self).diagnostics) == *final(old(self).diagnostics),
    {
        match spec.tag {
            None => {},
            Some(name) => {
                let text: String = own(self.interner.resolve(name));
                let underlying: CType = CType::Int;
                assert(underlying@ == Ty::Int);
                let ty = CType::Enum { name: Some(text), underlying_type: Box::new(underlying) };
                self.scopes.declare_tag(
                    name,
                    TagEntry {
                        kind: TagKind::Enum,
                        ty,
                        is_complete: spec.enumerators.is_some(),
                        span: spec.span,
                    },
                );
            },
        }
    }
}

} // verus!
