//! From attributes as written to attributes that are recognised.

use crate::common::layout::larger;
use crate::common::target::MAX_ALIGN;
use crate::common::text::{bytes_eq, lossy_text, str_eq, utf8_lossy};
use crate::frontend::parser::ast::{Attribute, AttributeArg, StructDeclarator, StructMember};
use crate::frontend::sema::analyzer::SemanticAnalyzer;
use crate::frontend::sema::attribute_handler::{
    attr_of, attrs_of, Attr, SymbolVisibility, ValidatedAttribute,
};
use crate::frontend::sema::resolve::const_value;
use crate::frontend::sema::state::State;
use vstd::prelude::*;
use vstd::utf8::encode_utf8;

verus! {

/// The visibility that a string names.
pub open spec fn visibility_of(bytes: Seq<u8>) -> SymbolVisibility {
    if bytes == encode_utf8("hidden"@) {
        SymbolVisibility::Hidden
    } else if bytes == encode_utf8("protected"@) {
        SymbolVisibility::Protected
    } else if bytes == encode_utf8("internal"@) {
        SymbolVisibility::Internal
    } else {
        SymbolVisibility::Default
    }
}

/// The alignment that an `aligned` asks for: its argument, or the target's
/// greatest where there is none that can be evaluated.
pub open spec fn asked_alignment(st: State, a: Attribute) -> u64 {
    if a.args@.len() > 0 {
        match a.args@[0] {
            AttributeArg::Expression(e) => match const_value(st, *e) {
                Some(v) => v,
                None => MAX_ALIGN as u64,
            },
            _ => MAX_ALIGN as u64,
        }
    } else {
        MAX_ALIGN as u64
    }
}

/// The bytes of the first argument, if that is a string.
pub open spec fn string_argument(a: Attribute) -> Option<Seq<u8>> {
    if a.args@.len() > 0 {
        match a.args@[0] {
            AttributeArg::String(bytes, _) => Some(bytes@),
            _ => None,
        }
    } else {
        None
    }
}

/// What an attribute is recognised as.
pub open spec fn recognised(st: State, a: Attribute) -> Option<Attr> {
    let n = st.text(a.name);
    if n == "packed"@ {
        Some(Attr::Packed)
    } else if n == "aligned"@ {
        Some(Attr::Aligned(asked_alignment(st, a)))
    } else if n == "section"@ {
        match string_argument(a) {
            Some(bytes) => Some(Attr::Section(utf8_lossy(bytes))),
            None => None,
        }
    } else if n == "visibility"@ {
        match string_argument(a) {
            Some(bytes) => Some(Attr::Visibility(visibility_of(bytes))),
            None => None,
        }
    } else {
        flag_attribute(n)
    }
}

/// The attributes whose arguments do not matter.
pub open spec fn flag_attribute(n: Seq<char>) -> Option<Attr> {
    if n == "used"@ {
        Some(Attr::Used)
    } else if n == "unused"@ {
        Some(Attr::Unused)
    } else if n == "weak"@ {
        Some(Attr::Weak)
    } else if n == "noreturn"@ || n == "__noreturn__"@ {
        Some(Attr::NoReturn)
    } else if n == "noinline"@ {
        Some(Attr::NoInline)
    } else if n == "always_inline"@ {
        Some(Attr::AlwaysInline)
    } else if n == "cold"@ {
        Some(Attr::Cold)
    } else if n == "hot"@ {
        Some(Attr::Hot)
    } else if n == "deprecated"@ {
        Some(Attr::Deprecated(None))
    } else if n == "constructor"@ {
        Some(Attr::Constructor(None))
    } else if n == "destructor"@ {
        Some(Attr::Destructor(None))
    } else if n == "malloc"@ {
        Some(Attr::Malloc)
    } else if n == "pure"@ {
        Some(Attr::Pure)
    } else if n == "const"@ {
        Some(Attr::Const)
    } else if n == "warn_unused_result"@ {
        Some(Attr::WarnUnusedResult)
    } else if n == "fallthrough"@ {
        Some(Attr::Fallthrough)
    } else {
        None
    }
}

/// The recognised attributes from the `i`-th on; the others are dropped.
pub open spec fn recognised_from(st: State, s: Seq<Attribute>, i: int) -> Seq<Attr>
    decreases s.len() - i,
{
    if i < 0 || i >= s.len() {
        Seq::empty()
    } else {
        match recognised(st, s[i]) {
            Some(a) => seq![a] + recognised_from(st, s, i + 1),
            None => recognised_from(st, s, i + 1),
        }
    }
}

/// The recognised attributes of a declaration: those of its specifiers, then
/// those of its declarator.
pub open spec fn validated(
    st: State,
    declarator_attrs: Seq<Attribute>,
    specifier_attrs: Seq<Attribute>,
) -> Seq<Attr> {
    recognised_from(st, specifier_attrs, 0) + recognised_from(st, declarator_attrs, 0)
}

/// Whether a name is one of the two spellings of `aligned`.
pub open spec fn says_aligned(n: Seq<char>) -> bool {
    n == "aligned"@ || n == "__aligned__"@
}

/// Whether a name is one of the two spellings of `packed`.
pub open spec fn says_packed(n: Seq<char>) -> bool {
    n == "packed"@ || n == "__packed__"@
}

/// The greater of two alignments, where there is one.
pub open spec fn stricter(a: Option<usize>, b: Option<usize>) -> Option<usize> {
    match (a, b) {
        (Some(x), Some(y)) => Some(larger(x, y)),
        (Some(x), None) => Some(x),
        (None, _) => b,
    }
}

/// The alignment that an attribute of a member asks of the whole struct. An
/// argument that cannot be evaluated asks for nothing.
pub open spec fn member_alignment(st: State, a: Attribute) -> Option<usize> {
    if !says_aligned(st.text(a.name)) {
        None
    } else if a.args@.len() > 0 {
        match a.args@[0] {
            AttributeArg::Expression(e) => match const_value(st, *e) {
                Some(v) => Some(v as usize),
                None => None,
            },
            _ => Some(MAX_ALIGN),
        }
    } else {
        Some(MAX_ALIGN)
    }
}

/// The strictest alignment that the attributes from the `i`-th on ask of the
/// whole struct, and `cur`.
pub open spec fn attributes_alignment(
    st: State,
    s: Seq<Attribute>,
    i: int,
    cur: Option<usize>,
) -> Option<usize>
    decreases s.len() - i,
{
    if i < 0 || i >= s.len() {
        cur
    } else {
        attributes_alignment(st, s, i + 1, stricter(cur, member_alignment(st, s[i])))
    }
}

/// The strictest alignment that the declarators from the `i`-th on ask of the
/// whole struct, and `cur`.
pub open spec fn declarators_alignment(
    st: State,
    ds: Seq<StructDeclarator>,
    i: int,
    cur: Option<usize>,
) -> Option<usize>
    decreases ds.len() - i,
{
    if i < 0 || i >= ds.len() {
        cur
    } else {
        declarators_alignment(
            st,
            ds,
            i + 1,
            match ds[i].declarator {
                Some(d) => attributes_alignment(st, d.attributes@, 0, cur),
                None => cur,
            },
        )
    }
}

/// The strictest alignment that the members from the `i`-th on ask of the whole
/// struct, and `cur`.
pub open spec fn members_alignment(
    st: State,
    ms: Seq<StructMember>,
    i: int,
    cur: Option<usize>,
) -> Option<usize>
    decreases ms.len() - i,
{
    if i < 0 || i >= ms.len() {
        cur
    } else {
        let m = ms[i];
        let a = attributes_alignment(st, m.specifiers.attributes@, 0, cur);
        let b = attributes_alignment(st, m.attributes@, 0, a);
        members_alignment(st, ms, i + 1, declarators_alignment(st, m.declarators@, 0, b))
    }
}

/// Whether one of the attributes is a spelling of `packed`.
pub open spec fn any_says_packed(st: State, s: Seq<Attribute>) -> bool {
    exists|i: int| 0 <= i < s.len() && says_packed(st.text(#[trigger] s[i].name))
}

fn flag_of(n: &str) -> (r: Option<ValidatedAttribute>)
    ensures
        match r {
            Some(a) => flag_attribute(n@) == Some(attr_of(a)),
            None => flag_attribute(n@) is None,
        },
{
    if str_eq(n, "used") {
        Some(ValidatedAttribute::Used)
    } else if str_eq(n, "unused") {
        Some(ValidatedAttribute::Unused)
    } else if str_eq(n, "weak") {
        Some(ValidatedAttribute::Weak)
    } else if str_eq(n, "noreturn") || str_eq(n, "__noreturn__") {
        Some(ValidatedAttribute::NoReturn)
    } else if str_eq(n, "noinline") {
        Some(ValidatedAttribute::NoInline)
    } else if str_eq(n, "always_inline") {
        Some(ValidatedAttribute::AlwaysInline)
    } else if str_eq(n, "cold") {
        Some(ValidatedAttribute::Cold)
    } else if str_eq(n, "hot") {
        Some(ValidatedAttribute::Hot)
    } else if str_eq(n, "deprecated") {
        Some(ValidatedAttribute::Deprecated(None))
    } else if str_eq(n, "constructor") {
        Some(ValidatedAttribute::Constructor(None))
    } else if str_eq(n, "destructor") {
        Some(ValidatedAttribute::Destructor(None))
    } else if str_eq(n, "malloc") {
        Some(ValidatedAttribute::Malloc)
    } else if str_eq(n, "pure") {
        Some(ValidatedAttribute::Pure)
    } else if str_eq(n, "const") {
        Some(ValidatedAttribute::Const)
    } else if str_eq(n, "warn_unused_result") {
        Some(ValidatedAttribute::WarnUnusedResult)
    } else if str_eq(n, "fallthrough") {
        Some(ValidatedAttribute::Fallthrough)
    } else {
        None
    }
}

/// The visibility that a string names.
pub fn visibility_named(bytes: &[u8]) -> (r: SymbolVisibility)
    ensures
        r == visibility_of(bytes@),
{
    if bytes_eq(bytes, "hidden".as_bytes()) {
        SymbolVisibility::Hidden
    } else if bytes_eq(bytes, "protected".as_bytes()) {
        SymbolVisibility::Protected
    } else if bytes_eq(bytes, "internal".as_bytes()) {
        SymbolVisibility::Internal
    } else {
        SymbolVisibility::Default
    }
}

fn max_alignment(a: Option<usize>, b: Option<usize>) -> (r: Option<usize>)
    ensures
        r == stricter(a, b),
{
    match (a, b) {
        (Some(x), Some(y)) => if x >= y {
            Some(x)
        } else {
            Some(y)
        },
        (Some(x), None) => Some(x),
        (None, _) => b,
    }
}

/// The greater of two alignments, where there is one.
pub fn merge_alignment(a: Option<usize>, b: Option<usize>) -> (r: Option<usize>)
    ensures
        r == stricter(a, b),
{
    max_alignment(a, b)
}

impl<'a> SemanticAnalyzer<'a> {
    fn requested_alignment(&self, a: &Attribute) -> (r: u64)
        ensures
            r == asked_alignment(self@, *a),
    {
        if a.args.len() > 0 {
            match &a.args[0] {
                AttributeArg::Expression(e) => match self.try_eval_attr_const_expr(e) {
                    Some(v) => v,
                    None => self.target.max_align() as u64,
                },
                _ => self.target.max_align() as u64,
            }
        } else {
            self.target.max_align() as u64
        }
    }

    /// What an attribute is recognised as.
    pub fn recognise(&self, a: &Attribute) -> (r: Option<ValidatedAttribute>)
        ensures
            match r {
                Some(x) => recognised(self@, *a) == Some(attr_of(x)),
                None => recognised(self@, *a) is None,
            },
    {
        let n: &str = self.interner.resolve(a.name);
        if str_eq(n, "packed") {
            Some(ValidatedAttribute::Packed)
        } else if str_eq(n, "aligned") {
            Some(ValidatedAttribute::Aligned(self.requested_alignment(a)))
        } else if str_eq(n, "section") {
            if a.args.len() > 0 {
                match &a.args[0] {
                    AttributeArg::String(bytes, _) => Some(
                        ValidatedAttribute::Section(lossy_text(bytes.as_slice())),
                    ),
                    _ => None,
                }
            } else {
                None
            }
        } else if str_eq(n, "visibility") {
            if a.args.len() > 0 {
                match &a.args[0] {
                    AttributeArg::String(bytes, _) => Some(
                        ValidatedAttribute::Visibility(visibility_named(bytes.as_slice())),
                    ),
                    _ => None,
                }
            } else {
                None
            }
        } else {
            flag_of(n)
        }
    }

    fn append_recognised(&self, s: &Vec<Attribute>, out: &mut Vec<ValidatedAttribute>)
        ensures
            attrs_of(final(out)@) == attrs_of(old(out)@) + recognised_from(self@, s@, 0),
    {
        let mut i: usize = 0;
        let ghost st = self@;
        let ghost before = attrs_of(out@);
        #[verifier::loop_isolation(false)]
        while i < s.len()
            invariant
                i <= s@.len(),
                attrs_of(out@) + recognised_from(st, s@, i as int) == before + recognised_from(
                    st,
                    s@,
                    0,
                ),
            decreases s@.len() - i,
        {
            let ghost so_far = attrs_of(out@);
            match self.recognise(&s[i]) {
                Some(a) => {
                    let ghost m = attr_of(a);
                    out.push(a);
                    assert(attrs_of(out@) =~= so_far.push(m));
                    assert(so_far + (seq![m] + recognised_from(st, s@, i + 1)) =~= so_far.push(m)
                        + recognised_from(st, s@, i + 1));
                },
                None => {},
            }
            i += 1;
        }
        assert(attrs_of(out@) + recognised_from(st, s@, i as int) =~= attrs_of(out@));
    }

    /// The recognised attributes of a declaration.
    pub fn validate_attributes_for_context(
        &self,
        declarator_attrs: &Vec<Attribute>,
        specifier_attrs: &Vec<Attribute>,
    ) -> (r: Vec<ValidatedAttribute>)
        ensures
            attrs_of(r@) == validated(self@, declarator_attrs@, specifier_attrs@),
    {
        let mut out: Vec<ValidatedAttribute> = Vec::new();
        assert(attrs_of(out@) =~= Seq::<Attr>::empty());
        self.append_recognised(specifier_attrs, &mut out);
        self.append_recognised(declarator_attrs, &mut out);
        assert(attrs_of(out@) =~= validated(self@, declarator_attrs@, specifier_attrs@));
        out
    }

    /// Whether one of the attributes is a spelling of `packed`.
    pub fn has_packed_attribute(&self, s: &Vec<Attribute>) -> (r: bool)
        ensures
            r == any_says_packed(self@, s@),
    {
        let mut i: usize = 0;
        let ghost st = self@;
        #[verifier::loop_isolation(false)]
        while i < s.len()
            invariant
                i <= s@.len(),
                forall|j: int| 0 <= j < i ==> !says_packed(st.text(#[trigger] s@[j].name)),
            decreases s@.len() - i,
        {
            let n: &str = self.interner.resolve(s[i].name);
            if str_eq(n, "packed") || str_eq(n, "__packed__") {
                assert(says_packed(st.text(s@[i as int].name)));
                return true;
            }
            i += 1;
        }
        false
    }

    fn alignment_of_attribute(&self, a: &Attribute) -> (r: Option<usize>)
        ensures
            r == member_alignment(self@, *a),
    {
        let n: &str = self.interner.resolve(a.name);
        if !str_eq(n, "aligned") && !str_eq(n, "__aligned__") {
            return None;
        }
        if a.args.len() > 0 {
            match &a.args[0] {
                AttributeArg::Expression(e) => match self.try_eval_attr_const_expr(e) {
                    Some(v) => Some(v as usize),
                    None => None,
                },
                _ => Some(self.target.max_align()),
            }
        } else {
            Some(self.target.max_align())
        }
    }

    /// The strictest of an alignment and those that attributes ask for.
    pub fn alignment_of_attributes(&self, s: &Vec<Attribute>, cur: Option<usize>) -> (r: Option<
        usize,
    >)
        ensures
            r == attributes_alignment(self@, s@, 0, cur),
    {
        let mut best: Option<usize> = cur;
        let mut i: usize = 0;
        let ghost st = self@;
        #[verifier::loop_isolation(false)]
        while i < s.len()
            invariant
                i <= s@.len(),
                attributes_alignment(st, s@, i as int, best) == attributes_alignment(
                    st,
                    s@,
                    0,
                    cur,
                ),
            decreases s@.len() - i,
        {
            best = max_alignment(best, self.alignment_of_attribute(&s[i]));
            i += 1;
        }
        best
    }

    fn alignment_of_declarators(&self, ds: &Vec<StructDeclarator>, cur: Option<usize>) -> (r:
        Option<usize>)
        ensures
            r == declarators_alignment(self@, ds@, 0, cur),
    {
        let mut best: Option<usize> = cur;
        let mut i: usize = 0;
        let ghost st = self@;
        #[verifier::loop_isolation(false)]
        while i < ds.len()
            invariant
                i <= ds@.len(),
                declarators_alignment(st, ds@, i as int, best) == declarators_alignment(
                    st,
                    ds@,
                    0,
                    cur,
                ),
            decreases ds@.len() - i,
        {
            match &ds[i].declarator {
                Some(d) => {
                    best = self.alignment_of_attributes(&d.attributes, best);
                },
                None => {},
            }
            i += 1;
        }
        best
    }

    /// The strictest alignment that members ask of the whole struct.
    pub fn alignment_of_members(&self, ms: &Vec<StructMember>) -> (r: Option<usize>)
        ensures
            r == members_alignment(self@, ms@, 0, None),
    {
        let mut best: Option<usize> = None;
        let mut i: usize = 0;
        let ghost st = self@;
        #[verifier::loop_isolation(false)]
        while i < ms.len()
            invariant
                i <= ms@.len(),
                members_alignment(st, ms@, i as int, best) == members_alignment(st, ms@, 0, None),
            decreases ms@.len() - i,
        {
            let m: &StructMember = &ms[i];
            let a: Option<usize> = self.alignment_of_attributes(&m.specifiers.attributes, best);
            let b: Option<usize> = self.alignment_of_attributes(&m.attributes, a);
            best = self.alignment_of_declarators(&m.declarators, b);
            i += 1;
        }
        best
    }
}

} // verus!
