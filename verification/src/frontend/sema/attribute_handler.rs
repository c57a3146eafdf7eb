//! Attributes that were recognised.

use crate::common::text::{opt_chars, own, own_opt};
use vstd::prelude::*;

verus! {

/// How far a symbol can be seen from outside its shared object.
#[derive(Clone, Copy, Debug, PartialEq, Eq, Structural)]
pub enum SymbolVisibility {
    Default,
    Hidden,
    Protected,
    Internal,
}

/// A recognised attribute.
#[derive(Debug)]
pub enum ValidatedAttribute {
    Packed,
    Aligned(u64),
    Section(String),
    Used,
    Unused,
    Weak,
    NoReturn,
    NoInline,
    AlwaysInline,
    Cold,
    Hot,
    Deprecated(Option<String>),
    Visibility(SymbolVisibility),
    Constructor(Option<i32>),
    Destructor(Option<i32>),
    Malloc,
    Pure,
    Const,
    WarnUnusedResult,
    Fallthrough,
}

/// A recognised attribute, as contracts see it.
pub enum Attr {
    Packed,
    Aligned(u64),
    Section(Seq<char>),
    Used,
    Unused,
    Weak,
    NoReturn,
    NoInline,
    AlwaysInline,
    Cold,
    Hot,
    Deprecated(Option<Seq<char>>),
    Visibility(SymbolVisibility),
    Constructor(Option<i32>),
    Destructor(Option<i32>),
    Malloc,
    Pure,
    Const,
    WarnUnusedResult,
    Fallthrough,
}

/// The model of an attribute.
pub open spec fn attr_of(a: ValidatedAttribute) -> Attr {
    match a {
        ValidatedAttribute::Packed => Attr::Packed,
        ValidatedAttribute::Aligned(n) => Attr::Aligned(n),
        ValidatedAttribute::Section(s) => Attr::Section(s@),
        ValidatedAttribute::Used => Attr::Used,
        ValidatedAttribute::Unused => Attr::Unused,
        ValidatedAttribute::Weak => Attr::Weak,
        ValidatedAttribute::NoReturn => Attr::NoReturn,
        ValidatedAttribute::NoInline => Attr::NoInline,
        ValidatedAttribute::AlwaysInline => Attr::AlwaysInline,
        ValidatedAttribute::Cold => Attr::Cold,
        ValidatedAttribute::Hot => Attr::Hot,
        ValidatedAttribute::Deprecated(m) => Attr::Deprecated(opt_chars(m)),
        ValidatedAttribute::Visibility(v) => Attr::Visibility(v),
        ValidatedAttribute::Constructor(p) => Attr::Constructor(p),
        ValidatedAttribute::Destructor(p) => Attr::Destructor(p),
        ValidatedAttribute::Malloc => Attr::Malloc,
        ValidatedAttribute::Pure => Attr::Pure,
        ValidatedAttribute::Const => Attr::Const,
        ValidatedAttribute::WarnUnusedResult => Attr::WarnUnusedResult,
        ValidatedAttribute::Fallthrough => Attr::Fallthrough,
    }
}

/// The models of several attributes.
pub open spec fn attrs_of(s: Seq<ValidatedAttribute>) -> Seq<Attr> {
    Seq::new(s.len(), |i: int| attr_of(s[i]))
}

impl Clone for ValidatedAttribute {
    fn clone(&self) -> (r: ValidatedAttribute)
        ensures
            attr_of(r) == attr_of(*self),
    {
        match self {
            ValidatedAttribute::Packed => ValidatedAttribute::Packed,
            ValidatedAttribute::Aligned(n) => ValidatedAttribute::Aligned(*n),
            ValidatedAttribute::Section(s) => ValidatedAttribute::Section(own(s.as_str())),
            ValidatedAttribute::Used => ValidatedAttribute::Used,
            ValidatedAttribute::Unused => ValidatedAttribute::Unused,
            ValidatedAttribute::Weak => ValidatedAttribute::Weak,
            ValidatedAttribute::NoReturn => ValidatedAttribute::NoReturn,
            ValidatedAttribute::NoInline => ValidatedAttribute::NoInline,
            ValidatedAttribute::AlwaysInline => ValidatedAttribute::AlwaysInline,
            ValidatedAttribute::Cold => ValidatedAttribute::Cold,
            ValidatedAttribute::Hot => ValidatedAttribute::Hot,
            ValidatedAttribute::Deprecated(m) => ValidatedAttribute::Deprecated(own_opt(m)),
            ValidatedAttribute::Visibility(v) => ValidatedAttribute::Visibility(*v),
            ValidatedAttribute::Constructor(p) => ValidatedAttribute::Constructor(*p),
            ValidatedAttribute::Destructor(p) => ValidatedAttribute::Destructor(*p),
            ValidatedAttribute::Malloc => ValidatedAttribute::Malloc,
            ValidatedAttribute::Pure => ValidatedAttribute::Pure,
            ValidatedAttribute::Const => ValidatedAttribute::Const,
            ValidatedAttribute::WarnUnusedResult => ValidatedAttribute::WarnUnusedResult,
            ValidatedAttribute::Fallthrough => ValidatedAttribute::Fallthrough,
        }
    }
}

/// A copy of a list of attributes.
pub fn copy_attrs(v: &Vec<ValidatedAttribute>) -> (r: Vec<ValidatedAttribute>)
    ensures
        attrs_of(r@) == attrs_of(v@),
{
    let mut r: Vec<ValidatedAttribute> = Vec::new();
    let mut i: usize = 0;
    while i < v.len()
        invariant
            i <= v@.len(),
            r@.len() == i,
            forall|j: int| 0 <= j < i ==> attr_of(#[trigger] r@[j]) == attr_of(v@[j]),
        decreases v@.len() - i,
    {
        r.push(v[i].clone());
        i += 1;
    }
    assert(attrs_of(r@) =~= attrs_of(v@));
    r
}

/// Whether one of the attributes is `packed`.
pub open spec fn has_packed(s: Seq<Attr>) -> bool {
    exists|i: int| 0 <= i < s.len() && #[trigger] s[i] == Attr::Packed
}

/// Whether one of the attributes is `weak`.
pub open spec fn has_weak(s: Seq<Attr>) -> bool {
    exists|i: int| 0 <= i < s.len() && #[trigger] s[i] == Attr::Weak
}

/// The argument of the first `aligned` from the `i`-th attribute on.
pub open spec fn first_aligned(s: Seq<Attr>, i: int) -> Option<u64>
    decreases s.len() - i,
{
    if i < 0 || i >= s.len() {
        None
    } else {
        match s[i] {
            Attr::Aligned(n) => Some(n),
            _ => first_aligned(s, i + 1),
        }
    }
}

/// The argument of the first `visibility` from the `i`-th attribute on.
pub open spec fn first_visibility(s: Seq<Attr>, i: int) -> Option<SymbolVisibility>
    decreases s.len() - i,
{
    if i < 0 || i >= s.len() {
        None
    } else {
        match s[i] {
            Attr::Visibility(v) => Some(v),
            _ => first_visibility(s, i + 1),
        }
    }
}

/// The argument of the first `section` from the `i`-th attribute on.
pub open spec fn first_section(s: Seq<Attr>, i: int) -> Option<Seq<char>>
    decreases s.len() - i,
{
    if i < 0 || i >= s.len() {
        None
    } else {
        match s[i] {
            Attr::Section(v) => Some(v),
            _ => first_section(s, i + 1),
        }
    }
}

/// Whether one of the attributes is `packed`.
pub fn any_packed(v: &Vec<ValidatedAttribute>) -> (r: bool)
    ensures
        r == has_packed(attrs_of(v@)),
{
    let mut i: usize = 0;
    while i < v.len()
        invariant
            i <= v@.len(),
            forall|j: int| 0 <= j < i ==> #[trigger] attrs_of(v@)[j] != Attr::Packed,
        decreases v@.len() - i,
    {
        match &v[i] {
            ValidatedAttribute::Packed => {
                assert(attrs_of(v@)[i as int] == Attr::Packed);
                return true;
            },
            _ => {},
        }
        i += 1;
    }
    false
}

/// Whether one of the attributes is `weak`.
pub fn any_weak(v: &Vec<ValidatedAttribute>) -> (r: bool)
    ensures
        r == has_weak(attrs_of(v@)),
{
    let mut i: usize = 0;
    while i < v.len()
        invariant
            i <= v@.len(),
            forall|j: int| 0 <= j < i ==> #[trigger] attrs_of(v@)[j] != Attr::Weak,
        decreases v@.len() - i,
    {
        match &v[i] {
            ValidatedAttribute::Weak => {
                assert(attrs_of(v@)[i as int] == Attr::Weak);
                return true;
            },
            _ => {},
        }
        i += 1;
    }
    false
}

/// The argument of the first `aligned`.
pub fn find_aligned(v: &Vec<ValidatedAttribute>) -> (r: Option<u64>)
    ensures
        r == first_aligned(attrs_of(v@), 0),
{
    let mut i: usize = 0;
    while i < v.len()
        invariant
            i <= v@.len(),
            first_aligned(attrs_of(v@), i as int) == first_aligned(attrs_of(v@), 0),
        decreases v@.len() - i,
    {
        match &v[i] {
            ValidatedAttribute::Aligned(n) => {
                return Some(*n);
            },
            _ => {},
        }
        i += 1;
    }
    None
}

/// The argument of the first `visibility`.
pub fn find_visibility(v: &Vec<ValidatedAttribute>) -> (r: Option<SymbolVisibility>)
    ensures
        r == first_visibility(attrs_of(v@), 0),
{
    let mut i: usize = 0;
    while i < v.len()
        invariant
            i <= v@.len(),
            first_visibility(attrs_of(v@), i as int) == first_visibility(attrs_of(v@), 0),
        decreases v@.len() - i,
    {
        match &v[i] {
            ValidatedAttribute::Visibility(x) => {
                return Some(*x);
            },
            _ => {},
        }
        i += 1;
    }
    None
}

/// The argument of the first `section`.
pub fn find_section(v: &Vec<ValidatedAttribute>) -> (r: Option<String>)
    ensures
        opt_chars(r) == first_section(attrs_of(v@), 0),
{
    let mut i: usize = 0;
    while i < v.len()
        invariant
            i <= v@.len(),
            first_section(attrs_of(v@), i as int) == first_section(attrs_of(v@), 0),
        decreases v@.len() - i,
    {
        match &v[i] {
            ValidatedAttribute::Section(x) => {
                return Some(own(x.as_str()));
            },
            _ => {},
        }
        i += 1;
    }
    None
}

} // verus!
