//! The table of everything that was declared.

use crate::common::diagnostics::{error_with_note, warning_at};
use crate::common::diagnostics::{Diagnostic, DiagnosticEngine, DiagnosticModel, Severity, Span};
use crate::common::string_interner::{text_of, Interner, Symbol};
use crate::common::text::{concat3, opt_chars, own, own_opt};
use crate::common::types::{ty_of, CType, Ty};
use crate::frontend::sema::attribute_handler::{
    attr_of, attrs_of, copy_attrs, Attr, SymbolVisibility, ValidatedAttribute,
};
use crate::frontend::sema::scope::SymbolId;
use std::collections::HashMap;
use vstd::prelude::*;

verus! {

broadcast use vstd::std_specs::hash::group_hash_axioms;

/// What a symbol stands for.
#[derive(Clone, Copy, Debug, PartialEq, Eq, Structural)]
pub enum SymbolKind {
    Variable,
    Function,
    TypedefName,
    EnumConstant(i128),
}

/// Whether and how a symbol is the same one elsewhere.
#[derive(Clone, Copy, Debug, PartialEq, Eq, Structural)]
pub enum Linkage {
    Unlinked,
    Internal,
    External,
}

/// The storage class that a symbol has.
#[derive(Clone, Copy, Debug, PartialEq, Eq, Structural)]
pub enum StorageClass {
    Auto,
    Register,
    Static,
    Extern,
    Typedef,
    ThreadLocal,
}

/// A declared symbol.
#[derive(Debug)]
pub struct SymbolEntry {
    pub name: Symbol,
    pub ty: CType,
    pub kind: SymbolKind,
    pub linkage: Linkage,
    pub storage_class: StorageClass,
    pub is_defined: bool,
    pub is_tentative: bool,
    pub span: Span,
    pub attributes: Vec<ValidatedAttribute>,
    pub is_weak: bool,
    pub visibility: Option<SymbolVisibility>,
    pub section: Option<String>,
    pub is_used: bool,
    pub scope_depth: u32,
}

/// A declared symbol, as contracts see it.
pub struct SymbolModel {
    pub name: Symbol,
    pub ty: Ty,
    pub kind: SymbolKind,
    pub linkage: Linkage,
    pub storage_class: StorageClass,
    pub is_defined: bool,
    pub is_tentative: bool,
    pub span: Span,
    pub attributes: Seq<Attr>,
    pub is_weak: bool,
    pub visibility: Option<SymbolVisibility>,
    pub section: Option<Seq<char>>,
    pub is_used: bool,
    pub scope_depth: u32,
}

impl View for SymbolEntry {
    type V = SymbolModel;

    open spec fn view(&self) -> SymbolModel {
        SymbolModel {
            name: self.name,
            ty: ty_of(self.ty),
            kind: self.kind,
            linkage: self.linkage,
            storage_class: self.storage_class,
            is_defined: self.is_defined,
            is_tentative: self.is_tentative,
            span: self.span,
            attributes: attrs_of(self.attributes@),
            is_weak: self.is_weak,
            visibility: self.visibility,
            section: opt_chars(self.section),
            is_used: self.is_used,
            scope_depth: self.scope_depth,
        }
    }
}

/// All declared symbols, and which of them each scope can see.
pub struct SymbolsModel {
    pub entries: Seq<SymbolModel>,
    pub visible: Seq<Map<u32, SymbolId>>,
}

/// All declared symbols, and which of them each scope can see.
#[derive(Debug)]
pub struct SymbolTable {
    entries: Vec<SymbolEntry>,
    visible: Vec<HashMap<u32, SymbolId>>,
}

impl View for SymbolTable {
    type V = SymbolsModel;

    closed spec fn view(&self) -> SymbolsModel {
        SymbolsModel {
            entries: Seq::new(self.entries@.len(), |i: int| self.entries@[i]@),
            visible: Seq::new(self.visible@.len(), |i: int| self.visible@[i]@),
        }
    }
}

/// A table with the outermost scope and nothing in it.
pub open spec fn empty_table() -> SymbolsModel {
    SymbolsModel { entries: Seq::empty(), visible: seq![Map::empty()] }
}

/// Whether two symbols are of one kind, whatever their values.
pub open spec fn same_kind(a: SymbolKind, b: SymbolKind) -> bool {
    match (a, b) {
        (SymbolKind::Variable, SymbolKind::Variable) => true,
        (SymbolKind::Function, SymbolKind::Function) => true,
        (SymbolKind::TypedefName, SymbolKind::TypedefName) => true,
        (SymbolKind::EnumConstant(_), SymbolKind::EnumConstant(_)) => true,
        _ => false,
    }
}

/// The symbol that the innermost scope itself knows by a name.
pub open spec fn own_symbol(t: SymbolsModel, name: Symbol) -> Option<SymbolId> {
    if t.visible.len() > 0 && t.visible.last().contains_key(name.0)
        && t.visible.last()[name.0].0 < t.entries.len() {
        Some(t.visible.last()[name.0])
    } else {
        None
    }
}

/// The symbol that the innermost of the first `n` scopes knows by a name.
pub open spec fn find_visible(visible: Seq<Map<u32, SymbolId>>, n: int, name: u32) -> Option<
    SymbolId,
>
    decreases n,
{
    if n <= 0 || n > visible.len() {
        None
    } else if visible[n - 1].contains_key(name) {
        Some(visible[n - 1][name])
    } else {
        find_visible(visible, n - 1, name)
    }
}

/// The symbol with the given identity, if the table has it.
pub open spec fn entry_at(t: SymbolsModel, id: SymbolId) -> Option<SymbolModel> {
    if id.0 < t.entries.len() {
        Some(t.entries[id.0 as int])
    } else {
        None
    }
}

/// The table with another symbol at `id`.
pub open spec fn entry_replaced(t: SymbolsModel, id: SymbolId, e: SymbolModel) -> SymbolsModel {
    if id.0 < t.entries.len() {
        SymbolsModel { entries: t.entries.update(id.0 as int, e), ..t }
    } else {
        t
    }
}

/// What two declarations of one variable or function say together.
pub open spec fn merged(old: SymbolModel, new: SymbolModel) -> SymbolModel {
    SymbolModel {
        name: old.name,
        ty: match new.ty {
            Ty::Array(_, None) => old.ty,
            _ => new.ty,
        },
        kind: old.kind,
        linkage: if old.linkage == Linkage::Internal {
            Linkage::Internal
        } else {
            new.linkage
        },
        storage_class: old.storage_class,
        is_defined: old.is_defined || new.is_defined,
        is_tentative: (old.is_tentative || new.is_tentative) && !(old.is_defined || new.is_defined),
        span: if new.is_defined {
            new.span
        } else {
            old.span
        },
        attributes: old.attributes + new.attributes,
        is_weak: old.is_weak || new.is_weak,
        visibility: if new.visibility is Some {
            new.visibility
        } else {
            old.visibility
        },
        section: if new.section is Some {
            new.section
        } else {
            old.section
        },
        is_used: old.is_used,
        scope_depth: old.scope_depth,
    }
}

/// The nesting depth at which symbols are now declared.
pub open spec fn table_depth(t: SymbolsModel) -> u32 {
    if t.visible.len() == 0 {
        0
    } else {
        (t.visible.len() - 1) as u32
    }
}

/// The table after a symbol was added that nothing else is known of.
pub open spec fn added(t: SymbolsModel, e: SymbolModel) -> SymbolsModel {
    SymbolsModel {
        entries: t.entries.push(SymbolModel { scope_depth: table_depth(t), ..e }),
        visible: if t.visible.len() == 0 {
            t.visible
        } else {
            t.visible.update(
                t.visible.len() - 1,
                t.visible.last().insert(e.name.0, SymbolId(t.entries.len() as usize)),
            )
        },
    }
}

/// What a declaration does to the table and to the log, and the identity of the
/// symbol, or `None` where it contradicts an earlier one of the same scope.
pub open spec fn declared(t: SymbolsModel, log: Seq<DiagnosticModel>, e: SymbolModel) -> (
    SymbolsModel,
    Seq<DiagnosticModel>,
    Option<SymbolId>,
) {
    match own_symbol(t, e.name) {
        None => (added(t, e), log, Some(SymbolId(t.entries.len() as usize))),
        Some(id) => {
            let old = t.entries[id.0 as int];
            if !same_kind(old.kind, e.kind) {
                (
                    t,
                    log.push(
                        error_with_note(
                            e.span,
                            "redeclaration as a different kind of symbol"@,
                            old.span,
                            "previous declaration"@,
                        ),
                    ),
                    None,
                )
            } else if e.kind == SymbolKind::TypedefName {
                (entry_replaced(t, id, SymbolModel { ty: e.ty, ..old }), log, Some(id))
            } else if old.is_defined && e.is_defined {
                (
                    t,
                    log.push(
                        error_with_note(
                            e.span,
                            "redefinition of symbol"@,
                            old.span,
                            "previous definition"@,
                        ),
                    ),
                    None,
                )
            } else {
                (entry_replaced(t, id, merged(old, e)), log, Some(id))
            }
        },
    }
}

/// Whether a declaration cannot stand beside an earlier one of the same scope:
/// they are of different kinds, or both define a name that is no typedef.
pub open spec fn contradicts(old: SymbolModel, new: SymbolModel) -> bool {
    !same_kind(old.kind, new.kind) || (new.kind != SymbolKind::TypedefName && old.is_defined
        && new.is_defined)
}

/// A declaration is refused if it contradicts an earlier one of the same scope,
/// and only then. A refusal costs one error and changes no symbol; otherwise there
/// is no error, and the name means the symbol that was declared.
pub proof fn lemma_declaration_is_seen_or_refused(
    t: SymbolsModel,
    log: Seq<DiagnosticModel>,
    e: SymbolModel,
)
    requires
        t.visible.len() > 0,
    ensures
        declared(t, log, e).2 is None <==> match own_symbol(t, e.name) {
            Some(id) => contradicts(t.entries[id.0 as int], e),
            None => false,
        },
        declared(t, log, e).2 is None ==> {
            &&& declared(t, log, e).0 == t
            &&& declared(t, log, e).1.len() == log.len() + 1
            &&& declared(t, log, e).1.last().severity == Severity::Error
        },
        declared(t, log, e).2 is Some ==> {
            let after = declared(t, log, e).0;
            &&& declared(t, log, e).1 == log
            &&& find_visible(after.visible, after.visible.len() as int, e.name.0)
                == declared(t, log, e).2
        },
{
}

/// A function as its declaration gives it.
pub open spec fn function_symbol(
    name: Symbol,
    ty: Ty,
    storage: StorageClass,
    span: Span,
) -> SymbolModel {
    SymbolModel {
        name,
        ty,
        kind: SymbolKind::Function,
        linkage: if storage == StorageClass::Static {
            Linkage::Internal
        } else {
            Linkage::External
        },
        storage_class: storage,
        is_defined: false,
        is_tentative: false,
        span,
        attributes: Seq::empty(),
        is_weak: false,
        visibility: None,
        section: None,
        is_used: false,
        scope_depth: 0,
    }
}

/// An enumeration constant.
pub open spec fn enum_symbol(name: Symbol, value: i128, ty: Ty, span: Span) -> SymbolModel {
    SymbolModel {
        name,
        ty,
        kind: SymbolKind::EnumConstant(value),
        linkage: Linkage::Unlinked,
        storage_class: StorageClass::Auto,
        is_defined: true,
        is_tentative: false,
        span,
        attributes: Seq::empty(),
        is_weak: false,
        visibility: None,
        section: None,
        is_used: false,
        scope_depth: 0,
    }
}

/// The table after a symbol was marked as defined.
pub open spec fn defined(t: SymbolsModel, id: SymbolId) -> SymbolsModel {
    entry_replaced(
        t,
        id,
        SymbolModel { is_defined: true, is_tentative: false, ..t.entries[id.0 as int] },
    )
}

/// The table after a symbol was given another type.
pub open spec fn retyped(t: SymbolsModel, id: SymbolId, ty: Ty) -> SymbolsModel {
    entry_replaced(t, id, SymbolModel { ty, ..t.entries[id.0 as int] })
}

/// A symbol with one attribute more.
pub open spec fn with_attribute(e: SymbolModel, a: Attr) -> SymbolModel {
    let e1 = SymbolModel { attributes: e.attributes.push(a), ..e };
    match a {
        Attr::Weak => SymbolModel { is_weak: true, ..e1 },
        Attr::Visibility(v) => SymbolModel { visibility: Some(v), ..e1 },
        Attr::Section(s) => SymbolModel { section: Some(s), ..e1 },
        _ => e1,
    }
}

/// The table after a symbol was given an attribute.
pub open spec fn attributed(t: SymbolsModel, id: SymbolId, a: Attr) -> SymbolsModel {
    entry_replaced(t, id, with_attribute(t.entries[id.0 as int], a))
}

/// The table after the visible symbol of a name was used.
pub open spec fn used(t: SymbolsModel, name: Symbol) -> SymbolsModel {
    match find_visible(t.visible, t.visible.len() as int, name.0) {
        Some(id) => entry_replaced(
            t,
            id,
            SymbolModel { is_used: true, ..t.entries[id.0 as int] },
        ),
        None => t,
    }
}

/// The table after a scope was entered.
pub open spec fn scope_entered(t: SymbolsModel) -> SymbolsModel {
    SymbolsModel { visible: t.visible.push(Map::empty()), ..t }
}

/// The table after a scope was left; the outermost is never left.
pub open spec fn table_scope_left(t: SymbolsModel) -> SymbolsModel {
    if t.visible.len() > 1 {
        SymbolsModel { visible: t.visible.drop_last(), ..t }
    } else {
        t
    }
}

/// The linkage of a variable or function that is declared with `storage` at
/// `depth`.
pub open spec fn linkage_of(storage: StorageClass, depth: u32) -> Linkage {
    match storage {
        StorageClass::Static => if depth == 0 {
            Linkage::Internal
        } else {
            Linkage::Unlinked
        },
        StorageClass::Extern => Linkage::External,
        StorageClass::Typedef => Linkage::Unlinked,
        _ => if depth == 0 {
            Linkage::External
        } else {
            Linkage::Unlinked
        },
    }
}

/// A symbol whose tentative definition became its definition.
pub open spec fn settled(e: SymbolModel) -> SymbolModel {
    if e.is_tentative {
        SymbolModel { is_defined: true, is_tentative: false, ..e }
    } else {
        e
    }
}

/// The table after every tentative definition became a definition.
pub open spec fn tentative_settled(t: SymbolsModel) -> SymbolsModel {
    SymbolsModel { entries: Seq::new(t.entries.len(), |i: int| settled(t.entries[i])), ..t }
}

/// Whether a symbol is worth a warning if nothing uses it: it is defined, can be
/// seen in this file alone, and no attribute says that this is meant.
pub open spec fn is_idle(e: SymbolModel) -> bool {
    &&& e.linkage == Linkage::Internal
    &&& e.is_defined
    &&& !e.is_used
    &&& forall|i: int|
        0 <= i < e.attributes.len() ==> #[trigger] e.attributes[i] != Attr::Used && e.attributes[i]
            != Attr::Unused
}

/// The log after each symbol from the `i`-th on was checked for use.
pub open spec fn usage_checked(
    log: Seq<DiagnosticModel>,
    entries: Seq<SymbolModel>,
    names: Seq<Seq<char>>,
    i: int,
) -> Seq<DiagnosticModel>
    decreases entries.len() - i,
{
    if i < 0 || i >= entries.len() {
        log
    } else {
        let e = entries[i];
        let next = if is_idle(e) {
            log.push(warning_at(e.span, "'"@ + text_of(names, e.name) + "' defined but not used"@))
        } else {
            log
        };
        usage_checked(next, entries, names, i + 1)
    }
}

fn kinds_agree(a: SymbolKind, b: SymbolKind) -> (r: bool)
    ensures
        r == same_kind(a, b),
{
    match (a, b) {
        (SymbolKind::Variable, SymbolKind::Variable) => true,
        (SymbolKind::Function, SymbolKind::Function) => true,
        (SymbolKind::TypedefName, SymbolKind::TypedefName) => true,
        (SymbolKind::EnumConstant(_), SymbolKind::EnumConstant(_)) => true,
        _ => false,
    }
}

fn is_open_array(t: &CType) -> (r: bool)
    ensures
        r == (match t@ {
            Ty::Array(_, None) => true,
            _ => false,
        }),
{
    match t {
        CType::Array(_, None) => true,
        _ => false,
    }
}

fn merge(old: &SymbolEntry, new: SymbolEntry) -> (r: SymbolEntry)
    ensures
        r@ == merged(old@, new@),
{
    let mut attributes: Vec<ValidatedAttribute> = copy_attrs(&old.attributes);
    let mut i: usize = 0;
    let ghost before = attrs_of(old.attributes@);
    while i < new.attributes.len()
        invariant
            i <= new.attributes@.len(),
            attrs_of(attributes@) == before + attrs_of(new.attributes@).take(i as int),
        decreases new.attributes@.len() - i,
    {
        let ghost was = attributes@;
        attributes.push(new.attributes[i].clone());
        assert(attrs_of(attributes@) =~= attrs_of(was).push(
            attr_of(new.attributes@[i as int]),
        ));
        assert(attrs_of(new.attributes@).take(i + 1) =~= attrs_of(new.attributes@).take(
            i as int,
        ).push(attr_of(new.attributes@[i as int])));
        i += 1;
    }
    assert(attrs_of(new.attributes@).take(i as int) =~= attrs_of(new.attributes@));
    SymbolEntry {
        name: old.name,
        ty: if is_open_array(&new.ty) {
            old.ty.clone()
        } else {
            new.ty
        },
        kind: old.kind,
        linkage: if old.linkage == Linkage::Internal {
            Linkage::Internal
        } else {
            new.linkage
        },
        storage_class: old.storage_class,
        is_defined: old.is_defined || new.is_defined,
        is_tentative: (old.is_tentative || new.is_tentative) && !(old.is_defined || new.is_defined),
        span: if new.is_defined {
            new.span
        } else {
            old.span
        },
        attributes,
        is_weak: old.is_weak || new.is_weak,
        visibility: if new.visibility.is_some() {
            new.visibility
        } else {
            old.visibility
        },
        section: if new.section.is_some() {
            own_opt(&new.section)
        } else {
            own_opt(&old.section)
        },
        is_used: old.is_used,
        scope_depth: old.scope_depth,
    }
}

fn wants_no_warning(attrs: &Vec<ValidatedAttribute>) -> (r: bool)
    ensures
        r == !(forall|i: int|
            0 <= i < attrs_of(attrs@).len() ==> #[trigger] attrs_of(attrs@)[i] != Attr::Used
                && attrs_of(attrs@)[i] != Attr::Unused),
{
    let mut i: usize = 0;
    while i < attrs.len()
        invariant
            i <= attrs@.len(),
            forall|j: int|
                0 <= j < i ==> #[trigger] attrs_of(attrs@)[j] != Attr::Used && attrs_of(attrs@)[j]
                    != Attr::Unused,
        decreases attrs@.len() - i,
    {
        assert(attrs_of(attrs@)[i as int] == attr_of(attrs@[i as int]));
        match &attrs[i] {
            ValidatedAttribute::Used => {
                return true;
            },
            ValidatedAttribute::Unused => {
                return true;
            },
            _ => {},
        }
        i += 1;
    }
    false
}

impl SymbolTable {
    /// A table with the outermost scope and nothing in it.
    pub fn new() -> (r: SymbolTable)
        ensures
            r@ == empty_table(),
    {
        let mut visible: Vec<HashMap<u32, SymbolId>> = Vec::new();
        visible.push(HashMap::new());
        let r = SymbolTable { entries: Vec::new(), visible };
        assert(r@.entries =~= Seq::<SymbolModel>::empty());
        assert(r@.visible =~= seq![Map::<u32, SymbolId>::empty()]);
        r
    }

    /// How many symbols there are.
    pub fn len(&self) -> (r: usize)
        ensures
            r == self@.entries.len(),
    {
        self.entries.len()
    }

    /// The symbol with the given identity.
    pub fn get(&self, id: SymbolId) -> (r: Option<&SymbolEntry>)
        ensures
            match r {
                Some(e) => entry_at(self@, id) == Some(e@),
                None => entry_at(self@, id) is None,
            },
    {
        if id.0 < self.entries.len() {
            Some(&self.entries[id.0])
        } else {
            None
        }
    }

    fn depth(&self) -> (r: u32)
        ensures
            r == table_depth(self@),
    {
        let n: usize = self.visible.len();
        if n == 0 {
            0
        } else {
            (n - 1) as u32
        }
    }

    /// Adds a symbol that nothing else is known of.
    fn push_entry(&mut self, entry: SymbolEntry) -> (r: SymbolId)
        ensures
            final(self)@ == added(old(self)@, entry@),
            r == SymbolId(old(self)@.entries.len() as usize),
    {
        let id = SymbolId(self.entries.len());
        let name: Symbol = entry.name;
        let mut entry = entry;
        let ghost e = entry@;
        entry.scope_depth = self.depth();
        self.entries.push(entry);
        let n: usize = self.visible.len();
        if n > 0 {
            self.visible[n - 1].insert(name.0, id);
        }
        assert(self@.entries =~= added(old(self)@, e).entries);
        assert(self@.visible =~= added(old(self)@, e).visible);
        id
    }

    fn own(&self, name: Symbol) -> (r: Option<SymbolId>)
        ensures
            r == own_symbol(self@, name),
    {
        let n: usize = self.visible.len();
        if n == 0 {
            return None;
        }
        assert(self@.visible.last() == self.visible@[n - 1]@);
        match self.visible[n - 1].get(&name.0) {
            Some(id) => if id.0 < self.entries.len() {
                Some(*id)
            } else {
                None
            },
            None => None,
        }
    }

    /// Records a declaration, together with what an earlier one in the same
    /// scope said.
    pub fn declare(&mut self, entry: SymbolEntry, diagnostics: &mut DiagnosticEngine) -> (r: Result<
        SymbolId,
        (),
    >)
        ensures
            ({
                let d = declared(old(self)@, old(diagnostics)@, entry@);
                &&& final(self)@ == d.0
                &&& final(diagnostics)@ == d.1
                &&& (match r {
                    Ok(id) => d.2 == Some(id),
                    Err(_) => d.2 is None,
                })
            }),
    {
        match self.own(entry.name) {
            None => Ok(self.push_entry(entry)),
            Some(id) => {
                let i: usize = id.0;
                let ghost e = entry@;
                assert(self@.entries[i as int] == self.entries@[i as int]@);
                let old_span: Span = self.entries[i].span;
                if !kinds_agree(self.entries[i].kind, entry.kind) {
                    diagnostics.emit(
                        Diagnostic::error(
                            entry.span,
                            "redeclaration as a different kind of symbol",
                        ).with_note(old_span, "previous declaration"),
                    );
                    Err(())
                } else if entry.kind == SymbolKind::TypedefName {
                    self.entries[i].ty = entry.ty;
                    assert(self@.entries =~= declared(old(self)@, old(diagnostics)@, e).0.entries);
                    Ok(id)
                } else if self.entries[i].is_defined && entry.is_defined {
                    diagnostics.emit(
                        Diagnostic::error(entry.span, "redefinition of symbol").with_note(
                            old_span,
                            "previous definition",
                        ),
                    );
                    Err(())
                } else {
                    let m: SymbolEntry = merge(&self.entries[i], entry);
                    self.entries.set(i, m);
                    assert(self@.entries =~= declared(old(self)@, old(diagnostics)@, e).0.entries);
                    Ok(id)
                }
            },
        }
    }

    /// Records the declaration of a function.
    pub fn declare_function(
        &mut self,
        name: Symbol,
        ty: CType,
        storage: StorageClass,
        span: Span,
        diagnostics: &mut DiagnosticEngine,
    ) -> (r: Result<SymbolId, ()>)
        ensures
            ({
                let d = declared(
                    old(self)@,
                    old(diagnostics)@,
                    function_symbol(name, ty@, storage, span),
                );
                &&& final(self)@ == d.0
                &&& final(diagnostics)@ == d.1
                &&& (match r {
                    Ok(id) => d.2 == Some(id),
                    Err(_) => d.2 is None,
                })
            }),
    {
        let entry = SymbolEntry {
            name,
            ty,
            kind: SymbolKind::Function,
            linkage: if storage == StorageClass::Static {
                Linkage::Internal
            } else {
                Linkage::External
            },
            storage_class: storage,
            is_defined: false,
            is_tentative: false,
            span,
            attributes: Vec::new(),
            is_weak: false,
            visibility: None,
            section: None,
            is_used: false,
            scope_depth: 0,
        };
        assert(entry@.attributes =~= Seq::<Attr>::empty());
        self.declare(entry, diagnostics)
    }

    /// Records an enumeration constant.
    pub fn declare_enum_constant(&mut self, name: Symbol, value: i128, ty: CType, span: Span) -> (r:
        SymbolId)
        ensures
            final(self)@ == added(old(self)@, enum_symbol(name, value, ty@, span)),
            r == SymbolId(old(self)@.entries.len() as usize),
    {
        let entry = SymbolEntry {
            name,
            ty,
            kind: SymbolKind::EnumConstant(value),
            linkage: Linkage::Unlinked,
            storage_class: StorageClass::Auto,
            is_defined: true,
            is_tentative: false,
            span,
            attributes: Vec::new(),
            is_weak: false,
            visibility: None,
            section: None,
            is_used: false,
            scope_depth: 0,
        };
        assert(entry@.attributes =~= Seq::<Attr>::empty());
        self.push_entry(entry)
    }

    /// Marks a symbol as defined.
    pub fn define(&mut self, id: SymbolId)
        ensures
            final(self)@ == defined(old(self)@, id),
    {
        if id.0 < self.entries.len() {
            self.entries[id.0].is_defined = true;
            self.entries[id.0].is_tentative = false;
        }
        assert(self@.entries =~= defined(old(self)@, id).entries);
    }

    /// Gives a symbol another type.
    pub fn set_type(&mut self, id: SymbolId, ty: CType)
        ensures
            final(self)@ == retyped(old(self)@, id, ty@),
    {
        if id.0 < self.entries.len() {
            self.entries[id.0].ty = ty;
        }
        assert(self@.entries =~= retyped(old(self)@, id, ty@).entries);
    }

    /// Gives a symbol an attribute.
    pub fn add_attribute(&mut self, id: SymbolId, attr: &ValidatedAttribute)
        ensures
            final(self)@ == attributed(old(self)@, id, attr_of(*attr)),
    {
        if id.0 < self.entries.len() {
            let i: usize = id.0;
            self.entries[i].attributes.push(attr.clone());
            match attr {
                ValidatedAttribute::Weak => {
                    self.entries[i].is_weak = true;
                },
                ValidatedAttribute::Visibility(v) => {
                    self.entries[i].visibility = Some(*v);
                },
                ValidatedAttribute::Section(s) => {
                    self.entries[i].section = Some(own(s.as_str()));
                },
                _ => {},
            }
            let ghost before = old(self).entries@[i as int]@.attributes;
            assert(self.entries@[i as int]@.attributes =~= before.push(attr_of(*attr)));
        }
        assert(self@.entries =~= attributed(old(self)@, id, attr_of(*attr)).entries);
    }

    /// Notes that the visible symbol of a name is used.
    pub fn mark_used(&mut self, name: Symbol)
        ensures
            final(self)@ == used(old(self)@, name),
    {
        let mut n: usize = self.visible.len();
        let mut found: Option<SymbolId> = None;
        while n > 0 && found.is_none()
            invariant
                n <= self@.visible.len(),
                self@.visible.len() == self.visible@.len(),
                match found {
                    Some(id) => find_visible(self@.visible, self@.visible.len() as int, name.0)
                        == Some(id),
                    None => find_visible(self@.visible, n as int, name.0) == find_visible(
                        self@.visible,
                        self@.visible.len() as int,
                        name.0,
                    ),
                },
            decreases n,
        {
            assert(self@.visible[n - 1] == self.visible@[n - 1]@);
            match self.visible[n - 1].get(&name.0) {
                Some(id) => {
                    found = Some(*id);
                },
                None => {},
            }
            n -= 1;
        }
        match found {
            Some(id) => {
                if id.0 < self.entries.len() {
                    self.entries[id.0].is_used = true;
                }
            },
            None => {},
        }
        assert(self@.entries =~= used(old(self)@, name).entries);
    }

    /// Enters a scope.
    pub fn enter_scope(&mut self)
        ensures
            final(self)@ == scope_entered(old(self)@),
    {
        self.visible.push(HashMap::new());
        assert(self@.visible =~= scope_entered(old(self)@).visible);
    }

    /// Leaves the innermost scope; the outermost is never left.
    pub fn leave_scope(&mut self)
        ensures
            final(self)@ == table_scope_left(old(self)@),
    {
        if self.visible.len() > 1 {
            let _ = self.visible.pop();
        }
        assert(self@.visible =~= table_scope_left(old(self)@).visible);
    }

    /// The linkage of a variable or function that is declared with `storage` at
    /// `depth`.
    pub fn resolve_linkage(&self, storage: StorageClass, depth: u32) -> (r: Linkage)
        ensures
            r == linkage_of(storage, depth),
    {
        match storage {
            StorageClass::Static => if depth == 0 {
                Linkage::Internal
            } else {
                Linkage::Unlinked
            },
            StorageClass::Extern => Linkage::External,
            StorageClass::Typedef => Linkage::Unlinked,
            _ => if depth == 0 {
                Linkage::External
            } else {
                Linkage::Unlinked
            },
        }
    }

    /// Turns every tentative definition into a definition.
    pub fn finalize_tentative_definitions(&mut self)
        ensures
            final(self)@ == tentative_settled(old(self)@),
    {
        let mut i: usize = 0;
        let ghost before = self@;
        while i < self.entries.len()
            invariant
                i <= self.entries@.len(),
                self@.visible == before.visible,
                self@.entries.len() == before.entries.len(),
                self.entries@.len() == before.entries.len(),
                forall|j: int|
                    0 <= j < i ==> #[trigger] self@.entries[j] == settled(before.entries[j]),
                forall|j: int|
                    i <= j < before.entries.len() ==> #[trigger] self@.entries[j]
                        == before.entries[j],
            decreases self.entries@.len() - i,
        {
            let ghost now = self@;
            assert(now.entries[i as int] == self.entries@[i as int]@);
            if self.entries[i].is_tentative {
                self.entries[i].is_defined = true;
                self.entries[i].is_tentative = false;
            }
            assert(self@.entries =~= now.entries.update(i as int, settled(now.entries[i as int])));
            i += 1;
        }
        assert(self@.entries =~= tentative_settled(before).entries);
    }

    /// Warns of each symbol that could be used in this file alone and is not.
    pub fn check_unused_symbols(&self, diagnostics: &mut DiagnosticEngine, interner: &Interner)
        ensures
            final(diagnostics)@ == usage_checked(
                old(diagnostics)@,
                self@.entries,
                interner@,
                0,
            ),
    {
        let mut i: usize = 0;
        let ghost log = diagnostics@;
        while i < self.entries.len()
            invariant
                i <= self.entries@.len(),
                self.entries@.len() == self@.entries.len(),
                usage_checked(diagnostics@, self@.entries, interner@, i as int) == usage_checked(
                    log,
                    self@.entries,
                    interner@,
                    0,
                ),
            decreases self.entries@.len() - i,
        {
            let e: &SymbolEntry = &self.entries[i];
            assert(self@.entries[i as int] == e@);
            if e.linkage == Linkage::Internal && e.is_defined && !e.is_used && !wants_no_warning(
                &e.attributes,
            ) {
                assert(is_idle(e@));
                let message: String = concat3(
                    "'",
                    interner.resolve(e.name),
                    "' defined but not used",
                );
                diagnostics.emit_warning(e.span, message.as_str());
            }
            i += 1;
        }
    }
}

} // verus!
