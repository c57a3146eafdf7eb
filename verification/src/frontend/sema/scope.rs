//! Lexical scopes: ordinary identifiers, tags, labels and typedef names.

use crate::common::diagnostics::{error_at, error_with_note};
use crate::common::diagnostics::{Diagnostic, DiagnosticEngine, DiagnosticModel, Span};
use crate::common::string_interner::{symbol_of, Interner, Symbol};
use crate::common::types::{ty_of, CType, Ty};
use std::collections::{HashMap, HashSet};
use vstd::prelude::*;

verus! {

broadcast use vstd::std_specs::hash::group_hash_axioms;

/// The place of a symbol in the symbol table.
#[derive(Clone, Copy, Debug, PartialEq, Eq, Structural)]
pub struct SymbolId(pub usize);

/// What kind of region a scope is.
#[derive(Clone, Copy, Debug, PartialEq, Eq, Structural)]
pub enum ScopeKind {
    Global,
    Function,
    Block,
}

/// What a tag names.
#[derive(Clone, Copy, Debug, PartialEq, Eq, Structural)]
pub enum TagKind {
    Struct,
    Union,
    Enum,
}

/// A tag with the type that it names.
#[derive(Debug)]
pub struct TagEntry {
    pub kind: TagKind,
    pub ty: CType,
    pub is_complete: bool,
    pub span: Span,
}

/// A tag, as contracts see it.
pub struct TagModel {
    pub kind: TagKind,
    pub ty: Ty,
    pub is_complete: bool,
    pub span: Span,
}

/// The model of a tag.
pub open spec fn tag_of(e: TagEntry) -> TagModel {
    TagModel { kind: e.kind, ty: ty_of(e.ty), is_complete: e.is_complete, span: e.span }
}

/// A label of a function, or a local label of a block.
#[derive(Clone, Copy, Debug, PartialEq, Eq, Structural)]
pub struct LabelEntry {
    pub name: Symbol,
    pub is_defined: bool,
    pub is_referenced: bool,
    pub is_local: bool,
    pub span: Span,
}

/// One scope.
#[derive(Debug)]
pub struct Scope {
    pub kind: ScopeKind,
    pub ordinary: HashMap<u32, SymbolId>,
    pub tags: HashMap<u32, TagEntry>,
    pub labels: Vec<LabelEntry>,
    pub typedefs: HashSet<u32>,
}

/// One scope, as contracts see it.
pub struct ScopeModel {
    pub kind: ScopeKind,
    pub ordinary: Map<u32, SymbolId>,
    pub tags: Map<u32, TagModel>,
    pub labels: Seq<LabelEntry>,
    pub typedefs: Set<u32>,
}

/// The models of the tags of a scope.
pub open spec fn tags_model(m: Map<u32, TagEntry>) -> Map<u32, TagModel> {
    m.map_values(|e: TagEntry| tag_of(e))
}

impl View for Scope {
    type V = ScopeModel;

    open spec fn view(&self) -> ScopeModel {
        ScopeModel {
            kind: self.kind,
            ordinary: self.ordinary@,
            tags: tags_model(self.tags@),
            labels: self.labels@,
            typedefs: self.typedefs@,
        }
    }
}

/// A scope in which nothing is declared.
pub open spec fn empty_scope(kind: ScopeKind) -> ScopeModel {
    ScopeModel {
        kind,
        ordinary: Map::empty(),
        tags: Map::empty(),
        labels: Seq::empty(),
        typedefs: Set::empty(),
    }
}

/// What the innermost of the first `n` scopes that knows the ordinary
/// identifier says of it.
pub open spec fn find_ordinary(scopes: Seq<ScopeModel>, n: int, name: u32) -> Option<SymbolId>
    decreases n,
{
    if n <= 0 || n > scopes.len() {
        None
    } else if scopes[n - 1].ordinary.contains_key(name) {
        Some(scopes[n - 1].ordinary[name])
    } else {
        find_ordinary(scopes, n - 1, name)
    }
}

/// The innermost of the first `n` scopes that knows the tag.
pub open spec fn tag_scope(scopes: Seq<ScopeModel>, n: int, name: u32) -> Option<int>
    decreases n,
{
    if n <= 0 || n > scopes.len() {
        None
    } else if scopes[n - 1].tags.contains_key(name) {
        Some(n - 1)
    } else {
        tag_scope(scopes, n - 1, name)
    }
}

/// What an ordinary identifier means in the innermost scope.
pub open spec fn ordinary_in(scopes: Seq<ScopeModel>, name: Symbol) -> Option<SymbolId> {
    find_ordinary(scopes, scopes.len() as int, name.0)
}

/// What a tag means in the innermost scope.
pub open spec fn tag_in(scopes: Seq<ScopeModel>, name: Symbol) -> Option<TagModel> {
    match tag_scope(scopes, scopes.len() as int, name.0) {
        Some(i) => Some(scopes[i].tags[name.0]),
        None => None,
    }
}

/// What a tag given by its text means in the innermost scope.
pub open spec fn tag_by_text(
    scopes: Seq<ScopeModel>,
    names: Seq<Seq<char>>,
    text: Seq<char>,
) -> Option<TagModel> {
    match symbol_of(names, text) {
        Some(sym) => tag_in(scopes, sym),
        None => None,
    }
}

/// The innermost scope with `s` in its place.
pub open spec fn with_top(scopes: Seq<ScopeModel>, s: ScopeModel) -> Seq<ScopeModel> {
    if scopes.len() == 0 {
        scopes
    } else {
        scopes.update(scopes.len() - 1, s)
    }
}

/// The `i`-th scope with `s` in its place.
pub open spec fn with_scope(scopes: Seq<ScopeModel>, i: int, s: ScopeModel) -> Seq<ScopeModel> {
    if 0 <= i < scopes.len() {
        scopes.update(i, s)
    } else {
        scopes
    }
}

/// How many scopes lie round the innermost.
pub open spec fn depth_of(scopes: Seq<ScopeModel>) -> u32 {
    if scopes.len() == 0 {
        0
    } else {
        (scopes.len() - 1) as u32
    }
}

/// Whether the innermost scope is the global one.
pub open spec fn at_file_scope(scopes: Seq<ScopeModel>) -> bool {
    scopes.len() > 0 && scopes.last().kind == ScopeKind::Global
}

/// The scopes after an ordinary identifier was declared in the innermost.
pub open spec fn ordinary_declared(
    scopes: Seq<ScopeModel>,
    name: Symbol,
    id: SymbolId,
) -> Seq<ScopeModel> {
    let top = scopes.last();
    with_top(scopes, ScopeModel { ordinary: top.ordinary.insert(name.0, id), ..top })
}

/// The scopes after a tag was declared in the innermost.
pub open spec fn tag_declared(
    scopes: Seq<ScopeModel>,
    name: Symbol,
    tag: TagModel,
) -> Seq<ScopeModel> {
    let top = scopes.last();
    with_top(scopes, ScopeModel { tags: top.tags.insert(name.0, tag), ..top })
}

/// The scopes after the visible tag was given its complete type.
pub open spec fn tag_completed(scopes: Seq<ScopeModel>, name: Symbol, ty: Ty) -> Seq<ScopeModel> {
    match tag_scope(scopes, scopes.len() as int, name.0) {
        Some(i) => {
            let tag = TagModel { ty, is_complete: true, ..scopes[i].tags[name.0] };
            scopes.update(i, ScopeModel { tags: scopes[i].tags.insert(name.0, tag), ..scopes[i] })
        },
        None => scopes,
    }
}

/// The scopes after a name was marked as a typedef name in the innermost.
pub open spec fn typedef_registered(scopes: Seq<ScopeModel>, name: Symbol) -> Seq<ScopeModel> {
    let top = scopes.last();
    with_top(scopes, ScopeModel { typedefs: top.typedefs.insert(name.0), ..top })
}

/// The scopes after the innermost was left; the outermost is never left.
pub open spec fn scope_left(scopes: Seq<ScopeModel>) -> Seq<ScopeModel> {
    if scopes.len() > 1 {
        scopes.drop_last()
    } else {
        scopes
    }
}

/// The scopes after an innermost one was entered.
pub open spec fn scope_pushed(scopes: Seq<ScopeModel>, kind: ScopeKind) -> Seq<ScopeModel> {
    scopes.push(empty_scope(kind))
}

/// An ordinary identifier means what it was declared as last in the innermost
/// scope, and to declare one changes the meaning of no other.
pub proof fn lemma_declared_is_found(
    scopes: Seq<ScopeModel>,
    name: Symbol,
    id: SymbolId,
    other: Symbol,
)
    requires
        scopes.len() > 0,
    ensures
        ordinary_in(ordinary_declared(scopes, name, id), name) == Some(id),
        other != name ==> ordinary_in(ordinary_declared(scopes, name, id), other) == ordinary_in(
            scopes,
            other,
        ),
{
    let after = ordinary_declared(scopes, name, id);
    let n = scopes.len() - 1;
    if other != name {
        lemma_lower_scopes(scopes, after, n as int, other.0);
    }
}

proof fn lemma_lower_scopes(a: Seq<ScopeModel>, b: Seq<ScopeModel>, n: int, name: u32)
    requires
        0 <= n <= a.len(),
        n <= b.len(),
        forall|i: int| 0 <= i < n ==> a[i] == #[trigger] b[i],
    ensures
        find_ordinary(a, n, name) == find_ordinary(b, n, name),
    decreases n,
{
    if n > 0 {
        lemma_lower_scopes(a, b, n - 1, name);
    }
}

/// What is declared in an inner scope is forgotten when that scope is left: the
/// outer scopes are as they were.
pub proof fn lemma_inner_declarations_are_forgotten(
    scopes: Seq<ScopeModel>,
    kind: ScopeKind,
    name: Symbol,
    id: SymbolId,
)
    requires
        scopes.len() > 0,
    ensures
        scope_left(scope_pushed(scopes, kind)) == scopes,
        scope_left(ordinary_declared(scope_pushed(scopes, kind), name, id)) == scopes,
{
    assert(scope_pushed(scopes, kind).drop_last() =~= scopes);
    assert(ordinary_declared(scope_pushed(scopes, kind), name, id).drop_last() =~= scopes);
}

/// An inner scope sees what the outer ones declare.
pub proof fn lemma_inner_scope_sees_outer(scopes: Seq<ScopeModel>, kind: ScopeKind, name: Symbol)
    ensures
        ordinary_in(scope_pushed(scopes, kind), name) == ordinary_in(scopes, name),
{
    let inner = scope_pushed(scopes, kind);
    lemma_lower_scopes(scopes, inner, scopes.len() as int, name.0);
}

/// The place of a label among `labels[0..n]`.
pub open spec fn label_index(labels: Seq<LabelEntry>, n: int, name: Symbol) -> Option<int>
    decreases n,
{
    if n <= 0 || n > labels.len() {
        None
    } else if labels[n - 1].name == name {
        Some(n - 1)
    } else {
        label_index(labels, n - 1, name)
    }
}

/// The scope that a mention of a label belongs to, among the first `n`: the
/// innermost that knows it, but no scope outside the function; failing that the
/// function's scope, or the outermost where there is no function.
pub open spec fn label_home(scopes: Seq<ScopeModel>, n: int, name: Symbol) -> int
    decreases n,
{
    if n <= 1 || n > scopes.len() {
        0
    } else if label_index(scopes[n - 1].labels, scopes[n - 1].labels.len() as int, name) is Some {
        n - 1
    } else if scopes[n - 1].kind == ScopeKind::Function {
        n - 1
    } else {
        label_home(scopes, n - 1, name)
    }
}

/// The labels after `entry` took the place of the one of its name, or was added.
pub open spec fn label_put(labels: Seq<LabelEntry>, entry: LabelEntry) -> Seq<LabelEntry> {
    match label_index(labels, labels.len() as int, entry.name) {
        Some(i) => labels.update(i, entry),
        None => labels.push(entry),
    }
}

/// A label that has not been mentioned yet.
pub open spec fn fresh_label(name: Symbol, span: Span) -> LabelEntry {
    LabelEntry { name, is_defined: false, is_referenced: false, is_local: false, span }
}

/// What is known of a label in `labels`, or a fresh one.
pub open spec fn label_or_fresh(labels: Seq<LabelEntry>, name: Symbol, span: Span) -> LabelEntry {
    match label_index(labels, labels.len() as int, name) {
        Some(i) => labels[i],
        None => fresh_label(name, span),
    }
}

/// The scopes after a label was jumped to or its address taken.
pub open spec fn label_referenced(
    scopes: Seq<ScopeModel>,
    name: Symbol,
    span: Span,
) -> Seq<ScopeModel> {
    let h = label_home(scopes, scopes.len() as int, name);
    let entry = label_or_fresh(scopes[h].labels, name, span);
    with_scope(
        scopes,
        h,
        ScopeModel {
            labels: label_put(
                scopes[h].labels,
                LabelEntry { is_referenced: true, ..entry },
            ),
            ..scopes[h]
        },
    )
}

/// The scopes after a label was defined.
pub open spec fn label_defined(
    scopes: Seq<ScopeModel>,
    name: Symbol,
    span: Span,
) -> Seq<ScopeModel> {
    let h = label_home(scopes, scopes.len() as int, name);
    let entry = label_or_fresh(scopes[h].labels, name, span);
    with_scope(
        scopes,
        h,
        ScopeModel {
            labels: label_put(scopes[h].labels, LabelEntry { is_defined: true, span, ..entry }),
            ..scopes[h]
        },
    )
}

/// What the definition of a label adds to the log.
pub open spec fn label_definition_log(
    log: Seq<DiagnosticModel>,
    scopes: Seq<ScopeModel>,
    name: Symbol,
    span: Span,
) -> Seq<DiagnosticModel> {
    let h = label_home(scopes, scopes.len() as int, name);
    let entry = label_or_fresh(scopes[h].labels, name, span);
    if scopes.len() > 0 && entry.is_defined {
        log.push(error_with_note(span, "duplicate label"@, entry.span, "previous definition"@))
    } else {
        log
    }
}

/// The scopes after `__label__` declared a label in the innermost.
pub open spec fn local_label_declared(
    scopes: Seq<ScopeModel>,
    name: Symbol,
    span: Span,
    is_local: bool,
) -> Seq<ScopeModel> {
    let top = scopes.last();
    if label_index(top.labels, top.labels.len() as int, name) is Some {
        scopes
    } else {
        with_top(
            scopes,
            ScopeModel {
                labels: top.labels.push(LabelEntry { is_local, ..fresh_label(name, span) }),
                ..top
            },
        )
    }
}

/// What `__label__` adds to the log.
pub open spec fn local_label_log(
    log: Seq<DiagnosticModel>,
    scopes: Seq<ScopeModel>,
    name: Symbol,
    span: Span,
) -> Seq<DiagnosticModel> {
    let top = scopes.last();
    match label_index(top.labels, top.labels.len() as int, name) {
        Some(i) if scopes.len() > 0 => log.push(
            error_with_note(
                span,
                "duplicate label declaration"@,
                top.labels[i].span,
                "previous declaration"@,
            ),
        ),
        _ => log,
    }
}

/// The log after each label from the `i`-th on was checked: one that is used
/// must be defined.
pub open spec fn labels_checked(
    log: Seq<DiagnosticModel>,
    labels: Seq<LabelEntry>,
    i: int,
) -> Seq<DiagnosticModel>
    decreases labels.len() - i,
{
    if i < 0 || i >= labels.len() {
        log
    } else {
        let next = if labels[i].is_referenced && !labels[i].is_defined {
            log.push(error_at(labels[i].span, "use of undefined label"@))
        } else {
            log
        };
        labels_checked(next, labels, i + 1)
    }
}

/// A stack of scopes, the outermost at the bottom.
#[derive(Debug)]
pub struct ScopeStack {
    scopes: Vec<Scope>,
}

impl View for ScopeStack {
    type V = Seq<ScopeModel>;

    closed spec fn view(&self) -> Seq<ScopeModel> {
        Seq::new(self.scopes@.len(), |i: int| self.scopes@[i]@)
    }
}

fn new_scope(kind: ScopeKind) -> (r: Scope)
    ensures
        r@ == empty_scope(kind),
{
    let r = Scope {
        kind,
        ordinary: HashMap::new(),
        tags: HashMap::new(),
        labels: Vec::new(),
        typedefs: HashSet::new(),
    };
    assert(tags_model(r.tags@) =~= Map::<u32, TagModel>::empty());
    r
}

fn find_label(labels: &Vec<LabelEntry>, name: Symbol) -> (r: Option<usize>)
    ensures
        match r {
            Some(i) => i < labels@.len() && label_index(labels@, labels@.len() as int, name)
                == Some(i as int),
            None => label_index(labels@, labels@.len() as int, name) is None,
        },
{
    let mut n: usize = labels.len();
    while n > 0
        invariant
            n <= labels@.len(),
            label_index(labels@, n as int, name) == label_index(
                labels@,
                labels@.len() as int,
                name,
            ),
        decreases n,
    {
        if labels[n - 1].name == name {
            return Some(n - 1);
        }
        n -= 1;
    }
    None
}

/// The labels that a check at the end of a function looks at.
pub open spec fn innermost_labels(scopes: Seq<ScopeModel>) -> Seq<LabelEntry> {
    if scopes.len() == 0 {
        Seq::empty()
    } else {
        scopes.last().labels
    }
}

impl ScopeStack {
    /// A stack that holds the global scope alone.
    pub fn new() -> (r: ScopeStack)
        ensures
            r@ == seq![empty_scope(ScopeKind::Global)],
    {
        let mut scopes: Vec<Scope> = Vec::new();
        scopes.push(new_scope(ScopeKind::Global));
        let r = ScopeStack { scopes };
        assert(r@ =~= seq![empty_scope(ScopeKind::Global)]);
        r
    }

    /// How many scopes lie round the innermost.
    pub fn current_depth(&self) -> (r: u32)
        ensures
            r == depth_of(self@),
    {
        let n: usize = self.scopes.len();
        if n == 0 {
            0
        } else {
            (n - 1) as u32
        }
    }

    /// The nesting depth: 0 at file scope.
    pub fn depth(&self) -> (r: u32)
        ensures
            r == depth_of(self@),
    {
        self.current_depth()
    }

    /// Whether the innermost scope is the global one.
    pub fn is_file_scope(&self) -> (r: bool)
        ensures
            r == at_file_scope(self@),
    {
        let n: usize = self.scopes.len();
        n > 0 && self.scopes[n - 1].kind == ScopeKind::Global
    }

    /// Enters a scope.
    pub fn push_scope(&mut self, kind: ScopeKind)
        ensures
            final(self)@ == scope_pushed(old(self)@, kind),
    {
        self.scopes.push(new_scope(kind));
        assert(self@ =~= scope_pushed(old(self)@, kind));
    }

    /// Leaves the innermost scope; the outermost is never left.
    pub fn pop_scope(&mut self)
        ensures
            final(self)@ == scope_left(old(self)@),
    {
        if self.scopes.len() > 1 {
            let _ = self.scopes.pop();
        }
        assert(self@ =~= scope_left(old(self)@));
    }

    /// Declares an ordinary identifier in the innermost scope.
    pub fn declare_ordinary(&mut self, name: Symbol, id: SymbolId)
        ensures
            final(self)@ == ordinary_declared(old(self)@, name, id),
    {
        let n: usize = self.scopes.len();
        if n > 0 {
            self.scopes[n - 1].ordinary.insert(name.0, id);
        }
        assert(self@ =~= ordinary_declared(old(self)@, name, id));
    }

    /// Marks a name as a typedef name in the innermost scope.
    pub fn register_typedef(&mut self, name: Symbol)
        ensures
            final(self)@ == typedef_registered(old(self)@, name),
    {
        let n: usize = self.scopes.len();
        if n > 0 {
            self.scopes[n - 1].typedefs.insert(name.0);
        }
        assert(self@ =~= typedef_registered(old(self)@, name));
    }

    /// Declares a tag in the innermost scope.
    pub fn declare_tag(&mut self, name: Symbol, entry: TagEntry)
        ensures
            final(self)@ == tag_declared(old(self)@, name, tag_of(entry)),
    {
        let n: usize = self.scopes.len();
        if n > 0 {
            self.scopes[n - 1].tags.insert(name.0, entry);
            assert(self.scopes@[n - 1]@.tags =~= old(self)@.last().tags.insert(
                name.0,
                tag_of(entry),
            ));
        }
        assert(self@ =~= tag_declared(old(self)@, name, tag_of(entry)));
    }

    fn find_tag_scope(&self, name: Symbol) -> (r: Option<usize>)
        ensures
            match r {
                Some(i) => i < self@.len() && tag_scope(self@, self@.len() as int, name.0) == Some(
                    i as int,
                ) && self@[i as int].tags.contains_key(name.0),
                None => tag_scope(self@, self@.len() as int, name.0) is None,
            },
    {
        let mut n: usize = self.scopes.len();
        while n > 0
            invariant
                n <= self@.len(),
                self@.len() == self.scopes@.len(),
                tag_scope(self@, n as int, name.0) == tag_scope(self@, self@.len() as int, name.0),
            decreases n,
        {
            assert(self@[n - 1] == self.scopes@[n - 1]@);
            if self.scopes[n - 1].tags.contains_key(&name.0) {
                return Some(n - 1);
            }
            n -= 1;
        }
        None
    }

    /// Gives the visible tag its complete type.
    pub fn complete_tag(&mut self, name: Symbol, ty: CType)
        ensures
            final(self)@ == tag_completed(old(self)@, name, ty@),
    {
        match self.find_tag_scope(name) {
            Some(i) => {
                let (kind, span): (TagKind, Span) = match self.scopes[i].tags.get(&name.0) {
                    Some(e) => (e.kind, e.span),
                    None => (TagKind::Struct, Span::dummy()),
                };
                let entry = TagEntry { kind, ty, is_complete: true, span };
                let ghost tag = tag_of(entry);
                self.scopes[i].tags.insert(name.0, entry);
                assert(self.scopes@[i as int]@.tags =~= old(self)@[i as int].tags.insert(
                    name.0,
                    tag,
                ));
                assert(self@ =~= tag_completed(old(self)@, name, ty@));
            },
            None => {},
        }
    }

    /// What a tag means in the innermost scope.
    pub fn lookup_tag(&self, name: Symbol) -> (r: Option<&TagEntry>)
        ensures
            match r {
                Some(e) => tag_in(self@, name) == Some(tag_of(*e)),
                None => tag_in(self@, name) is None,
            },
    {
        match self.find_tag_scope(name) {
            Some(i) => self.scopes[i].tags.get(&name.0),
            None => None,
        }
    }

    /// What a tag given by its text means in the innermost scope.
    pub fn lookup_tag_by_str(&self, text: &str, interner: &Interner) -> (r: Option<&TagEntry>)
        ensures
            match r {
                Some(e) => tag_by_text(self@, interner@, text@) == Some(tag_of(*e)),
                None => tag_by_text(self@, interner@, text@) is None,
            },
    {
        match interner.get(text) {
            Some(sym) => self.lookup_tag(sym),
            None => None,
        }
    }

    /// What an ordinary identifier means in the innermost scope.
    pub fn lookup_ordinary(&self, name: Symbol) -> (r: Option<SymbolId>)
        ensures
            r == ordinary_in(self@, name),
    {
        let mut n: usize = self.scopes.len();
        while n > 0
            invariant
                n <= self@.len(),
                self@.len() == self.scopes@.len(),
                find_ordinary(self@, n as int, name.0) == find_ordinary(
                    self@,
                    self@.len() as int,
                    name.0,
                ),
            decreases n,
        {
            assert(self@[n - 1] == self.scopes@[n - 1]@);
            match self.scopes[n - 1].ordinary.get(&name.0) {
                Some(id) => {
                    return Some(*id);
                },
                None => {},
            }
            n -= 1;
        }
        None
    }

    fn find_label_home(&self, name: Symbol) -> (r: usize)
        ensures
            r == label_home(self@, self@.len() as int, name),
            self@.len() > 0 ==> r < self@.len(),
    {
        let mut n: usize = self.scopes.len();
        while n > 1
            invariant
                n <= self@.len(),
                self@.len() == self.scopes@.len(),
                label_home(self@, n as int, name) == label_home(self@, self@.len() as int, name),
            decreases n,
        {
            assert(self@[n - 1] == self.scopes@[n - 1]@);
            if find_label(&self.scopes[n - 1].labels, name).is_some() {
                return n - 1;
            }
            if self.scopes[n - 1].kind == ScopeKind::Function {
                return n - 1;
            }
            n -= 1;
        }
        0
    }

    /// What is known of a label in scope `h`.
    fn label_at(&self, h: usize, name: Symbol, span: Span) -> (r: LabelEntry)
        requires
            h < self@.len(),
        ensures
            r == label_or_fresh(self@[h as int].labels, name, span),
    {
        assert(self@[h as int] == self.scopes@[h as int]@);
        match find_label(&self.scopes[h].labels, name) {
            Some(i) => self.scopes[h].labels[i],
            None => LabelEntry {
                name,
                is_defined: false,
                is_referenced: false,
                is_local: false,
                span,
            },
        }
    }

    /// Puts what is known of a label into scope `h`.
    fn put_label(&mut self, h: usize, entry: LabelEntry)
        requires
            h < old(self)@.len(),
        ensures
            final(self)@ == with_scope(
                old(self)@,
                h as int,
                ScopeModel {
                    labels: label_put(old(self)@[h as int].labels, entry),
                    ..old(self)@[h as int]
                },
            ),
    {
        match find_label(&self.scopes[h].labels, entry.name) {
            Some(i) => {
                self.scopes[h].labels.set(i, entry);
            },
            None => {
                self.scopes[h].labels.push(entry);
            },
        }
        assert(self@ =~= with_scope(
            old(self)@,
            h as int,
            ScopeModel {
                labels: label_put(old(self)@[h as int].labels, entry),
                ..old(self)@[h as int]
            },
        ));
    }

    /// Records a jump to a label, or that its address is taken.
    pub fn reference_label(&mut self, name: Symbol, span: Span)
        ensures
            final(self)@ == label_referenced(old(self)@, name, span),
    {
        let h: usize = self.find_label_home(name);
        if self.scopes.len() > 0 {
            let mut entry: LabelEntry = self.label_at(h, name, span);
            entry.is_referenced = true;
            self.put_label(h, entry);
        }
    }

    /// Records the definition of a label; a second one is an error.
    pub fn define_label(&mut self, name: Symbol, span: Span, diagnostics: &mut DiagnosticEngine)
        ensures
            final(self)@ == label_defined(old(self)@, name, span),
            final(diagnostics)@ == label_definition_log(
                old(diagnostics)@,
                old(self)@,
                name,
                span,
            ),
    {
        let h: usize = self.find_label_home(name);
        if self.scopes.len() > 0 {
            let mut entry: LabelEntry = self.label_at(h, name, span);
            if entry.is_defined {
                diagnostics.emit(
                    Diagnostic::error(span, "duplicate label").with_note(
                        entry.span,
                        "previous definition",
                    ),
                );
            }
            entry.is_defined = true;
            entry.span = span;
            self.put_label(h, entry);
        }
    }

    /// Declares a label in the innermost scope; a second declaration is an
    /// error.
    pub fn declare_label(
        &mut self,
        name: Symbol,
        span: Span,
        is_local: bool,
        diagnostics: &mut DiagnosticEngine,
    )
        ensures
            final(self)@ == local_label_declared(old(self)@, name, span, is_local),
            final(diagnostics)@ == local_label_log(old(diagnostics)@, old(self)@, name, span),
    {
        let n: usize = self.scopes.len();
        if n > 0 {
            assert(self@.last() == self.scopes@[n - 1]@);
            match find_label(&self.scopes[n - 1].labels, name) {
                Some(i) => {
                    let previous: Span = self.scopes[n - 1].labels[i].span;
                    diagnostics.emit(
                        Diagnostic::error(span, "duplicate label declaration").with_note(
                            previous,
                            "previous declaration",
                        ),
                    );
                },
                None => {
                    self.scopes[n - 1].labels.push(
                        LabelEntry {
                            name,
                            is_defined: false,
                            is_referenced: false,
                            is_local,
                            span,
                        },
                    );
                },
            }
        }
        assert(self@ =~= local_label_declared(old(self)@, name, span, is_local));
    }

    /// Reports each label of the innermost scope that is used and not defined.
    pub fn validate_labels(&self, diagnostics: &mut DiagnosticEngine)
        ensures
            final(diagnostics)@ == labels_checked(
                old(diagnostics)@,
                innermost_labels(self@),
                0,
            ),
    {
        let n: usize = self.scopes.len();
        if n == 0 {
            return;
        }
        let labels: &Vec<LabelEntry> = &self.scopes[n - 1].labels;
        let mut i: usize = 0;
        let ghost log = diagnostics@;
        while i < labels.len()
            invariant
                i <= labels@.len(),
                labels_checked(diagnostics@, labels@, i as int) == labels_checked(log, labels@, 0),
            decreases labels@.len() - i,
        {
            let l: LabelEntry = labels[i];
            if l.is_referenced && !l.is_defined {
                diagnostics.emit_error(l.span, "use of undefined label");
            }
            i += 1;
        }
    }
}

} // verus!
