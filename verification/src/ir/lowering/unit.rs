//! Lowering of a translation unit: what it collects first, and the order in
//! which it goes through the declarations.

use crate::common::diagnostics::{any_error, count_of, DiagnosticEngine, Severity};
use crate::common::layout::{
    alignof_ctype, plain_align, plain_size, sizeof_ctype, tags_of,
};
use crate::common::source_map::SourceMap;
use crate::common::string_interner::Symbol;
use crate::common::target::Target;
use crate::common::text::{
    concat3, decimal, format_u64, lossy_text, own, str_eq, texts_of, utf8_lossy,
};
use crate::common::types::{below_typedefs, resolve_typedef, void_ptr, void_ptr_ty, CType, Ty};
use crate::frontend::parser::ast::{
    AsmStatement, Declaration, Declarator, DirectDeclarator, ExternalDeclaration, InitDeclarator,
    StorageClass, TranslationUnit,
};
use crate::frontend::sema::analyzer::SemanticAnalyzer;
use crate::frontend::sema::resolve::{base_type, full_type};
use crate::frontend::sema::specifiers::{direct_name, extract_declarator_name};
use crate::frontend::sema::state::State;
use crate::ir::lowering::enums::{
    collect_enum_constants_from_compound, collect_enum_constants_from_specifiers,
    collect_enum_underlying_types, with_block, with_enum_types, with_specifiers,
};
use crate::ir::lowering::error::LoweringError;
use crate::ir::lowering::structs::{
    collect_struct_defs_from_compound, collect_struct_defs_from_specifiers, completed,
    definitions_of, has_empty_struct_refs, is_open_definition, resolve_struct_field_forward_refs,
    with_block_definitions, with_definitions, TagDefinition,
};
use crate::ir::module::{
    empty_module, Constant, GlobalModel, GlobalVariable, IrModule, Linkage, ModuleModel,
};
use crate::ir::types::{lowers_to, IrType};
use vstd::hash_map::StringHashMap;
use vstd::prelude::*;

verus! {

broadcast use {crate::common::text::group_texts, crate::common::types::group_type_models};

/// How often the definitions are gone through at most to replace tags.
pub const MAX_RESOLUTION_PASSES: u32 = 8;

// ---------------------------------------------------------------------------
// What is collected
// ---------------------------------------------------------------------------

/// The enumeration constants with those of one external declaration.
pub open spec fn with_external_constants(
    st: State,
    d: ExternalDeclaration,
    m: Map<Seq<char>, i128>,
) -> Map<Seq<char>, i128> {
    match d {
        ExternalDeclaration::Declaration(x) => with_specifiers(
            st,
            x.specifiers.type_specifiers@,
            0,
            m,
        ),
        ExternalDeclaration::FunctionDefinition(f) => with_block(
            st,
            f.body.items@,
            0,
            with_specifiers(st, f.specifiers.type_specifiers@, 0, m),
        ),
        _ => m,
    }
}

/// The enumeration constants with those of the external declarations from the
/// `i`-th on.
pub open spec fn unit_constants(
    st: State,
    ds: Seq<ExternalDeclaration>,
    i: int,
    m: Map<Seq<char>, i128>,
) -> Map<Seq<char>, i128>
    decreases ds.len() - i,
{
    if i < 0 || i >= ds.len() {
        m
    } else {
        unit_constants(st, ds, i + 1, with_external_constants(st, ds[i], m))
    }
}

/// The types of enums with those of the external declarations from the `i`-th on.
/// Each sees the constants of what stands before it and its own.
pub open spec fn unit_enum_types(
    st: State,
    ds: Seq<ExternalDeclaration>,
    i: int,
    m: Map<Seq<char>, i128>,
    types: Map<Seq<char>, Ty>,
) -> Map<Seq<char>, Ty>
    decreases ds.len() - i,
{
    if i < 0 || i >= ds.len() {
        types
    } else {
        let next = match ds[i] {
            ExternalDeclaration::Declaration(x) => with_enum_types(
                st,
                with_specifiers(st, x.specifiers.type_specifiers@, 0, m),
                x.specifiers.type_specifiers@,
                0,
                types,
            ),
            ExternalDeclaration::FunctionDefinition(f) => with_enum_types(
                st,
                with_specifiers(st, f.specifiers.type_specifiers@, 0, m),
                f.specifiers.type_specifiers@,
                0,
                types,
            ),
            _ => types,
        };
        unit_enum_types(st, ds, i + 1, with_external_constants(st, ds[i], m), next)
    }
}

/// Whether a declaration declares typedef names.
pub open spec fn is_typedef(d: Declaration) -> bool {
    d.specifiers.storage_class == Some(StorageClass::Typedef)
}

/// The typedef names with those of the declarators from the `i`-th on.
pub open spec fn with_typedef_names(
    st: State,
    base: Ty,
    ds: Seq<InitDeclarator>,
    i: int,
    m: Map<Seq<char>, Ty>,
) -> Map<Seq<char>, Ty>
    decreases ds.len() - i,
{
    if i < 0 || i >= ds.len() {
        m
    } else {
        let sym = direct_name(ds[i].declarator.direct);
        let t = below_typedefs(full_type(st, base, ds[i].declarator));
        let next = if sym.0 < st.names.len() {
            m.insert(st.names[sym.0 as int], t)
        } else {
            m
        };
        with_typedef_names(st, base, ds, i + 1, next)
    }
}

/// The typedef names with those of the external declarations from the `i`-th on.
pub open spec fn unit_typedefs(
    st: State,
    ds: Seq<ExternalDeclaration>,
    i: int,
    m: Map<Seq<char>, Ty>,
) -> Map<Seq<char>, Ty>
    decreases ds.len() - i,
{
    if i < 0 || i >= ds.len() {
        m
    } else {
        let next = match ds[i] {
            ExternalDeclaration::Declaration(d) => if is_typedef(*d) {
                with_typedef_names(st, base_type(st, d.specifiers), d.declarators@, 0, m)
            } else {
                m
            },
            _ => m,
        };
        unit_typedefs(st, ds, i + 1, next)
    }
}

/// The typedef names that every translation unit starts with.
pub open spec fn builtin_typedefs() -> Map<Seq<char>, Ty> {
    Map::empty().insert("__builtin_va_list"@, void_ptr_ty())
}

/// Definitions by tag, and the tags in the order in which they came up.
pub struct Definitions {
    pub order: Seq<Seq<char>>,
    pub by_tag: Map<Seq<char>, Ty>,
}

/// The definitions with those of a list from the `i`-th on; a later one of the
/// same tag replaces an earlier one.
pub open spec fn with_listed(d: Definitions, list: Seq<(Seq<char>, Ty)>, i: int) -> Definitions
    decreases list.len() - i,
{
    if i < 0 || i >= list.len() {
        d
    } else {
        let next = Definitions {
            order: if d.by_tag.contains_key(list[i].0) {
                d.order
            } else {
                d.order.push(list[i].0)
            },
            by_tag: d.by_tag.insert(list[i].0, list[i].1),
        };
        with_listed(next, list, i + 1)
    }
}

/// The struct and union definitions of one external declaration.
pub open spec fn external_definitions(st: State, d: ExternalDeclaration) -> Seq<(Seq<char>, Ty)> {
    match d {
        ExternalDeclaration::Declaration(x) => with_definitions(
            st,
            x.specifiers.type_specifiers@,
            0,
            Seq::empty(),
        ),
        ExternalDeclaration::FunctionDefinition(f) => with_block_definitions(
            st,
            f.body.items@,
            0,
            with_definitions(st, f.specifiers.type_specifiers@, 0, Seq::empty()),
        ),
        _ => Seq::empty(),
    }
}

/// The definitions with those of the external declarations from the `i`-th on.
/// The types of each are resolved with the definitions of what stands before it.
pub open spec fn unit_definitions(
    st: State,
    ds: Seq<ExternalDeclaration>,
    i: int,
    d: Definitions,
) -> Definitions
    decreases ds.len() - i,
{
    if i < 0 || i >= ds.len() {
        d
    } else {
        let here = State { tags: d.by_tag, ..st };
        unit_definitions(st, ds, i + 1, with_listed(d, external_definitions(here, ds[i]), 0))
    }
}

// ---------------------------------------------------------------------------
// Tags in definitions
// ---------------------------------------------------------------------------

/// The definitions after those of the tags from the `i`-th on were completed by
/// the others, and whether one became complete by that.
pub open spec fn one_pass(
    order: Seq<Seq<char>>,
    i: int,
    m: Map<Seq<char>, Ty>,
    changed: bool,
) -> (Map<Seq<char>, Ty>, bool)
    decreases order.len() - i,
{
    if i < 0 || i >= order.len() {
        (m, changed)
    } else if m.contains_key(order[i]) {
        let others = m.remove(order[i]);
        let t = completed(others, m[order[i]], 0);
        one_pass(
            order,
            i + 1,
            others.insert(order[i], t),
            changed || (is_open_definition(m[order[i]]) && !is_open_definition(t)),
        )
    } else {
        one_pass(order, i + 1, m, changed)
    }
}

/// The definitions after passes were made until one completes nothing more, or
/// until none is left to make.
pub open spec fn settled(order: Seq<Seq<char>>, m: Map<Seq<char>, Ty>, passes: nat) -> Map<
    Seq<char>,
    Ty,
>
    decreases passes,
{
    if passes == 0 {
        m
    } else {
        let r = one_pass(order, 0, m, false);
        if r.1 {
            settled(order, r.0, (passes - 1) as nat)
        } else {
            r.0
        }
    }
}

/// A pass keeps the tags that have definitions.
pub proof fn lemma_pass_keeps_tags(
    order: Seq<Seq<char>>,
    i: int,
    m: Map<Seq<char>, Ty>,
    changed: bool,
)
    requires
        0 <= i <= order.len(),
    ensures
        one_pass(order, i, m, changed).0.dom() == m.dom(),
    decreases order.len() - i,
{
    if i < order.len() {
        if m.contains_key(order[i]) {
            let others = m.remove(order[i]);
            let t = completed(others, m[order[i]], 0);
            let next = others.insert(order[i], t);
            assert(next.dom() =~= m.dom());
            lemma_pass_keeps_tags(
                order,
                i + 1,
                next,
                changed || (is_open_definition(m[order[i]]) && !is_open_definition(t)),
            );
        } else {
            lemma_pass_keeps_tags(order, i + 1, m, changed);
        }
    }
}

/// Whether every tag that has a definition is listed.
pub open spec fn lists_all(order: Seq<Seq<char>>, m: Map<Seq<char>, Ty>) -> bool {
    forall|k: Seq<char>| #[trigger] m.contains_key(k) ==> order.contains(k)
}

proof fn lemma_listing(d: Definitions, list: Seq<(Seq<char>, Ty)>, i: int)
    requires
        lists_all(d.order, d.by_tag),
    ensures
        lists_all(with_listed(d, list, i).order, with_listed(d, list, i).by_tag),
    decreases list.len() - i,
{
    if 0 <= i < list.len() {
        let tag = list[i].0;
        let order = if d.by_tag.contains_key(tag) {
            d.order
        } else {
            d.order.push(tag)
        };
        let next = Definitions { order, by_tag: d.by_tag.insert(tag, list[i].1) };
        assert forall|k: Seq<char>| #[trigger] next.by_tag.contains_key(k) implies order.contains(
            k,
        ) by {
            if d.by_tag.contains_key(k) {
                let j = choose|j: int| 0 <= j < d.order.len() && d.order[j] == k;
                assert(order[j] == k);
            } else {
                assert(order[order.len() - 1] == k);
            }
        }
        lemma_listing(next, list, i + 1);
    }
}

proof fn lemma_unit_listing(st: State, ds: Seq<ExternalDeclaration>, i: int, d: Definitions)
    requires
        lists_all(d.order, d.by_tag),
    ensures
        lists_all(unit_definitions(st, ds, i, d).order, unit_definitions(st, ds, i, d).by_tag),
    decreases ds.len() - i,
{
    if 0 <= i < ds.len() {
        let here = State { tags: d.by_tag, ..st };
        let list = external_definitions(here, ds[i]);
        lemma_listing(d, list, 0);
        lemma_unit_listing(st, ds, i + 1, with_listed(d, list, 0));
    }
}

/// Every tag of a translation unit that has a definition is listed.
pub proof fn lemma_every_tag_is_listed(st: State, ds: Seq<ExternalDeclaration>)
    ensures
        lists_all(all_definitions(st, ds).order, prepared(st, ds).tags),
{
    let none = Definitions { order: Seq::empty(), by_tag: Map::empty() };
    lemma_unit_listing(with_constants(st, ds), ds, 0, none);
    let d = all_definitions(st, ds);
    lemma_settling_keeps_tags(d.order, d.by_tag, MAX_RESOLUTION_PASSES as nat);
    assert forall|k: Seq<char>| #[trigger] prepared(st, ds).tags.contains_key(k) implies
        d.order.contains(k) by {
        assert(prepared(st, ds).tags.dom().contains(k));
        assert(d.by_tag.contains_key(k));
    }
}

/// Completing definitions neither adds nor loses a tag.
pub proof fn lemma_settling_keeps_tags(order: Seq<Seq<char>>, m: Map<Seq<char>, Ty>, passes: nat)
    ensures
        settled(order, m, passes).dom() == m.dom(),
    decreases passes,
{
    if passes > 0 {
        lemma_pass_keeps_tags(order, 0, m, false);
        let r = one_pass(order, 0, m, false);
        if r.1 {
            lemma_settling_keeps_tags(order, r.0, (passes - 1) as nat);
        }
    }
}

// ---------------------------------------------------------------------------
// The order of work
// ---------------------------------------------------------------------------

/// What is to be done with the external declaration at an index.
#[derive(Clone, Copy, Debug, PartialEq, Eq, Structural)]
pub enum WorkItem {
    /// Declare the functions of a declaration.
    FunctionDeclaration(usize),
    /// Define or declare the variables of a declaration.
    GlobalVariable(usize),
    /// Lower a function with its body.
    FunctionDefinition(usize),
}

/// Whether a declarator declares a function, and not a pointer to one.
pub open spec fn has_function_shape(d: Declarator) -> bool
    decreases d,
{
    match d.direct {
        DirectDeclarator::Function { base, .. } => match *base {
            DirectDeclarator::Parenthesized(inner) => inner.pointer is None,
            _ => true,
        },
        DirectDeclarator::Parenthesized(inner) => has_function_shape(*inner),
        _ => false,
    }
}

/// Whether one of the declarators declares a function.
pub open spec fn declares_function(d: Declaration) -> bool {
    exists|i: int|
        0 <= i < d.declarators@.len() && has_function_shape(
            #[trigger] d.declarators@[i].declarator,
        )
}

/// Whether one of the declarators has an initializer.
pub open spec fn has_initializer(d: Declaration) -> bool {
    exists|i: int|
        0 <= i < d.declarators@.len() && (#[trigger] d.declarators@[i].initializer) is Some
}

/// What the declaration at `i` asks for before functions are lowered: nothing for
/// typedefs and for bare tags.
pub open spec fn first_work(d: Declaration, i: usize) -> Option<WorkItem> {
    if is_typedef(d) || d.declarators@.len() == 0 {
        None
    } else if declares_function(d) && !has_initializer(d) {
        Some(WorkItem::FunctionDeclaration(i))
    } else {
        Some(WorkItem::GlobalVariable(i))
    }
}

/// The work on declarations among the first `n` external declarations.
pub open spec fn first_pass(ds: Seq<ExternalDeclaration>, n: int) -> Seq<WorkItem>
    decreases n,
{
    if n <= 0 || n > ds.len() {
        Seq::empty()
    } else {
        let before = first_pass(ds, n - 1);
        match ds[n - 1] {
            ExternalDeclaration::Declaration(d) => match first_work(*d, (n - 1) as usize) {
                Some(w) => before.push(w),
                None => before,
            },
            _ => before,
        }
    }
}

/// The assembly that stands outside functions among the first `n` external
/// declarations.
pub open spec fn file_scope_asm(ds: Seq<ExternalDeclaration>, n: int) -> Seq<Seq<char>>
    decreases n,
{
    if n <= 0 || n > ds.len() {
        Seq::empty()
    } else {
        let before = file_scope_asm(ds, n - 1);
        match ds[n - 1] {
            ExternalDeclaration::AsmStatement(a) => if utf8_lossy(a.template@).len() > 0 {
                before.push(utf8_lossy(a.template@))
            } else {
                before
            },
            _ => before,
        }
    }
}

/// The work on functions with bodies among the first `n` external declarations.
pub open spec fn second_pass(ds: Seq<ExternalDeclaration>, n: int) -> Seq<WorkItem>
    decreases n,
{
    if n <= 0 || n > ds.len() {
        Seq::empty()
    } else {
        let before = second_pass(ds, n - 1);
        match ds[n - 1] {
            ExternalDeclaration::FunctionDefinition(_) => before.push(
                WorkItem::FunctionDefinition((n - 1) as usize),
            ),
            _ => before,
        }
    }
}

/// The work of a translation unit: every global is known before the first
/// function body is lowered.
pub open spec fn work_of(ds: Seq<ExternalDeclaration>) -> Seq<WorkItem> {
    first_pass(ds, ds.len() as int) + second_pass(ds, ds.len() as int)
}

/// The name of a module: that of the first file.
pub open spec fn module_name(files: Seq<Seq<char>>) -> Seq<char> {
    if files.len() > 0 {
        files[0]
    } else {
        "<unknown>"@
    }
}

/// No work on a declaration comes behind work on a function body.
pub proof fn lemma_globals_before_bodies(ds: Seq<ExternalDeclaration>, i: int, j: int)
    requires
        0 <= i < j < work_of(ds).len(),
        work_of(ds)[i] is FunctionDefinition,
    ensures
        work_of(ds)[j] is FunctionDefinition,
{
    let n = ds.len() as int;
    lemma_passes_hold_their_work(ds, n);
    let a = first_pass(ds, n);
    let b = second_pass(ds, n);
    if i < a.len() {
        assert(work_of(ds)[i] == a[i]);
    } else {
        assert(work_of(ds)[j] == b[j - a.len()]);
    }
}

proof fn lemma_passes_hold_their_work(ds: Seq<ExternalDeclaration>, n: int)
    requires
        0 <= n <= ds.len(),
    ensures
        forall|i: int|
            0 <= i < first_pass(ds, n).len() ==> !((#[trigger] first_pass(
                ds,
                n,
            )[i]) is FunctionDefinition),
        forall|i: int|
            0 <= i < second_pass(ds, n).len() ==> (#[trigger] second_pass(
                ds,
                n,
            )[i]) is FunctionDefinition,
    decreases n,
{
    if n > 0 {
        lemma_passes_hold_their_work(ds, n - 1);
    }
}

// ---------------------------------------------------------------------------
// Doing it
// ---------------------------------------------------------------------------

/// What a C type becomes on a target.
pub fn ctype_to_irtype(ctype: &CType, target: Target) -> (r: IrType)
    ensures
        lowers_to(ctype@, target, r),
{
    IrType::from_ctype(ctype, target)
}

/// The alignment of a C type in bytes.
pub fn alignment_of(ctype: &CType, target: Target) -> (r: usize)
    ensures
        r == plain_align(ctype@, target),
{
    alignof_ctype(ctype, target)
}

/// The size of a C type in bytes.
pub fn size_of(ctype: &CType, target: Target) -> (r: usize)
    ensures
        r == plain_size(ctype@, target),
{
    sizeof_ctype(ctype, target)
}

/// Whether a declarator declares a function, and not a pointer to one.
pub fn declarator_has_function_shape(d: &Declarator) -> (r: bool)
    ensures
        r == has_function_shape(*d),
    decreases d,
{
    match &d.direct {
        DirectDeclarator::Function { base, .. } => match &**base {
            DirectDeclarator::Parenthesized(inner) => inner.pointer.is_none(),
            _ => true,
        },
        DirectDeclarator::Parenthesized(inner) => declarator_has_function_shape(inner),
        _ => false,
    }
}

fn declaration_has_function_shape(d: &Declaration) -> (r: bool)
    ensures
        r == declares_function(*d),
{
    let mut i: usize = 0;
    while i < d.declarators.len()
        invariant
            i <= d.declarators@.len(),
            forall|j: int|
                0 <= j < i ==> !has_function_shape(#[trigger] d.declarators@[j].declarator),
        decreases d.declarators@.len() - i,
    {
        if declarator_has_function_shape(&d.declarators[i].declarator) {
            assert(has_function_shape(d.declarators@[i as int].declarator));
            return true;
        }
        i += 1;
    }
    false
}

/// Whether one of the declarators of a declaration has an initializer.
pub fn declaration_has_initializer(d: &Declaration) -> (r: bool)
    ensures
        r == has_initializer(*d),
{
    let mut i: usize = 0;
    while i < d.declarators.len()
        invariant
            i <= d.declarators@.len(),
            forall|j: int| 0 <= j < i ==> (#[trigger] d.declarators@[j].initializer) is None,
        decreases d.declarators@.len() - i,
    {
        if d.declarators[i].initializer.is_some() {
            assert(d.declarators@[i as int].initializer is Some);
            return true;
        }
        i += 1;
    }
    false
}

/// The text of assembly that stands outside functions.
pub fn extract_asm_template(a: &AsmStatement) -> (r: String)
    ensures
        r@ == utf8_lossy(a.template@),
{
    lossy_text(a.template.as_slice())
}

fn declares_typedef(d: &Declaration) -> (r: bool)
    ensures
        r == is_typedef(*d),
{
    match d.specifiers.storage_class {
        Some(StorageClass::Typedef) => true,
        _ => false,
    }
}

fn collect_constants(unit: &TranslationUnit, sema: &SemanticAnalyzer<'_>) -> (r: StringHashMap<
    i128,
>)
    ensures
        r@ == unit_constants(sema@, unit.declarations@, 0, Map::empty()),
{
    let mut out: StringHashMap<i128> = StringHashMap::new();
    let mut i: usize = 0;
    while i < unit.declarations.len()
        invariant
            i <= unit.declarations@.len(),
            unit_constants(sema@, unit.declarations@, i as int, out@) == unit_constants(
                sema@,
                unit.declarations@,
                0,
                Map::empty(),
            ),
        decreases unit.declarations@.len() - i,
    {
        match &unit.declarations[i] {
            ExternalDeclaration::Declaration(d) => {
                collect_enum_constants_from_specifiers(
                    &d.specifiers.type_specifiers,
                    sema,
                    &mut out,
                );
            },
            ExternalDeclaration::FunctionDefinition(f) => {
                collect_enum_constants_from_specifiers(
                    &f.specifiers.type_specifiers,
                    sema,
                    &mut out,
                );
                collect_enum_constants_from_compound(&f.body.items, sema, &mut out);
            },
            _ => {},
        }
        i += 1;
    }
    out
}

fn collect_constants_and_types(unit: &TranslationUnit, sema: &SemanticAnalyzer<'_>) -> (r: (
    StringHashMap<i128>,
    StringHashMap<CType>,
))
    ensures
        r.0@ == unit_constants(sema@, unit.declarations@, 0, Map::empty()),
        tags_of(r.1@) == unit_enum_types(
            sema@,
            unit.declarations@,
            0,
            Map::empty(),
            Map::empty(),
        ),
{
    let mut out: StringHashMap<i128> = StringHashMap::new();
    let mut types: StringHashMap<CType> = StringHashMap::new();
    assert(tags_of(types@) =~= Map::empty());
    let mut i: usize = 0;
    while i < unit.declarations.len()
        invariant
            i <= unit.declarations@.len(),
            unit_constants(sema@, unit.declarations@, i as int, out@) == unit_constants(
                sema@,
                unit.declarations@,
                0,
                Map::empty(),
            ),
            unit_enum_types(sema@, unit.declarations@, i as int, out@, tags_of(types@))
                == unit_enum_types(
                sema@,
                unit.declarations@,
                0,
                Map::empty(),
                Map::empty(),
            ),
        decreases unit.declarations@.len() - i,
    {
        match &unit.declarations[i] {
            ExternalDeclaration::Declaration(d) => {
                let specs = &d.specifiers.type_specifiers;
                collect_enum_constants_from_specifiers(specs, sema, &mut out);
                collect_enum_underlying_types(specs, sema, &out, &mut types);
            },
            ExternalDeclaration::FunctionDefinition(f) => {
                let specs = &f.specifiers.type_specifiers;
                collect_enum_constants_from_specifiers(specs, sema, &mut out);
                collect_enum_underlying_types(specs, sema, &out, &mut types);
                collect_enum_constants_from_compound(&f.body.items, sema, &mut out);
            },
            _ => {},
        }
        i += 1;
    }
    (out, types)
}

fn collect_typedef_names(
    d: &Declaration,
    sema: &SemanticAnalyzer<'_>,
    out: &mut StringHashMap<CType>,
)
    ensures
        tags_of(final(out)@) == with_typedef_names(
            sema@,
            base_type(sema@, d.specifiers),
            d.declarators@,
            0,
            tags_of(old(out)@),
        ),
{
    let base: CType = sema.type_of_specifiers(&d.specifiers);
    let ghost m = tags_of(out@);
    let mut i: usize = 0;
    while i < d.declarators.len()
        invariant
            i <= d.declarators@.len(),
            base@ == base_type(sema@, d.specifiers),
            with_typedef_names(sema@, base@, d.declarators@, i as int, tags_of(out@))
                == with_typedef_names(sema@, base@, d.declarators@, 0, m),
        decreases d.declarators@.len() - i,
    {
        let declarator: &Declarator = &d.declarators[i].declarator;
        let sym: Symbol = extract_declarator_name(declarator);
        if (sym.0 as usize) < sema.interner.len() {
            let full: CType = sema.type_of_declarator(base.clone(), declarator);
            let t: CType = resolve_typedef(&full).clone();
            let ghost before = out@;
            let ghost model = t@;
            out.insert(own(sema.interner.resolve(sym)), t);
            assert(tags_of(out@) =~= tags_of(before).insert(sema@.names[sym.0 as int], model));
        }
        i += 1;
    }
}

fn collect_typedefs(unit: &TranslationUnit, sema: &SemanticAnalyzer<'_>) -> (r: StringHashMap<
    CType,
>)
    ensures
        tags_of(r@) == unit_typedefs(sema@, unit.declarations@, 0, builtin_typedefs()),
{
    let mut out: StringHashMap<CType> = StringHashMap::new();
    out.insert(own("__builtin_va_list"), void_ptr());
    assert(tags_of(out@) =~= builtin_typedefs());
    let mut i: usize = 0;
    while i < unit.declarations.len()
        invariant
            i <= unit.declarations@.len(),
            unit_typedefs(sema@, unit.declarations@, i as int, tags_of(out@)) == unit_typedefs(
                sema@,
                unit.declarations@,
                0,
                builtin_typedefs(),
            ),
        decreases unit.declarations@.len() - i,
    {
        match &unit.declarations[i] {
            ExternalDeclaration::Declaration(d) => {
                if declares_typedef(d) {
                    collect_typedef_names(d, sema, &mut out);
                }
            },
            _ => {},
        }
        i += 1;
    }
    out
}

fn collect_external(d: &ExternalDeclaration, sema: &SemanticAnalyzer<'_>) -> (r: Vec<
    TagDefinition,
>)
    ensures
        definitions_of(r@) == external_definitions(sema@, *d),
{
    let mut out: Vec<TagDefinition> = Vec::new();
    assert(definitions_of(out@) =~= Seq::empty());
    match d {
        ExternalDeclaration::Declaration(x) => {
            collect_struct_defs_from_specifiers(&x.specifiers.type_specifiers, sema, &mut out);
        },
        ExternalDeclaration::FunctionDefinition(f) => {
            collect_struct_defs_from_specifiers(&f.specifiers.type_specifiers, sema, &mut out);
            collect_struct_defs_from_compound(&f.body.items, sema, &mut out);
        },
        _ => {},
    }
    out
}

fn add_listed(
    list: &Vec<TagDefinition>,
    order: &mut Vec<String>,
    by_tag: &mut StringHashMap<CType>,
)
    ensures
        ({
            let d = with_listed(
                Definitions { order: texts_of(old(order)@), by_tag: tags_of(old(by_tag)@) },
                definitions_of(list@),
                0,
            );
            &&& texts_of(final(order)@) == d.order
            &&& tags_of(final(by_tag)@) == d.by_tag
        }),
{
    let ghost d = Definitions { order: texts_of(order@), by_tag: tags_of(by_tag@) };
    let mut i: usize = 0;
    while i < list.len()
        invariant
            i <= list@.len(),
            with_listed(
                Definitions { order: texts_of(order@), by_tag: tags_of(by_tag@) },
                definitions_of(list@),
                i as int,
            ) == with_listed(d, definitions_of(list@), 0),
        decreases list@.len() - i,
    {
        let tag: &str = list[i].tag.as_str();
        assert(definitions_of(list@)[i as int] == (tag@, list@[i as int].ty@));
        assert(tags_of(by_tag@).contains_key(tag@) == by_tag@.contains_key(tag@));
        let ghost before = order@;
        let ghost map = by_tag@;
        if !by_tag.contains_key(tag) {
            order.push(own(tag));
            assert(texts_of(order@) =~= texts_of(before).push(tag@));
        }
        let t: CType = list[i].ty.clone();
        let ghost model = t@;
        by_tag.insert(own(tag), t);
        assert(tags_of(by_tag@) =~= tags_of(map).insert(tag@, model));
        i += 1;
    }
}

/// Collects the definitions of a unit into the tags that the analyzer knows, in
/// place of those that it knew.
fn collect_definitions(unit: &TranslationUnit, sema: &mut SemanticAnalyzer<'_>) -> (r: Vec<String>)
    ensures
        ({
            let d = unit_definitions(
                old(sema)@,
                unit.declarations@,
                0,
                Definitions { order: Seq::empty(), by_tag: Map::empty() },
            );
            &&& texts_of(r@) == d.order
            &&& final(sema)@ == (State { tags: d.by_tag, ..old(sema)@ })
        }),
        *final(final(sema).diagnostics) == *final(old(sema).diagnostics),
{
    let ghost st = sema@;
    let ghost engine = *final(sema.diagnostics);
    sema.tag_types_by_name = StringHashMap::new();
    let mut order: Vec<String> = Vec::new();
    assert(tags_of(sema.tag_types_by_name@) =~= Map::empty());
    assert(texts_of(order@) =~= Seq::empty());
    let mut i: usize = 0;
    #[verifier::loop_isolation(false)]
    while i < unit.declarations.len()
        invariant
            i <= unit.declarations@.len(),
            sema@ == (State { tags: sema@.tags, ..st }),
            unit_definitions(
                st,
                unit.declarations@,
                i as int,
                Definitions { order: texts_of(order@), by_tag: sema@.tags },
            ) == unit_definitions(
                st,
                unit.declarations@,
                0,
                Definitions { order: Seq::empty(), by_tag: Map::empty() },
            ),
            *final(sema.diagnostics) == engine,
        decreases unit.declarations@.len() - i,
    {
        let found: Vec<TagDefinition> = collect_external(&unit.declarations[i], sema);
        add_listed(&found, &mut order, &mut sema.tag_types_by_name);
        i += 1;
    }
    order
}

/// Makes one pass over the definitions; says whether one became complete.
fn pass_once(order: &Vec<String>, by_tag: &mut StringHashMap<CType>) -> (r: bool)
    ensures
        tags_of(final(by_tag)@) == one_pass(
            texts_of(order@),
            0,
            tags_of(old(by_tag)@),
            false,
        ).0,
        r == one_pass(texts_of(order@), 0, tags_of(old(by_tag)@), false).1,
{
    let ghost m = tags_of(by_tag@);
    let mut changed: bool = false;
    let mut i: usize = 0;
    while i < order.len()
        invariant
            i <= order@.len(),
            one_pass(texts_of(order@), i as int, tags_of(by_tag@), changed) == one_pass(
                texts_of(order@),
                0,
                m,
                false,
            ),
        decreases order@.len() - i,
    {
        let tag: &str = order[i].as_str();
        assert(texts_of(order@)[i as int] == tag@);
        let ghost before = by_tag@;
        let current: Option<CType> = match by_tag.get(tag) {
            Some(t) => Some(t.clone()),
            None => None,
        };
        match current {
            Some(t) => {
                assert(tags_of(before)[tag@] == t@);
                by_tag.remove(tag);
                assert(tags_of(by_tag@) =~= tags_of(before).remove(tag@));
                let ghost others = by_tag@;
                let full: CType = resolve_struct_field_forward_refs(&t, by_tag);
                let ghost model = full@;
                if has_empty_struct_refs(&t) && !has_empty_struct_refs(&full) {
                    changed = true;
                }
                by_tag.insert(own(tag), full);
                assert(tags_of(by_tag@) =~= tags_of(others).insert(tag@, model));
            },
            None => {
                assert(!tags_of(before).contains_key(tag@));
            },
        }
        i += 1;
    }
    changed
}

/// Replaces tags in definitions by what they name, until nothing more is
/// completed by that.
fn settle_definitions(order: &Vec<String>, by_tag: &mut StringHashMap<CType>)
    ensures
        tags_of(final(by_tag)@) == settled(
            texts_of(order@),
            tags_of(old(by_tag)@),
            MAX_RESOLUTION_PASSES as nat,
        ),
{
    let ghost m = tags_of(by_tag@);
    let mut left: u32 = MAX_RESOLUTION_PASSES;
    #[verifier::loop_isolation(false)]
    while left > 0
        invariant
            left <= MAX_RESOLUTION_PASSES,
            settled(texts_of(order@), tags_of(by_tag@), left as nat) == settled(
                texts_of(order@),
                m,
                MAX_RESOLUTION_PASSES as nat,
            ),
        decreases left,
    {
        if !pass_once(order, by_tag) {
            return;
        }
        left = left - 1;
    }
}

/// Copies definitions, where `order` lists all tags that have one.
fn copy_listed(order: &Vec<String>, m: &StringHashMap<CType>) -> (r: StringHashMap<CType>)
    requires
        lists_all(texts_of(order@), tags_of(m@)),
    ensures
        tags_of(r@) == tags_of(m@),
{
    let mut out: StringHashMap<CType> = StringHashMap::new();
    let ghost all = tags_of(m@);
    let mut i: usize = 0;
    #[verifier::loop_isolation(false)]
    while i < order.len()
        invariant
            i <= order@.len(),
            forall|k: Seq<char>| #[trigger]
                tags_of(out@).contains_key(k) ==> all.contains_key(k) && tags_of(out@)[k] == all[k],
            forall|j: int|
                0 <= j < i && all.contains_key(#[trigger] texts_of(order@)[j]) ==> tags_of(
                    out@,
                ).contains_key(texts_of(order@)[j]),
        decreases order@.len() - i,
    {
        let tag: &str = order[i].as_str();
        assert(texts_of(order@)[i as int] == tag@);
        let ghost before = out@;
        match m.get(tag) {
            Some(t) => {
                let copy: CType = t.clone();
                assert(all[tag@] == copy@);
                let ghost model = copy@;
                out.insert(own(tag), copy);
                assert(tags_of(out@) =~= tags_of(before).insert(tag@, model));
            },
            None => {
                assert(!all.contains_key(tag@));
            },
        }
        i += 1;
    }
    assert(tags_of(out@) =~= all) by {
        assert forall|k: Seq<char>| all.contains_key(k) implies #[trigger] tags_of(
            out@,
        ).contains_key(k) by {
            let j = choose|j: int| 0 <= j < texts_of(order@).len() && texts_of(order@)[j] == k;
            assert(texts_of(order@)[j] == k);
        }
    }
    out
}

/// A translation unit on its way to code.
pub struct Lowering {
    pub module: IrModule,
    pub enum_constants: StringHashMap<i128>,
    pub enum_types: StringHashMap<CType>,
    pub typedefs: StringHashMap<CType>,
    /// The tags of structs and unions in the order in which they came up.
    pub tags: Vec<String>,
    /// What the tags mean.
    pub definitions: StringHashMap<CType>,
    /// The types of variables, for `typeof`.
    pub variable_types: StringHashMap<CType>,
    pub work: Vec<WorkItem>,
}

/// A translation unit on its way to code, as contracts see it.
pub struct LoweringModel {
    pub module: ModuleModel,
    pub enum_constants: Map<Seq<char>, i128>,
    pub enum_types: Map<Seq<char>, Ty>,
    pub typedefs: Map<Seq<char>, Ty>,
    pub tags: Seq<Seq<char>>,
    pub definitions: Map<Seq<char>, Ty>,
    pub variable_types: Map<Seq<char>, Ty>,
    pub work: Seq<WorkItem>,
}

impl View for Lowering {
    type V = LoweringModel;

    open spec fn view(&self) -> LoweringModel {
        LoweringModel {
            module: self.module@,
            enum_constants: self.enum_constants@,
            enum_types: tags_of(self.enum_types@),
            typedefs: tags_of(self.typedefs@),
            tags: texts_of(self.tags@),
            definitions: tags_of(self.definitions@),
            variable_types: tags_of(self.variable_types@),
            work: self.work@,
        }
    }
}

fn plan_work(unit: &TranslationUnit) -> (r: Vec<WorkItem>)
    ensures
        r@ == work_of(unit.declarations@),
{
    let ds: &Vec<ExternalDeclaration> = &unit.declarations;
    let mut out: Vec<WorkItem> = Vec::new();
    let mut i: usize = 0;
    while i < ds.len()
        invariant
            i <= ds@.len(),
            out@ == first_pass(ds@, i as int),
        decreases ds@.len() - i,
    {
        match &ds[i] {
            ExternalDeclaration::Declaration(d) => {
                if !declares_typedef(d) && d.declarators.len() > 0 {
                    if declaration_has_function_shape(d) && !declaration_has_initializer(d) {
                        out.push(WorkItem::FunctionDeclaration(i));
                    } else {
                        out.push(WorkItem::GlobalVariable(i));
                    }
                }
            },
            _ => {},
        }
        i += 1;
    }
    let mut j: usize = 0;
    while j < ds.len()
        invariant
            j <= ds@.len(),
            out@ == first_pass(ds@, ds@.len() as int) + second_pass(ds@, j as int),
        decreases ds@.len() - j,
    {
        match &ds[j] {
            ExternalDeclaration::FunctionDefinition(_) => {
                out.push(WorkItem::FunctionDefinition(j));
            },
            _ => {},
        }
        j += 1;
        assert(out@ =~= first_pass(ds@, ds@.len() as int) + second_pass(ds@, j as int));
    }
    out
}

fn add_file_scope_asm(unit: &TranslationUnit, module: &mut IrModule)
    requires
        old(module)@.inline_asm.len() == 0,
    ensures
        final(module)@ == (ModuleModel {
            inline_asm: file_scope_asm(unit.declarations@, unit.declarations@.len() as int),
            ..old(module)@
        }),
{
    let ds: &Vec<ExternalDeclaration> = &unit.declarations;
    let mut i: usize = 0;
    assert(module@.inline_asm =~= file_scope_asm(ds@, 0));
    while i < ds.len()
        invariant
            i <= ds@.len(),
            ds@ == unit.declarations@,
            module@ == (ModuleModel {
                inline_asm: file_scope_asm(ds@, i as int),
                ..old(module)@
            }),
        decreases ds@.len() - i,
    {
        match &ds[i] {
            ExternalDeclaration::AsmStatement(a) => {
                let text: String = extract_asm_template(a);
                if !is_empty(&text) {
                    module.add_inline_asm(text);
                }
            },
            _ => {},
        }
        i += 1;
    }
}

fn is_empty(s: &String) -> (r: bool)
    ensures
        r == (s@.len() == 0),
{
    proof {
        reveal_strlit("");
    }
    let empty: bool = str_eq(s.as_str(), "");
    assert(s@.len() == 0 ==> s@ =~= ""@);
    empty
}

fn name_of_module(source_map: &SourceMap) -> (r: String)
    ensures
        r@ == module_name(source_map@),
{
    match source_map.get_filename(0) {
        Some(name) => own(name),
        None => own("<unknown>"),
    }
}

/// What the analyzer knows once the enumeration constants of a unit were
/// collected.
pub open spec fn with_constants(st: State, ds: Seq<ExternalDeclaration>) -> State {
    State { enums: unit_constants(st, ds, 0, Map::empty()), ..st }
}

/// The definitions of a unit before tags are replaced in them.
pub open spec fn all_definitions(st: State, ds: Seq<ExternalDeclaration>) -> Definitions {
    unit_definitions(
        with_constants(st, ds),
        ds,
        0,
        Definitions { order: Seq::empty(), by_tag: Map::empty() },
    )
}

/// What the analyzer knows once the tables of a unit were collected: the
/// enumeration constants that types are resolved with, and the definitions.
pub open spec fn prepared(st: State, ds: Seq<ExternalDeclaration>) -> State {
    let d = all_definitions(st, ds);
    State {
        tags: settled(d.order, d.by_tag, MAX_RESOLUTION_PASSES as nat),
        ..with_constants(st, ds)
    }
}

/// What the lowering of a translation unit starts from.
pub open spec fn lowered(
    st: State,
    ds: Seq<ExternalDeclaration>,
    files: Seq<Seq<char>>,
) -> LoweringModel {
    LoweringModel {
        module: ModuleModel {
            inline_asm: file_scope_asm(ds, ds.len() as int),
            ..empty_module(module_name(files))
        },
        enum_constants: unit_constants(prepared(st, ds), ds, 0, Map::empty()),
        enum_types: unit_enum_types(prepared(st, ds), ds, 0, Map::empty(), Map::empty()),
        typedefs: unit_typedefs(with_constants(st, ds), ds, 0, builtin_typedefs()),
        tags: all_definitions(st, ds).order,
        definitions: prepared(st, ds).tags,
        variable_types: Map::empty(),
        work: work_of(ds),
    }
}

/// Prepares the lowering of an analyzed translation unit: collects its
/// enumeration constants, typedef names, struct and union definitions and enum
/// types, and lays out the work in the order in which it is to be done.
pub fn lower_translation_unit(
    unit: &TranslationUnit,
    sema: &mut SemanticAnalyzer<'_>,
    source_map: &SourceMap,
) -> (r: Lowering)
    ensures
        final(sema)@ == prepared(old(sema)@, unit.declarations@),
        r@ == lowered(old(sema)@, unit.declarations@, source_map@),
        *final(final(sema).diagnostics) == *final(old(sema).diagnostics),
{
    let early: StringHashMap<i128> = collect_constants(unit, sema);
    sema.enum_constant_values = early;
    let typedefs: StringHashMap<CType> = collect_typedefs(unit, sema);
    let tags: Vec<String> = collect_definitions(unit, sema);
    settle_definitions(&tags, &mut sema.tag_types_by_name);
    proof {
        lemma_every_tag_is_listed(old(sema)@, unit.declarations@);
    }
    let definitions: StringHashMap<CType> = copy_listed(&tags, &sema.tag_types_by_name);
    let variable_types: StringHashMap<CType> = StringHashMap::new();
    assert(tags_of(variable_types@) =~= Map::empty());
    let (enum_constants, enum_types) = collect_constants_and_types(unit, sema);
    let mut module: IrModule = IrModule::new(name_of_module(source_map));
    add_file_scope_asm(unit, &mut module);
    Lowering {
        module,
        enum_constants,
        enum_types,
        typedefs,
        tags,
        definitions,
        variable_types,
        work: plan_work(unit),
    }
}

/// A global that a compound literal or a string became: its name is made up here.
#[derive(Debug)]
pub struct AnonymousGlobal {
    pub name: String,
    pub ty: IrType,
    pub initializer: Constant,
    pub c_type: CType,
}

/// An anonymous global, as contracts see it.
pub struct AnonymousModel {
    pub name: Seq<char>,
    pub ty: IrType,
    pub initializer: Constant,
    pub c_type: Ty,
}

impl View for AnonymousGlobal {
    type V = AnonymousModel;

    open spec fn view(&self) -> AnonymousModel {
        AnonymousModel {
            name: self.name@,
            ty: self.ty,
            initializer: self.initializer,
            c_type: self.c_type@,
        }
    }
}

/// The models of anonymous globals.
pub open spec fn anonymous_of(s: Seq<AnonymousGlobal>) -> Seq<AnonymousModel> {
    s.map_values(|g: AnonymousGlobal| g@)
}

/// What an anonymous global is in a module: nothing outside can see it, and it
/// starts with its value.
pub open spec fn hidden_global(g: AnonymousModel) -> GlobalModel {
    GlobalModel {
        name: g.name,
        ty: g.ty,
        initializer: Some(g.initializer),
        linkage: Linkage::Internal,
    }
}

/// The C types by name with those of anonymous globals.
pub open spec fn with_types_of(m: Map<Seq<char>, Ty>, added: Seq<AnonymousModel>) -> Map<
    Seq<char>,
    Ty,
>
    decreases added.len(),
{
    if added.len() == 0 {
        m
    } else {
        with_types_of(m, added.drop_last()).insert(added.last().name, added.last().c_type)
    }
}

/// A module with anonymous globals.
pub open spec fn with_anonymous(m: ModuleModel, added: Seq<AnonymousModel>) -> ModuleModel {
    ModuleModel {
        globals: m.globals + added.map_values(|g: AnonymousModel| hidden_global(g)),
        global_c_types: with_types_of(m.global_c_types, added),
        ..m
    }
}

/// Adds the globals that compound literals became. They belong to this
/// translation unit alone.
pub fn add_anonymous_globals(module: &mut IrModule, globals: Vec<AnonymousGlobal>)
    ensures
        final(module)@ == with_anonymous(old(module)@, anonymous_of(globals@)),
{
    let ghost before = module@;
    let ghost all = anonymous_of(globals@);
    let ghost n: int = 0;
    let mut rest: Vec<AnonymousGlobal> = globals;
    assert(with_anonymous(before, all.take(0)).globals =~= before.globals);
    assert(anonymous_of(rest@) =~= all.skip(0));
    while rest.len() > 0
        invariant
            0 <= n <= all.len(),
            rest@.len() == all.len() - n,
            anonymous_of(rest@) == all.skip(n),
            module@ == with_anonymous(before, all.take(n)),
        decreases rest@.len(),
    {
        let ghost left = rest@;
        let g: AnonymousGlobal = rest.remove(0);
        proof {
            assert(anonymous_of(left)[0] == all.skip(n)[0]);
            assert(g@ == all[n]);
            assert(anonymous_of(rest@) =~= all.skip(n + 1)) by {
                assert forall|i: int| 0 <= i < rest@.len() implies anonymous_of(rest@)[i]
                    == all.skip(n + 1)[i] by {
                    assert(anonymous_of(left)[i + 1] == all.skip(n)[i + 1]);
                }
            }
            assert(all.take(n + 1).drop_last() =~= all.take(n));
        }
        let mut global: GlobalVariable = GlobalVariable::new(
            own(g.name.as_str()),
            g.ty,
            Some(g.initializer),
        );
        global.linkage = Linkage::Internal;
        module.add_global(global);
        module.set_global_c_type(g.name, g.c_type);
        proof {
            assert(module@.globals =~= with_anonymous(before, all.take(n + 1)).globals);
            n = n + 1;
        }
    }
    assert(all.take(n) =~= all);
}

/// Makes the types of the globals of a module known to `typeof`, where a name has
/// no type yet.
pub fn seed_typeof_context(types: &mut StringHashMap<CType>, module: &IrModule)
    ensures
        tags_of(final(types)@) == module@.global_c_types.union_prefer_right(
            tags_of(old(types)@),
        ),
{
    module.share_c_types(types)
}

/// Between the globals of a translation unit and its function bodies: `typeof`
/// knows the globals, and those that compound literals became are added.
pub open spec fn bodies_begun(l: LoweringModel, anonymous: Seq<AnonymousModel>) -> LoweringModel {
    LoweringModel {
        variable_types: l.module.global_c_types.union_prefer_right(l.variable_types),
        module: with_anonymous(l.module, anonymous),
        ..l
    }
}

/// Passes from the globals of a translation unit to its function bodies.
pub fn begin_bodies(l: &mut Lowering, anonymous: Vec<AnonymousGlobal>)
    ensures
        final(l)@ == bodies_begun(old(l)@, anonymous_of(anonymous@)),
{
    seed_typeof_context(&mut l.variable_types, &l.module);
    add_anonymous_globals(&mut l.module, anonymous);
}

/// Ends the lowering of a translation unit: the module, or an error that tells
/// how many errors were reported.
pub fn finish_lowering(module: IrModule, diagnostics: &DiagnosticEngine) -> (r: Result<
    IrModule,
    LoweringError,
>)
    ensures
        match r {
            Ok(m) => m == module && !any_error(diagnostics@),
            Err(e) => any_error(diagnostics@) && (e matches LoweringError::InternalError {
                message,
            } && message@ == "IR lowering produced "@ + decimal(
                count_of(diagnostics@, Severity::Error),
            ) + " error(s)"@),
        },
{
    if diagnostics.has_errors() {
        let n: String = format_u64(diagnostics.error_count() as u64);
        return Err(
            LoweringError::InternalError {
                message: concat3("IR lowering produced ", n.as_str(), " error(s)"),
            },
        );
    }
    Ok(module)
}

} // verus!
