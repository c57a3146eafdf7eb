//! What a name means once it is declared.

use crate::common::diagnostics::{warning_at, DiagnosticModel, Severity, Span};
use crate::common::string_interner::{text_of, Symbol};
use crate::common::text::has_prefix;
use crate::common::types::Ty;
use crate::frontend::parser::ast;
use crate::frontend::parser::ast::{
    DeclarationSpecifiers, DirectDeclarator, Expression, FunctionDefinition, InitDeclarator,
    Initializer,
};
use crate::frontend::sema::analysis::{
    declarator, expression, initializer, name_declared, object_symbol, optional_initializer,
    says_auto,
};
use crate::frontend::sema::attribute_handler::Attr;
use crate::frontend::sema::attributes::validated;
use crate::frontend::sema::constants::element_count;
use crate::frontend::sema::definitions::{asks_for, fields_in, is_packed};
use crate::frontend::sema::functions::{
    attributes_given, finalized, function_declared, parameter_declared, parameter_names,
    parameter_types, signature, with_old_style,
};
use crate::frontend::sema::identifiers::{identifier_use, undeclared};
use crate::frontend::sema::resolve::{base_type, declarator_type, full_type, specified_type};
use crate::frontend::sema::scope::{
    lemma_declared_is_found, ordinary_declared, ordinary_in, SymbolId,
};
use crate::frontend::sema::specifiers::{direct_name, storage_of};
use crate::frontend::sema::state::State;
use crate::frontend::sema::symbol_table::{
    added, attributed, defined, function_symbol, is_idle, linkage_of, merged, own_symbol,
    usage_checked, Linkage, StorageClass, SymbolKind, SymbolModel, SymbolsModel,
};
use vstd::prelude::*;

verus! {

/// Whether a name is new in the innermost scope, and there is room for it.
pub open spec fn is_free(st: State, name: Symbol) -> bool {
    &&& st.scopes.len() > 0
    &&& st.symbols.visible.len() > 0
    &&& st.symbols.entries.len() < usize::MAX
    &&& own_symbol(st.symbols, name) is None
}

/// A variable or function that is declared without an initializer is of the type that it
/// was declared with, and nothing is reported. Other names keep their meaning.
pub proof fn lemma_declared_name_has_its_type(
    st: State,
    specs: DeclarationSpecifiers,
    d: InitDeclarator,
    ty: Ty,
    other: Symbol,
)
    requires
        is_free(st, direct_name(d.declarator.direct)),
        specs.storage_class != Some(ast::StorageClass::Typedef),
        d.initializer is None,
        other != direct_name(d.declarator.direct),
        st.declared_type(other) is Some,
    ensures
        ({
            let r = name_declared(st, specs, d, ty);
            &&& r.declared_type(direct_name(d.declarator.direct)) == Some(ty)
            &&& r.declared_type(other) == st.declared_type(other)
            &&& r.log == st.log
        }),
{
    reveal(name_declared);
    let name = direct_name(d.declarator.direct);
    lemma_declared_is_found(st.scopes, name, SymbolId(st.symbols.entries.len() as usize), other);
}

/// An array without a length that is declared with an initializer has the length that
/// the initializer makes, and its elements stay what they were; any other type stays.
pub proof fn lemma_initializer_completes_the_array(
    st: State,
    specs: DeclarationSpecifiers,
    d: InitDeclarator,
    ty: Ty,
    init: Initializer,
)
    requires
        is_free(st, direct_name(d.declarator.direct)),
        specs.storage_class != Some(ast::StorageClass::Typedef),
        d.initializer == Some(init),
        element_count(init, st.enums, st.names) > 0,
    ensures
        ({
            let r = name_declared(st, specs, d, ty);
            let t = r.declared_type(direct_name(d.declarator.direct));
            let n = element_count(init, st.enums, st.names);
            &&& t is Some
            &&& ty matches Ty::Array(elem, None) ==> t->0 == Ty::Array(elem, Some(n))
            &&& !(ty is Array) && !(ty is Qualified) ==> t->0 == ty
            &&& ty matches Ty::Array(_, Some(_)) ==> t->0 == ty
            &&& r.symbol(direct_name(d.declarator.direct)) matches Some(e) && e.is_defined
                && !e.is_tentative
        }),
{
    reveal(name_declared);
    let name = direct_name(d.declarator.direct);
    let id = SymbolId(st.symbols.entries.len() as usize);
    lemma_declared_is_found(st.scopes, name, id, name);
    let attrs = validated(st, d.declarator.attributes@, specs.attributes@);
    let e = object_symbol(st, name, ty, attrs, storage_of(specs.storage_class), true, d.span);
    let t = added(st.symbols, e);
    assert(t.entries[id.0 as int].ty == ty);
}

/// A name that is declared as a typedef stands for the type that it was declared with. A
/// struct or union keeps its members; it is packed if it was or if the typedef says so.
pub proof fn lemma_typedef_stands_for_its_type(
    st: State,
    specs: DeclarationSpecifiers,
    d: InitDeclarator,
    ty: Ty,
)
    requires
        is_free(st, direct_name(d.declarator.direct)),
        specs.storage_class == Some(ast::StorageClass::Typedef),
    ensures
        ({
            let r = name_declared(st, specs, d, ty);
            let t = r.declared_type(direct_name(d.declarator.direct));
            &&& t is Some
            &&& !(ty is Struct) && !(ty is Union) ==> t->0 == ty
            &&& fields_in(t->0) == fields_in(ty)
            &&& is_packed(ty) ==> is_packed(t->0)
            &&& asks_for(ty) is Some ==> asks_for(t->0) is Some && asks_for(t->0)->0
                >= asks_for(ty)->0
            &&& r.scopes.last().typedefs.contains(direct_name(d.declarator.direct).0)
            &&& r.log == st.log
        }),
{
    reveal(name_declared);
    let name = direct_name(d.declarator.direct);
    let id = SymbolId(st.symbols.entries.len() as usize);
    lemma_declared_is_found(st.scopes, name, id, name);
    let declared = ordinary_declared(st.scopes, name, id);
    let r = name_declared(st, specs, d, ty);
    assert(ordinary_in(r.scopes, name) == Some(id));
}

/// A parameter is of the type that it was declared with.
pub proof fn lemma_parameter_has_its_type(st: State, name: Symbol, ty: Ty, span: Span)
    requires
        is_free(st, name),
    ensures
        parameter_declared(st, name, ty, span).declared_type(name) == Some(ty),
        parameter_declared(st, name, ty, span).log == st.log,
{
    lemma_declared_is_found(
        st.scopes,
        name,
        SymbolId(st.symbols.entries.len() as usize),
        name,
    );
}

/// At file scope a name can be seen from other files unless it is `static` or a typedef;
/// in a function only an `extern` one can. What `static` hides at file scope is seen in
/// its file alone.
pub proof fn lemma_linkage(storage: StorageClass, depth: u32)
    ensures
        linkage_of(storage, depth) == Linkage::External <==> storage == StorageClass::Extern || (
        depth == 0 && storage != StorageClass::Static && storage != StorageClass::Typedef),
        linkage_of(storage, depth) == Linkage::Internal <==> storage == StorageClass::Static
            && depth == 0,
{
}

/// Two declarations of one name together define it if one of them does, hide it if the
/// first did, and leave it tentative only where none defines it. A type without an array
/// length does not take away a known one.
pub proof fn lemma_declarations_are_merged(old: SymbolModel, new: SymbolModel)
    ensures
        ({
            let m = merged(old, new);
            &&& m.name == old.name && m.kind == old.kind
            &&& m.is_defined <==> old.is_defined || new.is_defined
            &&& m.is_tentative ==> !m.is_defined
            &&& (old.is_tentative || new.is_tentative) && !m.is_defined ==> m.is_tentative
            &&& old.linkage == Linkage::Internal ==> m.linkage == Linkage::Internal
            &&& old.linkage != Linkage::Internal ==> m.linkage == new.linkage
            &&& new.ty matches Ty::Array(_, None) ==> m.ty == old.ty
            &&& !(new.ty is Array) ==> m.ty == new.ty
            &&& m.is_weak <==> old.is_weak || new.is_weak
            &&& m.attributes.len() == old.attributes.len() + new.attributes.len()
            &&& new.visibility is Some ==> m.visibility == new.visibility
            &&& new.visibility is None ==> m.visibility == old.visibility
        }),
{
}

/// At the end of a unit nothing is tentative any more: what was is defined, what was
/// defined stays so, and nothing else becomes defined.
pub proof fn lemma_nothing_stays_tentative(st: State, i: int)
    requires
        0 <= i < st.symbols.entries.len(),
    ensures
        finalized(st).symbols.entries.len() == st.symbols.entries.len(),
        !finalized(st).symbols.entries[i].is_tentative,
        finalized(st).symbols.entries[i].is_defined <==> st.symbols.entries[i].is_defined
            || st.symbols.entries[i].is_tentative,
        finalized(st).symbols.entries[i].ty == st.symbols.entries[i].ty,
{
}

/// At the end of a unit one warning is given for each symbol that is defined for this file
/// alone and not used, unless it says that this is meant; and no error.
pub proof fn lemma_idle_symbols_earn_warnings(
    log: Seq<DiagnosticModel>,
    entries: Seq<SymbolModel>,
    names: Seq<Seq<char>>,
)
    ensures
        usage_checked(log, entries, names, 0).len() == log.len() + entries.filter(
            |e: SymbolModel| is_idle(e),
        ).len(),
        forall|k: int|
            log.len() <= k < usage_checked(log, entries, names, 0).len() ==> (
            #[trigger] usage_checked(log, entries, names, 0)[k]).severity == Severity::Warning,
{
    lemma_idle_from(log, entries, names, 0, log.len() as int);
    assert(entries.skip(0) =~= entries);
}

proof fn lemma_idle_from(
    log: Seq<DiagnosticModel>,
    entries: Seq<SymbolModel>,
    names: Seq<Seq<char>>,
    i: int,
    from: int,
)
    requires
        0 <= i <= entries.len(),
        0 <= from <= log.len(),
        forall|k: int| from <= k < log.len() ==> (#[trigger] log[k]).severity == Severity::Warning,
    ensures
        usage_checked(log, entries, names, i).len() == log.len() + entries.skip(i).filter(
            |e: SymbolModel| is_idle(e),
        ).len(),
        forall|k: int|
            from <= k < usage_checked(log, entries, names, i).len() ==> (#[trigger] usage_checked(
                log,
                entries,
                names,
                i,
            )[k]).severity == Severity::Warning,
    decreases entries.len() - i,
{
    let pred = |e: SymbolModel| is_idle(e);
    if i < entries.len() {
        let one = seq![entries[i]];
        assert(entries.skip(i) =~= one + entries.skip(i + 1));
        Seq::filter_distributes_over_add(one, entries.skip(i + 1), pred);
        reveal_with_fuel(Seq::<SymbolModel>::filter, 2);
        assert(one.drop_last() =~= Seq::<SymbolModel>::empty());
        assert(one.filter(pred).len() == if is_idle(entries[i]) {
            1nat
        } else {
            0
        });
        let e = entries[i];
        let next = if is_idle(e) {
            log.push(warning_at(e.span, "'"@ + text_of(names, e.name) + "' defined but not used"@))
        } else {
            log
        };
        lemma_idle_from(next, entries, names, i + 1, from);
    } else {
        reveal(Seq::filter);
        assert(entries.skip(i).len() == 0);
    }
}

/// A name that nothing declares is a function, unless it is one of those for the name of the
/// function around it. A warning is given only of one that is taken to return an `int` and
/// to accept any arguments, and never of a builtin.
pub proof fn lemma_undeclared_names_are_functions(st: State, n: Seq<char>)
    ensures
        undeclared(st, n).0 is Function || (undeclared(st, n).0 is Pointer && (n == "__func__"@
            || n == "__FUNCTION__"@ || n == "__PRETTY_FUNCTION__"@)),
        undeclared(st, n).1 ==> (undeclared(st, n).0 matches Ty::Function {
            return_type,
            params,
            variadic,
        } && *return_type is Int && params.len() == 0 && variadic),
        has_prefix(n, "__builtin_"@) ==> !undeclared(st, n).1,
{
}

/// The use of a name that is declared reports nothing, and marks what it names as used.
pub proof fn lemma_declared_names_are_used(st: State, name: Symbol, span: Span, t: Ty)
    requires
        st.declared_type(name) == Some(t),
    ensures
        identifier_use(st, name, span).1 == t,
        identifier_use(st, name, span).0.log == st.log,
        identifier_use(st, name, span).0.scopes == st.scopes,
{
    reveal(identifier_use);
}

/// A function that is defined is of the type that its definition gives it.
pub proof fn lemma_function_has_its_type(st: State, f: FunctionDefinition, ty: Ty)
    requires
        is_free(st, direct_name(f.declarator.direct)),
    ensures
        function_declared(st, f, ty).declared_type(direct_name(f.declarator.direct)) == Some(ty),
        function_declared(st, f, ty).log == st.log,
        function_declared(st, f, ty).symbol(direct_name(f.declarator.direct)) matches Some(e)
            && e.is_defined && e.kind == SymbolKind::Function,
{
    reveal(function_declared);
    let name = direct_name(f.declarator.direct);
    let id = SymbolId(st.symbols.entries.len() as usize);
    lemma_declared_is_found(st.scopes, name, id, name);
    let attrs = validated(st, f.attributes@, f.specifiers.attributes@);
    let e = function_symbol(name, ty, storage_of(f.specifiers.storage_class), f.span);
    let t = defined(added(st.symbols, e), id);
    assert(t.entries[id.0 as int].ty == ty);
    lemma_attributes_keep_the_type(t, id, attrs, 0);
}

proof fn lemma_attributes_keep_the_type(t: SymbolsModel, id: SymbolId, attrs: Seq<Attr>, i: int)
    requires
        id.0 < t.entries.len(),
    ensures
        ({
            let r = attributes_given(t, id, attrs, i);
            &&& r.entries.len() == t.entries.len()
            &&& r.entries[id.0 as int].ty == t.entries[id.0 as int].ty
            &&& r.entries[id.0 as int].is_defined == t.entries[id.0 as int].is_defined
            &&& r.entries[id.0 as int].kind == t.entries[id.0 as int].kind
        }),
    decreases attrs.len() - i,
{
    if 0 <= i < attrs.len() {
        lemma_attributes_keep_the_type(attributed(t, id, attrs[i]), id, attrs, i + 1);
    }
}

/// A function that is defined with a prototype is of the type that its declarator gives.
pub proof fn lemma_definition_is_of_its_declared_type(st: State, f: FunctionDefinition)
    requires
        f.old_style_params@.len() == 0,
        declarator_type(
            st,
            specified_type(
                st,
                f.specifiers.type_specifiers@,
                f.specifiers.type_qualifiers@,
            ),
            f.declarator,
        ) is Function,
    ensures
        ({
            let sig = signature(st, f);
            declarator_type(
                st,
                specified_type(
                    st,
                    f.specifiers.type_specifiers@,
                    f.specifiers.type_qualifiers@,
                ),
                f.declarator,
            ) == Ty::Function { return_type: Box::new(sig.0), params: sig.1, variadic: sig.2 }
        }),
{
    reveal(signature);
    reveal(base_type);
    reveal(full_type);
}

/// In a definition of the old style each parameter whose name is declared has the type of that
/// declaration, and one without a declaration is an `int`.
pub proof fn lemma_old_style_parameters(st: State, f: FunctionDefinition, i: int, name: Symbol)
    requires
        f.old_style_params@.len() > 0,
        0 <= i < parameter_names(f.declarator.direct).len(),
        parameter_names(f.declarator.direct)[i] == Some(name),
    ensures
        ({
            let known = with_old_style(st, f.old_style_params@, 0, Map::empty());
            let ts = parameter_types(st, f, Seq::empty());
            &&& ts.len() == parameter_names(f.declarator.direct).len()
            &&& known.contains_key(st.text(name)) ==> ts[i] == known[st.text(name)]
            &&& !known.contains_key(st.text(name)) ==> ts[i] is Int
        }),
{
}

/// The names of parameters stand in the order of the parameters.
pub proof fn lemma_parameter_names(d: DirectDeclarator, i: int)
    requires
        d matches DirectDeclarator::Function { base, params, .. } && *base is Identifier && 0 <= i
            < params@.len(),
    ensures
        d matches DirectDeclarator::Function { params, .. } && parameter_names(d).len()
            == params@.len() && (params@[i].declarator matches Some(x) ==> parameter_names(d)[i]
            == Some(direct_name(x.direct))) && (params@[i].declarator is None ==> parameter_names(
            d,
        )[i] is None),
{
}

/// A name that is declared with `__auto_type` is of the type of its initializer.
pub proof fn lemma_auto_type_is_that_of_the_initializer(
    st: State,
    specs: DeclarationSpecifiers,
    base: Ty,
    d: InitDeclarator,
    e: Expression,
    t: Ty,
)
    requires
        says_auto(specs.type_specifiers@),
        specs.storage_class != Some(ast::StorageClass::Typedef),
        d.initializer matches Some(Initializer::Expression(x)) && *x == e,
        expression(st, e).1 == Some(t),
        !(t is Array) && !(t is Qualified),
        is_free(expression(st, e).0, direct_name(d.declarator.direct)),
        element_count(
            d.initializer->0,
            expression(st, e).0.enums,
            expression(st, e).0.names,
        ) > 0,
    ensures
        declarator(st, specs, base, d).declared_type(direct_name(d.declarator.direct)) == Some(t),
{
    let r = expression(st, e);
    assert(optional_initializer(st, d.initializer) == r) by {
        assert(initializer(st, d.initializer->0) == r);
    }
    lemma_initializer_completes_the_array(r.0, specs, d, t, d.initializer->0);
}

} // verus!
