//! Analysis of function definitions and of whole translation units.

use crate::common::diagnostics::{any_error, Span};
use crate::common::layout::tags_of;
use crate::common::string_interner::Symbol;
use crate::common::text::own;
use crate::common::types::{copy_types, types_of, CType, Ty};
use crate::frontend::parser::ast::{
    BlockItem, Declaration, Declarator, DirectDeclarator, ExternalDeclaration, FunctionDefinition,
    InitDeclarator, ParameterDeclaration, TranslationUnit,
};
use crate::frontend::sema::analysis::{asm_checked, block, declaration};
use crate::frontend::sema::analyzer::SemanticAnalyzer;
use crate::frontend::sema::attribute_handler::{attr_of, attrs_of, Attr, ValidatedAttribute};
use crate::frontend::sema::attributes::validated;
use crate::frontend::sema::laws::{
    is_sound, lemma_function_definition, lemma_surroundings_stay,
};
use crate::frontend::sema::resolve::{base_type, full_type};
use crate::frontend::sema::scope::{
    innermost_labels, labels_checked, ordinary_declared, ScopeKind, SymbolId,
};
use crate::frontend::sema::specifiers::{
    apply_pointers, behind_pointers, direct_declarator_has_nested_function, direct_name,
    extract_declarator_name, holds_function, resolve_storage_class, storage_of,
};
use crate::frontend::sema::state::State;
use crate::frontend::sema::symbol_table::{
    attributed, declared, defined, function_symbol, tentative_settled, usage_checked, Linkage,
    StorageClass, SymbolEntry, SymbolKind, SymbolModel, SymbolsModel,
};
use std::collections::HashMap;
use vstd::hash_map::StringHashMap;
use vstd::prelude::*;

verus! {

broadcast use crate::common::types::group_type_models;

/// The name of a parameter, if it has one.
pub open spec fn parameter_name(p: ParameterDeclaration) -> Option<Symbol> {
    match p.declarator {
        Some(d) => Some(direct_name(d.direct)),
        None => None,
    }
}

/// The names of the parameters of the function that a declarator declares. Where
/// that function returns a pointer to a function, the parameters are those of the
/// inner function declarator.
pub open spec fn parameter_names(d: DirectDeclarator) -> Seq<Option<Symbol>>
    decreases d,
{
    match d {
        DirectDeclarator::Function { base, params, .. } => match *base {
            DirectDeclarator::Parenthesized(inner) => if holds_function(inner.direct) {
                parameter_names(inner.direct)
            } else {
                params@.map_values(|p: ParameterDeclaration| parameter_name(p))
            },
            _ => params@.map_values(|p: ParameterDeclaration| parameter_name(p)),
        },
        DirectDeclarator::Parenthesized(inner) => parameter_names(inner.direct),
        _ => Seq::empty(),
    }
}

/// The types by name, with those of the declarators from the `j`-th on.
pub open spec fn with_declarators(
    st: State,
    base: Ty,
    ds: Seq<InitDeclarator>,
    j: int,
    m: Map<Seq<char>, Ty>,
) -> Map<Seq<char>, Ty>
    decreases ds.len() - j,
{
    if j < 0 || j >= ds.len() {
        m
    } else {
        let name = st.text(direct_name(ds[j].declarator.direct));
        let t = full_type(st, base, ds[j].declarator);
        with_declarators(st, base, ds, j + 1, m.insert(name, t))
    }
}

/// The types by name, with those of the old-style declarations from the `i`-th
/// on.
pub open spec fn with_old_style(
    st: State,
    decls: Seq<Declaration>,
    i: int,
    m: Map<Seq<char>, Ty>,
) -> Map<Seq<char>, Ty>
    decreases decls.len() - i,
{
    if i < 0 || i >= decls.len() {
        m
    } else {
        let d = decls[i];
        with_old_style(
            st,
            decls,
            i + 1,
            with_declarators(st, base_type(st, d.specifiers), d.declarators@, 0, m),
        )
    }
}

/// The type of the parameter at `i`, where `known` holds the types that old-style
/// declarations give and `types` those of the declarator.
pub open spec fn old_style_type(
    st: State,
    names: Seq<Option<Symbol>>,
    types: Seq<Ty>,
    known: Map<Seq<char>, Ty>,
    i: int,
) -> Ty {
    if names[i] is Some && known.contains_key(st.text(names[i]->0)) {
        known[st.text(names[i]->0)]
    } else if i < types.len() {
        types[i]
    } else {
        Ty::Int
    }
}

/// The types of the parameters of a function. An old-style definition gives each
/// name the type of its declaration; one without a declaration is an `int`.
pub open spec fn parameter_types(st: State, f: FunctionDefinition, types: Seq<Ty>) -> Seq<Ty> {
    if f.old_style_params@.len() == 0 {
        types
    } else {
        let names = parameter_names(f.declarator.direct);
        let known = with_old_style(st, f.old_style_params@, 0, Map::empty());
        Seq::new(names.len(), |i: int| old_style_type(st, names, types, known, i))
    }
}

/// The return type, the parameter types and whether more arguments may follow.
#[verifier::opaque]
pub open spec fn signature(st: State, f: FunctionDefinition) -> (Ty, Seq<Ty>, bool) {
    let base = base_type(st, f.specifiers);
    match full_type(st, base, f.declarator) {
        Ty::Function { return_type, params, variadic } => (
            *return_type,
            parameter_types(st, f, params),
            variadic,
        ),
        _ => (
            behind_pointers(base, f.declarator.pointer),
            parameter_types(st, f, Seq::empty()),
            false,
        ),
    }
}

/// The symbols after a symbol was given the attributes from the `i`-th on.
pub open spec fn attributes_given(
    t: SymbolsModel,
    id: SymbolId,
    attrs: Seq<Attr>,
    i: int,
) -> SymbolsModel
    decreases attrs.len() - i,
{
    if i < 0 || i >= attrs.len() {
        t
    } else {
        attributes_given(attributed(t, id, attrs[i]), id, attrs, i + 1)
    }
}

/// After a function was declared and defined at file scope.
#[verifier::opaque]
pub open spec fn function_declared(st: State, f: FunctionDefinition, ty: Ty) -> State {
    let name = direct_name(f.declarator.direct);
    let attrs = validated(st, f.attributes@, f.specifiers.attributes@);
    let d = declared(
        st.symbols,
        st.log,
        function_symbol(name, ty, storage_of(f.specifiers.storage_class), f.span),
    );
    match d.2 {
        Some(id) => State {
            symbols: attributes_given(defined(d.0, id), id, attrs, 0),
            log: d.1,
            scopes: ordinary_declared(st.scopes, name, id),
            ..st
        },
        None => State { symbols: d.0, log: d.1, ..st },
    }
}

/// A parameter, as the symbol table holds it.
pub open spec fn parameter_symbol(name: Symbol, ty: Ty, span: Span) -> SymbolModel {
    SymbolModel {
        name,
        ty,
        kind: SymbolKind::Variable,
        linkage: Linkage::Unlinked,
        storage_class: StorageClass::Auto,
        is_defined: true,
        is_tentative: false,
        span,
        attributes: Seq::empty(),
        is_weak: false,
        visibility: None,
        section: None,
        is_used: false,
        scope_depth: 0,
    }
}

/// After a parameter was declared.
pub open spec fn parameter_declared(st: State, name: Symbol, ty: Ty, span: Span) -> State {
    let d = declared(st.symbols, st.log, parameter_symbol(name, ty, span));
    match d.2 {
        Some(id) => State {
            symbols: d.0,
            log: d.1,
            scopes: ordinary_declared(st.scopes, name, id),
            ..st
        },
        None => State { symbols: d.0, log: d.1, ..st },
    }
}

/// After the named parameters from the `i`-th on were declared.
pub open spec fn parameters_declared(
    st: State,
    types: Seq<Ty>,
    names: Seq<Option<Symbol>>,
    i: int,
    span: Span,
) -> State
    decreases types.len() - i,
{
    if i < 0 || i >= types.len() {
        st
    } else {
        let next = if i < names.len() && names[i] is Some {
            parameter_declared(st, names[i]->0, types[i], span)
        } else {
            st
        };
        parameters_declared(next, types, names, i + 1, span)
    }
}

/// At the end of a function body: every label that is used must be defined.
#[verifier::opaque]
pub open spec fn body_left(st: State) -> State {
    State { log: labels_checked(st.log, innermost_labels(st.scopes), 0), ..st }.leave()
}

/// The body of a function, which is in no loop and in no switch. What holds for the
/// surroundings is put back after it, whatever the body reports.
pub open spec fn body_analyzed(st: State, return_type: Ty, items: Seq<BlockItem>) -> State {
    let inside = State {
        return_type: Some(return_type),
        in_loop: false,
        in_switch: false,
        cases: Map::empty(),
        has_default: false,
        ..st
    };
    State {
        return_type: st.return_type,
        in_loop: st.in_loop,
        in_switch: st.in_switch,
        cases: st.cases,
        has_default: st.has_default,
        ..body_left(block(inside, items, 0))
    }
}

/// A function definition.
pub open spec fn function_definition(st: State, f: FunctionDefinition) -> State {
    let sig = signature(st, f);
    let ty = Ty::Function { return_type: Box::new(sig.0), params: sig.1, variadic: sig.2 };
    let st1 = function_declared(st, f, ty).enter(ScopeKind::Function);
    let st2 = parameters_declared(
        st1,
        sig.1,
        parameter_names(f.declarator.direct),
        0,
        f.span,
    );
    body_analyzed(st2, sig.0, f.body.items@)
}

/// A declaration at file scope.
pub open spec fn external_declaration(st: State, d: ExternalDeclaration) -> (State, bool) {
    match d {
        ExternalDeclaration::FunctionDefinition(f) => (function_definition(st, *f), true),
        ExternalDeclaration::Declaration(x) => declaration(st, *x),
        ExternalDeclaration::AsmStatement(a) => (asm_checked(st, a), true),
        ExternalDeclaration::Empty => (st, true),
    }
}

/// The external declarations from the `i`-th on. What one of them reports does
/// not keep the next from being analyzed.
pub open spec fn external_declarations(st: State, ds: Seq<ExternalDeclaration>, i: int) -> State
    decreases ds.len() - i,
{
    if i < 0 || i >= ds.len() {
        st
    } else {
        external_declarations(external_declaration(st, ds[i]).0, ds, i + 1)
    }
}

/// At the end of a translation unit: tentative definitions become definitions,
/// and what nothing uses is reported.
pub open spec fn finalized(st: State) -> State {
    let symbols = tentative_settled(st.symbols);
    State { symbols, log: usage_checked(st.log, symbols.entries, st.names, 0), ..st }
}

/// The names of the parameters that a declarator declares.
pub fn extract_function_params(d: &Declarator) -> (r: Vec<Option<Symbol>>)
    ensures
        r@ == parameter_names(d.direct),
{
    extract_function_params_from_dd(&d.direct)
}

fn extract_function_params_from_dd(d: &DirectDeclarator) -> (r: Vec<Option<Symbol>>)
    ensures
        r@ == parameter_names(*d),
    decreases d,
{
    match d {
        DirectDeclarator::Function { base, params, .. } => {
            match &**base {
                DirectDeclarator::Parenthesized(inner) => {
                    if direct_declarator_has_nested_function(&inner.direct) {
                        return extract_function_params_from_dd(&inner.direct);
                    }
                },
                _ => {},
            }
            names_of(params)
        },
        DirectDeclarator::Parenthesized(inner) => extract_function_params_from_dd(&inner.direct),
        _ => Vec::new(),
    }
}

fn names_of(params: &Vec<ParameterDeclaration>) -> (r: Vec<Option<Symbol>>)
    ensures
        r@ == params@.map_values(|p: ParameterDeclaration| parameter_name(p)),
{
    let mut out: Vec<Option<Symbol>> = Vec::new();
    let mut i: usize = 0;
    while i < params.len()
        invariant
            i <= params@.len(),
            out@.len() == i,
            forall|j: int| 0 <= j < i ==> #[trigger] out@[j] == parameter_name(params@[j]),
        decreases params@.len() - i,
    {
        match &params[i].declarator {
            Some(d) => out.push(Some(extract_declarator_name(d))),
            None => out.push(None),
        }
        i += 1;
    }
    assert(out@ =~= params@.map_values(|p: ParameterDeclaration| parameter_name(p)));
    out
}

impl<'a> SemanticAnalyzer<'a> {
    /// Adds the types that one old-style declaration gives to its names.
    fn note_declarators(
        &self,
        base: &CType,
        ds: &Vec<InitDeclarator>,
        known: &mut StringHashMap<CType>,
    )
        ensures
            tags_of(final(known)@) == with_declarators(
                self@,
                base@,
                ds@,
                0,
                tags_of(old(known)@),
            ),
    {
        let ghost m = tags_of(known@);
        let mut j: usize = 0;
        while j < ds.len()
            invariant
                j <= ds@.len(),
                with_declarators(self@, base@, ds@, j as int, tags_of(known@))
                    == with_declarators(self@, base@, ds@, 0, m),
            decreases ds@.len() - j,
        {
            let t: CType = self.type_of_declarator(base.clone(), &ds[j].declarator);
            let name: Symbol = extract_declarator_name(&ds[j].declarator);
            let text: String = own(self.interner.resolve(name));
            let ghost before = known@;
            let ghost model = t@;
            known.insert(text, t);
            assert(tags_of(known@) =~= tags_of(before).insert(self@.text(name), model));
            j += 1;
        }
    }

    /// The types that old-style declarations give to parameter names.
    fn old_style_types(&self, decls: &Vec<Declaration>) -> (r: StringHashMap<CType>)
        ensures
            tags_of(r@) == with_old_style(self@, decls@, 0, Map::empty()),
    {
        let mut known: StringHashMap<CType> = StringHashMap::new();
        assert(tags_of(known@) =~= Map::empty());
        let mut i: usize = 0;
        while i < decls.len()
            invariant
                i <= decls@.len(),
                with_old_style(self@, decls@, i as int, tags_of(known@)) == with_old_style(
                    self@,
                    decls@,
                    0,
                    Map::empty(),
                ),
            decreases decls@.len() - i,
        {
            let base: CType = self.type_of_specifiers(&decls[i].specifiers);
            self.note_declarators(&base, &decls[i].declarators, &mut known);
            i += 1;
        }
        known
    }

    /// The type of one parameter of an old-style definition.
    fn old_style_parameter(
        &self,
        names: &Vec<Option<Symbol>>,
        types: &Vec<CType>,
        known: &StringHashMap<CType>,
        i: usize,
    ) -> (r: CType)
        requires
            i < names@.len(),
        ensures
            r@ == old_style_type(self@, names@, types_of(types@), tags_of(known@), i as int),
    {
        match &names[i] {
            Some(name) => {
                match known.get(self.interner.resolve(*name)) {
                    Some(t) => {
                        return t.clone();
                    },
                    None => {},
                }
            },
            None => {},
        }
        if i < types.len() {
            assert(types_of(types@)[i as int] == types@[i as int]@);
            types[i].clone()
        } else {
            CType::Int
        }
    }

    /// The types of the parameters of a function, where its declarator gives
    /// `types`.
    fn parameter_types(&self, f: &FunctionDefinition, types: Vec<CType>) -> (r: Vec<CType>)
        ensures
            types_of(r@) == parameter_types(self@, *f, types_of(types@)),
    {
        if f.old_style_params.len() == 0 {
            return types;
        }
        let names: Vec<Option<Symbol>> = extract_function_params(&f.declarator);
        let known: StringHashMap<CType> = self.old_style_types(&f.old_style_params);
        let mut out: Vec<CType> = Vec::new();
        let mut i: usize = 0;
        while i < names.len()
            invariant
                i <= names@.len(),
                out@.len() == i,
                forall|j: int|
                    0 <= j < i ==> (#[trigger] out@[j])@ == old_style_type(
                        self@,
                        names@,
                        types_of(types@),
                        tags_of(known@),
                        j,
                    ),
            decreases names@.len() - i,
        {
            out.push(self.old_style_parameter(&names, &types, &known, i));
            i += 1;
        }
        assert(types_of(out@) =~= parameter_types(self@, *f, types_of(types@)));
        out
    }

    /// The return type, the parameter types and whether more arguments may
    /// follow.
    fn signature_of(&self, f: &FunctionDefinition) -> (r: (CType, Vec<CType>, bool))
        ensures
            r.0@ == signature(self@, *f).0,
            types_of(r.1@) == signature(self@, *f).1,
            r.2 == signature(self@, *f).2,
    {
        proof {
            reveal(signature);
        }
        let base: CType = self.type_of_specifiers(&f.specifiers);
        let full: CType = self.type_of_declarator(base.clone(), &f.declarator);
        match full {
            CType::Function { return_type, params, variadic } => {
                let types: Vec<CType> = self.parameter_types(f, params);
                (*return_type, types, variadic)
            },
            _ => {
                let none: Vec<CType> = Vec::new();
                assert(types_of(none@) =~= Seq::<Ty>::empty());
                let types: Vec<CType> = self.parameter_types(f, none);
                (apply_pointers(base, &f.declarator.pointer), types, false)
            },
        }
    }

    /// Gives a symbol the attributes of its declaration.
    fn propagate_attributes(&mut self, id: SymbolId, attrs: &Vec<ValidatedAttribute>)
        ensures
            final(self)@ == (State {
                symbols: attributes_given(old(self)@.symbols, id, attrs_of(attrs@), 0),
                ..old(self)@
            }),
            *final(final(self).diagnostics) == *final(old(self).diagnostics),
    {
        let ghost st = self@;
        let ghost engine = *final(self.diagnostics);
        let mut i: usize = 0;
        #[verifier::loop_isolation(false)]
        while i < attrs.len()
            invariant
                i <= attrs@.len(),
                attributes_given(self@.symbols, id, attrs_of(attrs@), i as int)
                    == attributes_given(st.symbols, id, attrs_of(attrs@), 0),
                self@ == (State { symbols: self@.symbols, ..st }),
                *final(self.diagnostics) == engine,
            decreases attrs@.len() - i,
        {
            assert(attrs_of(attrs@)[i as int] == attr_of(attrs@[i as int]));
            self.symbols.add_attribute(id, &attrs[i]);
            i += 1;
        }
    }

    /// Declares a function at file scope as one that is defined.
    fn declare_function_symbol(&mut self, f: &FunctionDefinition, ty: CType)
        ensures
            final(self)@ == function_declared(old(self)@, *f, ty@),
            *final(final(self).diagnostics) == *final(old(self).diagnostics),
    {
        proof {
            reveal(function_declared);
        }
        let name: Symbol = extract_declarator_name(&f.declarator);
        let attrs: Vec<ValidatedAttribute> = self.validate_attributes_for_context(
            &f.attributes,
            &f.specifiers.attributes,
        );
        let storage: StorageClass = resolve_storage_class(&f.specifiers);
        match self.symbols.declare_function(name, ty, storage, f.span, self.diagnostics) {
            Ok(id) => {
                self.symbols.define(id);
                self.scopes.declare_ordinary(name, id);
                self.propagate_attributes(id, &attrs);
            },
            Err(_) => {},
        }
    }

    fn declare_parameter(&mut self, name: Symbol, ty: CType, span: Span)
        ensures
            final(self)@ == parameter_declared(old(self)@, name, ty@, span),
            *final(final(self).diagnostics) == *final(old(self).diagnostics),
    {
        let entry = SymbolEntry {
            name,
            ty,
            kind: SymbolKind::Variable,
            linkage: Linkage::Unlinked,
            storage_class: StorageClass::Auto,
            is_defined: true,
            is_tentative: false,
            span,
            attributes: Vec::new(),
            is_weak: false,
            visibility: None,
            section: None,
            is_used: false,
            scope_depth: 0,
        };
        assert(entry@.attributes =~= Seq::<Attr>::empty());
        match self.symbols.declare(entry, self.diagnostics) {
            Ok(id) => {
                self.scopes.declare_ordinary(name, id);
            },
            Err(_) => {},
        }
    }

    fn declare_parameters(
        &mut self,
        types: &Vec<CType>,
        names: &Vec<Option<Symbol>>,
        span: Span,
    )
        ensures
            final(self)@ == parameters_declared(
                old(self)@,
                types_of(types@),
                names@,
                0,
                span,
            ),
            *final(final(self).diagnostics) == *final(old(self).diagnostics),
    {
        let ghost st = self@;
        let ghost engine = *final(self.diagnostics);
        let mut i: usize = 0;
        #[verifier::loop_isolation(false)]
        while i < types.len()
            invariant
                i <= types@.len(),
                parameters_declared(self@, types_of(types@), names@, i as int, span)
                    == parameters_declared(st, types_of(types@), names@, 0, span),
                *final(self.diagnostics) == engine,
            decreases types@.len() - i,
        {
            assert(types_of(types@)[i as int] == types@[i as int]@);
            if i < names.len() {
                match names[i] {
                    Some(name) => {
                        self.declare_parameter(name, types[i].clone(), span);
                    },
                    None => {},
                }
            }
            i += 1;
        }
    }

    /// Checks the labels of a function and leaves its scope.
    fn leave_body(&mut self)
        ensures
            final(self)@ == body_left(old(self)@),
            *final(final(self).diagnostics) == *final(old(self).diagnostics),
    {
        proof {
            reveal(body_left);
        }
        self.scopes.validate_labels(self.diagnostics);
        self.symbols.leave_scope();
        self.scopes.pop_scope();
    }

    fn enter_function(&mut self)
        ensures
            final(self)@ == old(self)@.enter(ScopeKind::Function),
            *final(final(self).diagnostics) == *final(old(self).diagnostics),
    {
        self.scopes.push_scope(ScopeKind::Function);
        self.symbols.enter_scope();
    }

    fn analyze_body(&mut self, f: &FunctionDefinition, return_type: CType)
        ensures
            final(self)@ == body_analyzed(old(self)@, return_type@, f.body.items@),
            *final(final(self).diagnostics) == *final(old(self).diagnostics),
    {
        let in_loop: bool = self.in_loop;
        let in_switch: bool = self.in_switch;
        let has_default: bool = self.switch_has_default;
        let mut cases: HashMap<i128, Span> = HashMap::new();
        let mut previous: Option<CType> = Some(return_type);
        std::mem::swap(&mut self.switch_case_values, &mut cases);
        std::mem::swap(&mut self.current_function_return_type, &mut previous);
        self.in_loop = false;
        self.in_switch = false;
        self.switch_has_default = false;
        self.analyze_compound_statement(&f.body.items);
        self.leave_body();
        self.current_function_return_type = previous;
        self.in_loop = in_loop;
        self.in_switch = in_switch;
        self.switch_has_default = has_default;
        self.switch_case_values = cases;
    }

    /// Analyzes a function definition: declares the function, then its
    /// parameters and its body in a scope of their own. Whatever the body reports,
    /// that scope is left after it, and what holds for the surroundings is back.
    pub fn analyze_function_definition(&mut self, f: &FunctionDefinition) -> (r: Result<(), ()>)
        ensures
            final(self)@ == function_definition(old(self)@, *f),
            is_sound(old(self)@) ==> is_sound(final(self)@) && final(self)@.scopes.len() == old(
                self,
            )@.scopes.len(),
            final(self)@.return_type == old(self)@.return_type,
            final(self)@.in_loop == old(self)@.in_loop,
            final(self)@.in_switch == old(self)@.in_switch,
            final(self)@.cases == old(self)@.cases,
            final(self)@.has_default == old(self)@.has_default,
            r is Ok,
            *final(final(self).diagnostics) == *final(old(self).diagnostics),
    {
        proof {
            if is_sound(self@) {
                lemma_function_definition(self@, *f);
            }
            lemma_surroundings_stay(self@, *f);
        }
        let (return_type, types, variadic) = self.signature_of(f);
        let ty = CType::Function {
            return_type: Box::new(return_type.clone()),
            params: copy_types(&types),
            variadic,
        };
        let names: Vec<Option<Symbol>> = extract_function_params(&f.declarator);
        self.declare_function_symbol(f, ty);
        self.enter_function();
        self.declare_parameters(&types, &names, f.span);
        self.analyze_body(f, return_type);
        Ok(())
    }

    /// Analyzes a declaration at file scope.
    pub fn analyze_external_declaration(&mut self, decl: &ExternalDeclaration) -> (r: Result<
        (),
        (),
    >)
        ensures
            final(self)@ == external_declaration(old(self)@, *decl).0,
            (r is Ok) == external_declaration(old(self)@, *decl).1,
            *final(final(self).diagnostics) == *final(old(self).diagnostics),
    {
        match decl {
            ExternalDeclaration::FunctionDefinition(f) => self.analyze_function_definition(f),
            ExternalDeclaration::Declaration(d) => self.analyze_declaration(d),
            ExternalDeclaration::AsmStatement(a) => self.analyze_asm_statement(a),
            ExternalDeclaration::Empty => Ok(()),
        }
    }

    /// Analyzes a whole translation unit. It succeeds if no error was ever
    /// reported to the diagnostic engine.
    pub fn analyze(&mut self, unit: &TranslationUnit) -> (r: Result<(), ()>)
        ensures
            final(self)@ == external_declarations(old(self)@, unit.declarations@, 0),
            (r is Ok) == !any_error(final(self)@.log),
            *final(final(self).diagnostics) == *final(old(self).diagnostics),
    {
        let ghost st = self@;
        let ghost engine = *final(self.diagnostics);
        let mut i: usize = 0;
        #[verifier::loop_isolation(false)]
        while i < unit.declarations.len()
            invariant
                i <= unit.declarations@.len(),
                external_declarations(self@, unit.declarations@, i as int)
                    == external_declarations(st, unit.declarations@, 0),
                *final(self.diagnostics) == engine,
            decreases unit.declarations@.len() - i,
        {
            let _ = self.analyze_external_declaration(&unit.declarations[i]);
            i += 1;
        }
        if self.diagnostics.has_errors() {
            Err(())
        } else {
            Ok(())
        }
    }

    /// Ends the analysis: settles tentative definitions and warns of what is not
    /// used. It succeeds if no error was ever reported to the diagnostic engine.
    pub fn finalize(&mut self) -> (r: Result<(), ()>)
        ensures
            final(self)@ == finalized(old(self)@),
            (r is Ok) == !any_error(final(self)@.log),
            *final(final(self).diagnostics) == *final(old(self).diagnostics),
    {
        self.symbols.finalize_tentative_definitions();
        self.symbols.check_unused_symbols(self.diagnostics, self.interner);
        if self.diagnostics.has_errors() {
            Err(())
        } else {
            Ok(())
        }
    }
}

} // verus!
