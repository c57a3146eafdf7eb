//! Analysis of declarations.

use crate::common::string_interner::Symbol;
use crate::common::types::{res_ty, ty_of, CType, Ty};
use crate::frontend::parser::ast::{
    Declaration, DeclarationSpecifiers, DesignatedInitializer, Designator, InitDeclarator,
    Initializer, TypeSpecifier,
};
use crate::frontend::sema::analysis::{
    completed_array, declaration, declarator, declarators, designation, designator, initialized,
    initializer, initializer_list, is_object, is_open_array, lemma_designator_is, name_declared,
    optional_initializer, says_auto, with_typedef_attributes,
};
use crate::frontend::sema::analyzer::SemanticAnalyzer;
use crate::frontend::sema::attribute_handler::{
    any_packed, any_weak, attrs_of, find_aligned, find_section, find_visibility, ValidatedAttribute,
};
use crate::frontend::sema::attributes::merge_alignment;
use crate::frontend::sema::constants::count_initializer_elements;
use crate::frontend::sema::scope::SymbolId;
use crate::frontend::sema::specifiers::{extract_declarator_name, resolve_storage_class};
use crate::frontend::sema::symbol_table::{Linkage, StorageClass, SymbolEntry, SymbolKind};
use vstd::prelude::*;

verus! {

fn has_auto_type(specs: &Vec<TypeSpecifier>) -> (r: bool)
    ensures
        r == says_auto(specs@),
{
    let mut i: usize = 0;
    while i < specs.len()
        invariant
            i <= specs@.len(),
            forall|j: int| 0 <= j < i ==> !((#[trigger] specs@[j]) is AutoType),
        decreases specs@.len() - i,
    {
        match &specs[i] {
            TypeSpecifier::AutoType => {
                return true;
            },
            _ => {},
        }
        i += 1;
    }
    false
}

fn apply_typedef_attributes(t: CType, attrs: &Vec<ValidatedAttribute>) -> (r: CType)
    ensures
        r@ == with_typedef_attributes(t@, attrs_of(attrs@)),
{
    let wanted: Option<usize> = match find_aligned(attrs) {
        Some(n) => Some(n as usize),
        None => None,
    };
    let packs: bool = any_packed(attrs);
    match t {
        CType::Struct { name, fields, packed, aligned } => CType::Struct {
            name,
            fields,
            packed: packed || packs,
            aligned: merge_alignment(aligned, wanted),
        },
        CType::Union { name, fields, packed, aligned } => CType::Union {
            name,
            fields,
            packed: packed || packs,
            aligned: merge_alignment(aligned, wanted),
        },
        other => other,
    }
}

fn is_function(t: &CType) -> (r: bool)
    ensures
        r == (t@ is Function),
{
    match t {
        CType::Function { .. } => true,
        _ => false,
    }
}

fn can_be_object(t: &CType) -> (r: bool)
    ensures
        r == is_object(t@),
{
    match t {
        CType::Void => false,
        CType::Function { .. } => false,
        CType::Complex(_) => false,
        CType::Atomic(_) => false,
        _ => true,
    }
}

/// Whether a type is an array whose length its initializer is to give.
pub fn needs_completion(t: &CType) -> (r: bool)
    ensures
        r == is_open_array(t@),
{
    match t {
        CType::Array(_, None) => true,
        CType::Qualified(inner, _) => {
            assert(ty_of(**inner) == inner@);
            match &**inner {
                CType::Array(_, None) => true,
                _ => false,
            }
        },
        _ => false,
    }
}

/// An array that was given its length.
pub fn complete_array_type(t: &CType, count: usize) -> (r: CType)
    ensures
        r@ == completed_array(t@, count),
{
    match t {
        CType::Array(elem, None) => CType::Array(Box::new((&**elem).clone()), Some(count)),
        CType::Qualified(inner, q) => {
            assert(ty_of(**inner) == inner@);
            match &**inner {
                CType::Array(elem, None) => {
                    let a: CType = CType::Array(Box::new((&**elem).clone()), Some(count));
                    assert(a@ == Ty::Array(Box::new(ty_of(**elem)), Some(count)));
                    CType::Qualified(Box::new(a), *q)
                },
                _ => t.clone(),
            }
        },
        _ => t.clone(),
    }
}

impl<'a> SemanticAnalyzer<'a> {
    /// Analyzes a declaration: checks a static assertion, or defines the tags it
    /// holds, declares its names and analyzes their initializers.
    pub fn analyze_declaration(&mut self, decl: &Declaration) -> (r: Result<(), ()>)
        ensures
            final(self)@ == declaration(old(self)@, *decl).0,
            (r is Ok) == declaration(old(self)@, *decl).1,
            *final(final(self).diagnostics) == *final(old(self).diagnostics),
        decreases decl, 0int,
    {
        match &decl.static_assert {
            Some(a) => self.handle_static_assert(a),
            None => {
                let base: CType = self.type_of_specifiers(&decl.specifiers);
                self.process_embedded_tag_definitions(&decl.specifiers);
                self.analyze_declarators(&decl.specifiers, &base, &decl.declarators);
                Ok(())
            },
        }
    }

    fn analyze_declarators(
        &mut self,
        specs: &DeclarationSpecifiers,
        base: &CType,
        ds: &Vec<InitDeclarator>,
    )
        ensures
            final(self)@ == declarators(old(self)@, *specs, base@, ds@, 0),
            *final(final(self).diagnostics) == *final(old(self).diagnostics),
        decreases ds@, ds@.len() + 1,
    {
        let ghost st = self@;
        let ghost engine = *final(self.diagnostics);
        let mut i: usize = 0;
        #[verifier::loop_isolation(false)]
        while i < ds.len()
            invariant
                i <= ds@.len(),
                declarators(self@, *specs, base@, ds@, i as int) == declarators(
                    st,
                    *specs,
                    base@,
                    ds@,
                    0,
                ),
                *final(self.diagnostics) == engine,
            decreases ds@.len() - i,
        {
            self.analyze_declarator(specs, base, &ds[i]);
            i += 1;
        }
    }

    fn analyze_optional_initializer(&mut self, init: &Option<Initializer>) -> (r: Result<CType, ()>)
        ensures
            final(self)@ == optional_initializer(old(self)@, *init).0,
            res_ty(r) == optional_initializer(old(self)@, *init).1,
            *final(final(self).diagnostics) == *final(old(self).diagnostics),
        decreases init, 0int,
    {
        match init {
            Some(x) => self.analyze_initializer(x),
            None => Err(()),
        }
    }

    pub(crate) fn analyze_initializer(&mut self, init: &Initializer) -> (r: Result<CType, ()>)
        ensures
            final(self)@ == initializer(old(self)@, *init).0,
            res_ty(r) == initializer(old(self)@, *init).1,
            *final(final(self).diagnostics) == *final(old(self).diagnostics),
        decreases init, 0int,
    {
        match init {
            Initializer::Expression(e) => self.analyze_expression(e),
            Initializer::List { designators_and_initializers, .. } => {
                self.analyze_initializer_list(designators_and_initializers);
                Err(())
            },
        }
    }

    fn analyze_initializer_list(&mut self, items: &Vec<DesignatedInitializer>)
        ensures
            final(self)@ == initializer_list(old(self)@, items@, 0),
            *final(final(self).diagnostics) == *final(old(self).diagnostics),
        decreases items@, items@.len() + 1,
    {
        let ghost st = self@;
        let ghost engine = *final(self.diagnostics);
        let mut i: usize = 0;
        #[verifier::loop_isolation(false)]
        while i < items.len()
            invariant
                i <= items@.len(),
                initializer_list(self@, items@, i as int) == initializer_list(st, items@, 0),
                *final(self.diagnostics) == engine,
            decreases items@.len() - i,
        {
            self.analyze_designation(&items[i].designators);
            let _ = self.analyze_initializer(&items[i].initializer);
            i += 1;
        }
    }

    fn analyze_designation(&mut self, ds: &Vec<Designator>)
        ensures
            final(self)@ == designation(old(self)@, ds@, 0),
            *final(final(self).diagnostics) == *final(old(self).diagnostics),
        decreases ds@, ds@.len() + 1,
    {
        proof {
            reveal(designator);
        }
        let ghost st = self@;
        let ghost engine = *final(self.diagnostics);
        let mut i: usize = 0;
        #[verifier::loop_isolation(false)]
        while i < ds.len()
            invariant
                i <= ds@.len(),
                designation(self@, ds@, i as int) == designation(st, ds@, 0),
                *final(self.diagnostics) == engine,
            decreases ds@.len() - i,
        {
            self.analyze_designator(&ds[i]);
            i += 1;
        }
    }

    fn analyze_designator(&mut self, d: &Designator)
        ensures
            final(self)@ == designator(old(self)@, *d),
            *final(final(self).diagnostics) == *final(old(self).diagnostics),
        decreases d, 0int,
    {
        proof {
            lemma_designator_is(self@, *d);
        }
        match d {
            Designator::Index(e, _) => {
                let _ = self.analyze_expression(e);
            },
            Designator::IndexRange(low, high, _) => {
                let _ = self.analyze_expression(low);
                let _ = self.analyze_expression(high);
            },
            Designator::Field(_, _) => {},
        }
    }

    fn analyze_declarator(
        &mut self,
        specs: &DeclarationSpecifiers,
        base: &CType,
        d: &InitDeclarator,
    )
        ensures
            final(self)@ == declarator(old(self)@, *specs, base@, *d),
            *final(final(self).diagnostics) == *final(old(self).diagnostics),
        decreases d, 0int,
    {
        let full: CType = self.type_of_declarator(base.clone(), &d.declarator);
        if has_auto_type(&specs.type_specifiers) {
            match self.analyze_optional_initializer(&d.initializer) {
                Ok(t) => self.declare_name(specs, d, t),
                Err(_) => self.declare_name(specs, d, full),
            }
        } else {
            self.declare_name(specs, d, full);
            let _ = self.analyze_optional_initializer(&d.initializer);
        }
    }

    /// Declares the name of a declarator with the given type.
    fn declare_name(&mut self, specs: &DeclarationSpecifiers, d: &InitDeclarator, full: CType)
        ensures
            final(self)@ == name_declared(old(self)@, *specs, *d, full@),
            *final(final(self).diagnostics) == *final(old(self).diagnostics),
    {
        proof {
            reveal(name_declared);
        }
        let name: Symbol = extract_declarator_name(&d.declarator);
        let attrs: Vec<ValidatedAttribute> = self.validate_attributes_for_context(
            &d.declarator.attributes,
            &specs.attributes,
        );
        let storage: StorageClass = resolve_storage_class(specs);
        if storage == StorageClass::Typedef {
            let entry = SymbolEntry {
                name,
                ty: apply_typedef_attributes(full, &attrs),
                kind: SymbolKind::TypedefName,
                linkage: Linkage::Unlinked,
                storage_class: StorageClass::Typedef,
                is_defined: true,
                is_tentative: false,
                span: d.span,
                attributes: attrs,
                is_weak: false,
                visibility: None,
                section: None,
                is_used: false,
                scope_depth: 0,
            };
            match self.symbols.declare(entry, self.diagnostics) {
                Ok(id) => {
                    self.scopes.declare_ordinary(name, id);
                    self.scopes.register_typedef(name);
                },
                Err(_) => {},
            }
            return;
        }
        let has_init: bool = d.initializer.is_some();
        let entry = SymbolEntry {
            name,
            kind: if is_function(&full) {
                SymbolKind::Function
            } else {
                SymbolKind::Variable
            },
            linkage: self.symbols.resolve_linkage(storage, self.scopes.current_depth()),
            storage_class: storage,
            is_defined: has_init,
            is_tentative: !has_init && self.scopes.is_file_scope() && storage
                != StorageClass::Extern && can_be_object(&full),
            ty: full,
            span: d.span,
            is_weak: any_weak(&attrs),
            visibility: find_visibility(&attrs),
            section: find_section(&attrs),
            attributes: attrs,
            is_used: false,
            scope_depth: 0,
        };
        match self.symbols.declare(entry, self.diagnostics) {
            Ok(id) => {
                self.scopes.declare_ordinary(name, id);
                match &d.initializer {
                    Some(init) => {
                        self.initialize(id, init);
                    },
                    None => {},
                }
            },
            Err(_) => {},
        }
    }

    /// Gives a declared symbol its initializer.
    fn initialize(&mut self, id: SymbolId, init: &Initializer)
        ensures
            final(self)@ == initialized(old(self)@, id, *init),
            *final(final(self).diagnostics) == *final(old(self).diagnostics),
    {
        let count: usize = count_initializer_elements(
            init,
            &self.enum_constant_values,
            self.interner,
        );
        let completed: Option<CType> = match self.symbols.get(id) {
            Some(e) => if needs_completion(&e.ty) && count > 0 {
                Some(complete_array_type(&e.ty, count))
            } else {
                None
            },
            None => None,
        };
        match completed {
            Some(t) => {
                self.symbols.set_type(id, t);
            },
            None => {},
        }
        self.symbols.define(id);
    }
}

} // verus!
