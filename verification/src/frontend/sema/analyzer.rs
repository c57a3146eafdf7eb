//! The analyzer, its construction and its nesting guard.

use crate::common::diagnostics::{DiagnosticEngine, Span};
use crate::common::string_interner::{symbol_of, Interner, Symbol};
use crate::common::target::Target;
use crate::common::type_builder::TypeBuilder;
use crate::common::layout::tags_of;
use crate::common::types::{opt_ty, void_ptr, void_ptr_ty, CType, Ty, TypeQualifiers};
use crate::frontend::parser::ast::{CharPrefix, FloatSuffix, IntegerSuffix, StringPrefix};
use crate::frontend::sema::literals::{
    char_literal_ty, first_fitting, float_literal_ty, integer_literal_ty, literal_candidates,
    string_literal_ty,
};
use crate::frontend::sema::laws::{is_sound, lemma_new_is_sound};
use crate::frontend::sema::scope::{
    empty_scope, ordinary_declared, typedef_registered, ScopeKind, ScopeStack,
};
use crate::frontend::sema::state::{too_deep, State};
use crate::frontend::sema::symbol_table::{
    declared, empty_table, Linkage, StorageClass, SymbolEntry, SymbolKind, SymbolModel, SymbolTable,
};
use std::collections::HashMap;
use vstd::hash_map::StringHashMap;
use vstd::prelude::*;

verus! {

broadcast use vstd::std_specs::hash::group_hash_axioms;

/// How deeply expressions and statements may nest.
pub const MAX_RECURSION_DEPTH: u32 = 512;

/// Analyzes a translation unit: resolves types, keeps scopes, fills the symbol
/// table, and reports what is wrong to the diagnostic engine.
pub struct SemanticAnalyzer<'a> {
    pub diagnostics: &'a mut DiagnosticEngine,
    pub type_builder: &'a TypeBuilder,
    pub target: Target,
    pub interner: &'a Interner,
    pub scopes: ScopeStack,
    pub symbols: SymbolTable,
    pub recursion_depth: u32,
    pub max_recursion_depth: u32,
    pub current_function_return_type: Option<CType>,
    pub in_loop: bool,
    pub in_switch: bool,
    pub switch_case_values: HashMap<i128, Span>,
    pub switch_has_default: bool,
    pub enum_constant_values: StringHashMap<i128>,
    pub tag_types_by_name: StringHashMap<CType>,
}

impl<'a> View for SemanticAnalyzer<'a> {
    type V = State;

    open spec fn view(&self) -> State {
        State {
            log: self.diagnostics@,
            names: self.interner@,
            target: self.target,
            builder_target: self.type_builder@,
            scopes: self.scopes@,
            symbols: self.symbols@,
            depth: self.recursion_depth,
            max_depth: self.max_recursion_depth,
            return_type: opt_ty(self.current_function_return_type),
            in_loop: self.in_loop,
            in_switch: self.in_switch,
            cases: self.switch_case_values@,
            has_default: self.switch_has_default,
            enums: self.enum_constant_values@,
            tags: tags_of(self.tag_types_by_name@),
        }
    }
}

/// A typedef that the compiler itself provides.
pub open spec fn builtin_typedef(name: Symbol, ty: Ty) -> SymbolModel {
    SymbolModel {
        name,
        ty,
        kind: SymbolKind::TypedefName,
        linkage: Linkage::Unlinked,
        storage_class: StorageClass::Typedef,
        is_defined: true,
        is_tentative: false,
        span: Span::nowhere(),
        attributes: Seq::empty(),
        is_weak: false,
        visibility: None,
        section: None,
        is_used: false,
        scope_depth: 0,
    }
}

/// The state after a builtin typedef was registered; a name that was never
/// interned is passed over.
pub open spec fn builtin_registered(st: State, name: Seq<char>, ty: Ty) -> State {
    match symbol_of(st.names, name) {
        None => st,
        Some(sym) => {
            let d = declared(st.symbols, st.log, builtin_typedef(sym, ty));
            match d.2 {
                None => State { symbols: d.0, log: d.1, ..st },
                Some(id) => State {
                    symbols: d.0,
                    log: d.1,
                    scopes: typedef_registered(ordinary_declared(st.scopes, sym, id), sym),
                    ..st
                },
            }
        },
    }
}

/// The state before anything was registered.
pub open spec fn blank_state(
    log: Seq<crate::common::diagnostics::DiagnosticModel>,
    builder_target: Target,
    target: Target,
    names: Seq<Seq<char>>,
) -> State {
    State {
        log,
        names,
        target,
        builder_target,
        scopes: seq![empty_scope(ScopeKind::Global)],
        symbols: empty_table(),
        depth: 0,
        max_depth: MAX_RECURSION_DEPTH,
        return_type: None,
        in_loop: false,
        in_switch: false,
        cases: Map::empty(),
        has_default: false,
        enums: Map::empty(),
        tags: Map::empty(),
    }
}

impl<'a> SemanticAnalyzer<'a> {
    /// An analyzer at the start of a translation unit. It knows the global
    /// scope and the type behind `va_list`.
    pub fn new(
        diagnostics: &'a mut DiagnosticEngine,
        type_builder: &'a TypeBuilder,
        target: Target,
        interner: &'a Interner,
    ) -> (r: SemanticAnalyzer<'a>)
        ensures
            r@ == builtin_registered(
                blank_state(old(diagnostics)@, type_builder@, target, interner@),
                "__builtin_va_list"@,
                void_ptr_ty(),
            ),
            is_sound(r@),
            *final(r.diagnostics) == *final(diagnostics),
    {
        proof {
            lemma_new_is_sound(
                old(diagnostics)@,
                type_builder@,
                target,
                interner@,
                "__builtin_va_list"@,
                void_ptr_ty(),
            );
        }
        let mut analyzer = SemanticAnalyzer {
            diagnostics,
            type_builder,
            target,
            interner,
            scopes: ScopeStack::new(),
            symbols: SymbolTable::new(),
            recursion_depth: 0,
            max_recursion_depth: MAX_RECURSION_DEPTH,
            current_function_return_type: None,
            in_loop: false,
            in_switch: false,
            switch_case_values: HashMap::new(),
            switch_has_default: false,
            enum_constant_values: StringHashMap::new(),
            tag_types_by_name: StringHashMap::new(),
        };
        assert(analyzer@.tags =~= Map::<Seq<char>, Ty>::empty());
        analyzer.register_builtin_typedef("__builtin_va_list", void_ptr());
        analyzer
    }

    /// Registers a typedef that the compiler itself provides.
    fn register_builtin_typedef(&mut self, name: &str, ty: CType)
        ensures
            final(self)@ == builtin_registered(old(self)@, name@, ty@),
            *final(final(self).diagnostics) == *final(old(self).diagnostics),
    {
        let sym: Symbol = match self.interner.get(name) {
            Some(s) => s,
            None => {
                return;
            },
        };
        let ghost t = ty@;
        let entry = SymbolEntry {
            name: sym,
            ty,
            kind: SymbolKind::TypedefName,
            linkage: Linkage::Unlinked,
            storage_class: StorageClass::Typedef,
            is_defined: true,
            is_tentative: false,
            span: Span::dummy(),
            attributes: Vec::new(),
            is_weak: false,
            visibility: None,
            section: None,
            is_used: false,
            scope_depth: 0,
        };
        assert(entry@.attributes =~= builtin_typedef(sym, t).attributes);
        match self.symbols.declare(entry, self.diagnostics) {
            Ok(id) => {
                self.scopes.declare_ordinary(sym, id);
                self.scopes.register_typedef(sym);
            },
            Err(_) => {},
        }
    }

    /// Enters one level of nesting, unless that would be one too many.
    pub fn check_recursion_depth(&mut self, span: Span) -> (r: Result<(), ()>)
        ensures
            r is Ok <==> old(self)@.depth < old(self)@.max_depth,
            final(self)@ == if old(self)@.depth < old(self)@.max_depth {
                old(self)@.deeper()
            } else {
                old(self)@.error(span, too_deep())
            },
            *final(final(self).diagnostics) == *final(old(self).diagnostics),
    {
        if self.recursion_depth >= self.max_recursion_depth {
            self.diagnostics.emit_error(
                span,
                "recursion depth limit (512) exceeded during semantic analysis",
            );
            return Err(());
        }
        self.recursion_depth += 1;
        Ok(())
    }

    /// Leaves one level of nesting.
    pub fn decrement_recursion_depth(&mut self)
        ensures
            final(self)@ == old(self)@.shallower(),
            *final(final(self).diagnostics) == *final(old(self).diagnostics),
    {
        if self.recursion_depth > 0 {
            self.recursion_depth -= 1;
        }
    }

    /// Marks a name as a typedef name in the current scope.
    pub fn register_typedef(&mut self, name: Symbol)
        ensures
            final(self)@ == (State {
                scopes: typedef_registered(old(self)@.scopes, name),
                ..old(self)@
            }),
            *final(final(self).diagnostics) == *final(old(self).diagnostics),
    {
        self.scopes.register_typedef(name);
    }

    /// The type of an integer literal.
    pub fn integer_literal_type(&self, value: u128, suffix: &IntegerSuffix, is_hex_or_octal: bool)
        -> (r: CType)
        ensures
            r@ == integer_literal_ty(value, *suffix, is_hex_or_octal, self@.target.is_lp64()),
    {
        let lp64: bool = self.target.long_size() == 8;
        proof {
            reveal_with_fuel(first_fitting, 7);
            let c = literal_candidates(*suffix, is_hex_or_octal, lp64);
            assert(c.skip(1) =~= c.skip(1));
            assert(c.len() > 1 ==> c.skip(1)[0] == c[1]);
            assert(c.len() > 2 ==> c.skip(1).skip(1)[0] == c[2]);
            assert(c.len() > 3 ==> c.skip(1).skip(1).skip(1)[0] == c[3]);
            assert(c.len() > 4 ==> c.skip(1).skip(1).skip(1).skip(1)[0] == c[4]);
            assert(c.len() > 5 ==> c.skip(1).skip(1).skip(1).skip(1).skip(1)[0] == c[5]);
        }
        let int_max: u128 = 0x7fff_ffff;
        let uint_max: u128 = 0xffff_ffff;
        let llong_max: u128 = 0x7fff_ffff_ffff_ffff;
        let ullong_max: u128 = 0xffff_ffff_ffff_ffff;
        match suffix {
            IntegerSuffix::Plain => {
                if value <= int_max {
                    CType::Int
                } else if is_hex_or_octal && value <= uint_max {
                    CType::UInt
                } else if lp64 && value <= llong_max {
                    CType::Long
                } else if is_hex_or_octal && lp64 && value <= ullong_max {
                    CType::ULong
                } else if value <= llong_max {
                    CType::LongLong
                } else {
                    CType::ULongLong
                }
            },
            IntegerSuffix::U => {
                if value <= uint_max {
                    CType::UInt
                } else if lp64 && value <= ullong_max {
                    CType::ULong
                } else {
                    CType::ULongLong
                }
            },
            IntegerSuffix::L => {
                if lp64 {
                    if value <= llong_max {
                        CType::Long
                    } else if is_hex_or_octal && value <= ullong_max {
                        CType::ULong
                    } else {
                        CType::LongLong
                    }
                } else if value <= int_max {
                    CType::Long
                } else if is_hex_or_octal && value <= uint_max {
                    CType::ULong
                } else if value <= llong_max {
                    CType::LongLong
                } else {
                    CType::ULongLong
                }
            },
            IntegerSuffix::UL => {
                if lp64 && value <= ullong_max {
                    CType::ULong
                } else {
                    CType::ULongLong
                }
            },
            IntegerSuffix::LL => {
                if value <= llong_max {
                    CType::LongLong
                } else {
                    CType::ULongLong
                }
            },
            IntegerSuffix::ULL => CType::ULongLong,
        }
    }

    /// The type of a floating literal.
    pub fn float_literal_type(&self, suffix: &FloatSuffix) -> (r: CType)
        ensures
            r@ == float_literal_ty(*suffix),
    {
        let double = CType::Double;
        let float = CType::Float;
        let long_double = CType::LongDouble;
        assert(double@ == Ty::Double && float@ == Ty::Float && long_double@ == Ty::LongDouble);
        match suffix {
            FloatSuffix::Plain => double,
            FloatSuffix::F => float,
            FloatSuffix::L => long_double,
            FloatSuffix::I => CType::Complex(Box::new(double)),
            FloatSuffix::FI => CType::Complex(Box::new(float)),
            FloatSuffix::LI => CType::Complex(Box::new(long_double)),
        }
    }

    /// The type of a string literal.
    pub fn string_literal_type(&self, prefix: &StringPrefix) -> (r: CType)
        ensures
            r@ == string_literal_ty(*prefix),
    {
        let unit: CType = match prefix {
            StringPrefix::Plain => CType::Char,
            StringPrefix::U8 => CType::Char,
            StringPrefix::L => CType::Int,
            StringPrefix::U16 => CType::UShort,
            StringPrefix::U32 => CType::UInt,
        };
        assert(string_literal_ty(*prefix) == Ty::Pointer(
            Box::new(unit@),
            crate::common::types::const_quals(),
        ));
        CType::Pointer(Box::new(unit), TypeQualifiers::only_const())
    }

    /// The type of a character literal.
    pub fn char_literal_type(&self, prefix: &CharPrefix) -> (r: CType)
        ensures
            r@ == char_literal_ty(*prefix),
    {
        match prefix {
            CharPrefix::Plain => CType::Int,
            CharPrefix::L => CType::Int,
            CharPrefix::U16 => CType::UShort,
            CharPrefix::U32 => CType::UInt,
        }
    }

    /// The type `size_t`.
    pub fn size_t_type(&self) -> (r: CType)
        ensures
            r@ == size_t(self@),
    {
        if self.type_builder.target().pointer_width() == 8 {
            CType::ULong
        } else {
            CType::UInt
        }
    }
}

/// The type `size_t`.
pub open spec fn size_t(st: State) -> Ty {
    if st.builder_target.is_lp64() {
        Ty::ULong
    } else {
        Ty::UInt
    }
}

} // verus!
