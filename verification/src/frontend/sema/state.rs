//! What the analyzer knows, as contracts see it.

use crate::common::diagnostics::{error_at, warning_at, DiagnosticModel, Span};
use crate::common::string_interner::{text_of, Symbol};
use crate::common::target::Target;
use crate::common::types::Ty;
use crate::frontend::sema::scope::{ordinary_in, scope_left, ScopeKind, ScopeModel, scope_pushed};
use crate::frontend::sema::symbol_table::{
    entry_at, scope_entered, table_scope_left, SymbolModel, SymbolsModel,
};
use vstd::prelude::*;

verus! {

/// What the analyzer knows at some point of a translation unit.
pub struct State {
    /// What was reported so far.
    pub log: Seq<DiagnosticModel>,
    /// The texts of the interned names.
    pub names: Seq<Seq<char>>,
    pub target: Target,
    /// The target of the type builder.
    pub builder_target: Target,
    pub scopes: Seq<ScopeModel>,
    pub symbols: SymbolsModel,
    pub depth: u32,
    pub max_depth: u32,
    /// The return type of the function whose body is being analyzed.
    pub return_type: Option<Ty>,
    pub in_loop: bool,
    pub in_switch: bool,
    /// The literal case values of the switch, and where they stand.
    pub cases: Map<i128, Span>,
    pub has_default: bool,
    /// The values of the enumeration constants.
    pub enums: Map<Seq<char>, i128>,
    /// The complete struct and union types by tag.
    pub tags: Map<Seq<char>, Ty>,
}

impl State {
    /// The text of a name.
    pub open spec fn text(self, sym: Symbol) -> Seq<char> {
        text_of(self.names, sym)
    }

    /// The text of an optional name.
    pub open spec fn opt_text(self, sym: Option<Symbol>) -> Option<Seq<char>> {
        match sym {
            Some(s) => Some(self.text(s)),
            None => None,
        }
    }

    /// The symbol that an ordinary identifier refers to.
    pub open spec fn symbol(self, name: Symbol) -> Option<SymbolModel> {
        match ordinary_in(self.scopes, name) {
            Some(id) => entry_at(self.symbols, id),
            None => None,
        }
    }

    /// The declared type of an ordinary identifier.
    pub open spec fn declared_type(self, name: Symbol) -> Option<Ty> {
        match self.symbol(name) {
            Some(e) => Some(e.ty),
            None => None,
        }
    }

    /// After an error was reported.
    pub open spec fn error(self, span: Span, message: Seq<char>) -> State {
        State { log: self.log.push(error_at(span, message)), ..self }
    }

    /// After a warning was reported.
    pub open spec fn warning(self, span: Span, message: Seq<char>) -> State {
        State { log: self.log.push(warning_at(span, message)), ..self }
    }

    /// After an error was reported, if there was reason to.
    pub open spec fn error_if(self, wrong: bool, span: Span, message: Seq<char>) -> State {
        if wrong {
            self.error(span, message)
        } else {
            self
        }
    }

    /// After a scope was entered.
    pub open spec fn enter(self, kind: ScopeKind) -> State {
        State {
            scopes: scope_pushed(self.scopes, kind),
            symbols: scope_entered(self.symbols),
            ..self
        }
    }

    /// After the innermost scope was left.
    pub open spec fn leave(self) -> State {
        State {
            scopes: scope_left(self.scopes),
            symbols: table_scope_left(self.symbols),
            ..self
        }
    }

    /// After one level of nesting was entered.
    pub open spec fn deeper(self) -> State {
        State { depth: (self.depth + 1) as u32, ..self }
    }

    /// After one level of nesting was left.
    pub open spec fn shallower(self) -> State {
        State {
            depth: if self.depth > 0 {
                (self.depth - 1) as u32
            } else {
                0
            },
            ..self
        }
    }
}

/// The report that nesting is too deep.
pub open spec fn too_deep() -> Seq<char> {
    "recursion depth limit (512) exceeded during semantic analysis"@
}

} // verus!
