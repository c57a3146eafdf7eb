//! What every phase shares: source spans and diagnostics, interned names,
//! the compilation target, C types and their layout.

pub mod diagnostics;
pub mod layout;
pub mod lists;
pub mod measures;
pub mod source_map;
pub mod string_interner;
pub mod target;
pub mod text;
pub mod type_builder;
pub mod types;
