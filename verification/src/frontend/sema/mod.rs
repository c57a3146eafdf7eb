//! Semantic analysis of a translation unit.

pub mod analysis;
pub mod analyzer;
pub mod arithmetic;
pub mod attribute_handler;
pub mod attributes;
pub mod constants;
pub mod conversions;
pub mod declarations;
pub mod expression_types;
pub mod expressions;
pub mod definitions;
pub mod extents;
pub mod functions;
pub mod identifiers;
pub mod inference;
pub mod jumps;
pub mod laws;
pub mod literals;
pub mod mirror;
pub mod naming;
pub mod offsets;
pub mod order;
pub mod placement;
pub mod resolve;
pub mod scope;
pub mod specifiers;
pub mod state;
pub mod statements;
pub mod static_assert;
pub mod symbol_table;
pub mod tags;
pub mod typing;

pub use analyzer::SemanticAnalyzer;
