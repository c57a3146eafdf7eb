//! The intermediate representation.

pub mod builder;
pub mod function;
pub mod instructions;
pub mod lowering;
pub mod module;
pub mod types;
