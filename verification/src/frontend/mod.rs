//! The syntax tree and its semantic analysis.

pub mod parser;
pub mod sema;
