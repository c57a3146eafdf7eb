//! The syntax tree that parsing yields.

pub mod ast;
