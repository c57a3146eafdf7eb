//! The middle of a C compiler, verified: semantic analysis of a parsed C11
//! translation unit, the tables that lowering to IR is driven by, and the
//! decisions of the command-line driver.

pub mod common;
pub mod driver;
pub mod frontend;
pub mod ir;
