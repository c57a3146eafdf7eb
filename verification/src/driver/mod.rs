//! The decisions of the command-line driver.

pub mod archive;
pub mod args;
pub mod assembler;
pub mod depfile;
pub mod elf;
pub mod link;
pub mod numbers;
pub mod outcomes;
pub mod paths;
pub mod pipeline;
pub mod preprocessed;
pub mod readings;
