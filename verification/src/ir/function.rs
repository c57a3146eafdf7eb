//! Functions.

use crate::ir::instructions::{BlockId, Instruction};
use crate::ir::types::IrType;
use vstd::prelude::*;

verus! {

/// Instructions that run one after the other.
#[derive(Debug)]
pub struct BasicBlock {
    pub instructions: Vec<Instruction>,
    /// The blocks that come after it.
    pub successors: Vec<BlockId>,
    /// The blocks that come before it.
    pub predecessors: Vec<BlockId>,
}

/// A function, defined or under construction.
#[derive(Debug)]
pub struct IrFunction {
    pub name: String,
    pub return_type: IrType,
    pub params: Vec<IrType>,
    /// Whether it has a body.
    pub is_definition: bool,
    /// The body, the entry first.
    pub blocks: Vec<BasicBlock>,
}

} // verus!
