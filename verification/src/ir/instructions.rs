//! Instructions, and handles into a function.

use crate::ir::types::IrType;
use vstd::prelude::*;

verus! {

/// A basic block of a function.
#[derive(Clone, Copy, Debug, PartialEq, Eq, Structural)]
pub struct BlockId(pub u32);

/// A value of a function.
#[derive(Clone, Copy, Debug, PartialEq, Eq, Structural)]
pub struct Value(pub u32);

/// One step of a basic block.
#[derive(Debug)]
pub struct Instruction {
    /// The value that it defines, if it defines one.
    pub result: Option<Value>,
    /// What it does, by name.
    pub operation: String,
    /// The type that it works on.
    pub ty: IrType,
    pub operands: Vec<Value>,
    /// The blocks that it can pass control to.
    pub targets: Vec<BlockId>,
}

} // verus!
