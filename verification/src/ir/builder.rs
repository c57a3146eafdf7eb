//! Numbering of values.

use crate::ir::instructions::Value;
use vstd::prelude::*;

verus! {

/// Hands out the values of a function in order.
#[derive(Debug)]
pub struct IrBuilder {
    next: u32,
}

impl View for IrBuilder {
    type V = u32;

    /// The number of the value that comes next.
    closed spec fn view(&self) -> u32 {
        self.next
    }
}

impl IrBuilder {
    /// A builder that has handed out nothing.
    pub fn new() -> (r: IrBuilder)
        ensures
            r@ == 0,
    {
        IrBuilder { next: 0 }
    }

    /// Hands out a value. Numbers start again at zero once all were used.
    pub fn fresh_value(&mut self) -> (r: Value)
        ensures
            r == Value(old(self)@),
            final(self)@ == old(self)@.wrapping_add(1),
    {
        let v: u32 = self.next;
        self.next = self.next.wrapping_add(1);
        Value(v)
    }
}

} // verus!
