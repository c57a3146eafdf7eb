//! Layout queries bound to a target.

use crate::common::target::Target;
use vstd::prelude::*;

verus! {

/// Answers layout queries for one target.
#[derive(Debug)]
pub struct TypeBuilder {
    target: Target,
}

impl View for TypeBuilder {
    type V = Target;

    closed spec fn view(&self) -> Target {
        self.target
    }
}

impl TypeBuilder {
    /// A builder for `target`.
    pub fn new(target: Target) -> (r: TypeBuilder)
        ensures
            r@ == target,
    {
        TypeBuilder { target }
    }

    /// The target that this builder is for.
    pub fn target(&self) -> (r: Target)
        ensures
            r == self@,
    {
        self.target
    }
}

} // verus!
