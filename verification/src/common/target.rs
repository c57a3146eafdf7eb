//! The architectures that code is compiled for.

use crate::common::text::str_eq;
use vstd::prelude::*;

verus! {

/// A supported target architecture.
#[derive(Clone, Copy, Debug, PartialEq, Eq, Structural)]
pub enum Target {
    X86_64,
    I686,
    AArch64,
    RiscV64,
}

impl Target {
    /// Whether pointers and `long` take eight bytes (LP64) and not four.
    pub open spec fn is_lp64(self) -> bool {
        self != Target::I686
    }

    /// The target that `--target=` names.
    pub open spec fn named(name: Seq<char>) -> Option<Target> {
        if name == "x86-64"@ {
            Some(Target::X86_64)
        } else if name == "i686"@ {
            Some(Target::I686)
        } else if name == "aarch64"@ {
            Some(Target::AArch64)
        } else if name == "riscv64"@ {
            Some(Target::RiscV64)
        } else {
            None
        }
    }

    /// The target that `--target=` names.
    pub fn from_str(name: &str) -> (r: Option<Target>)
        ensures
            r == Target::named(name@),
    {
        if str_eq(name, "x86-64") {
            Some(Target::X86_64)
        } else if str_eq(name, "i686") {
            Some(Target::I686)
        } else if str_eq(name, "aarch64") {
            Some(Target::AArch64)
        } else if str_eq(name, "riscv64") {
            Some(Target::RiscV64)
        } else {
            None
        }
    }

    /// Size of a pointer in bytes.
    pub fn pointer_width(&self) -> (r: usize)
        ensures
            r == if self.is_lp64() {
                8usize
            } else {
                4usize
            },
    {
        match self {
            Target::I686 => 4,
            _ => 8,
        }
    }

    /// Size of `long` in bytes.
    pub fn long_size(&self) -> (r: usize)
        ensures
            r == if self.is_lp64() {
                8usize
            } else {
                4usize
            },
    {
        match self {
            Target::I686 => 4,
            _ => 8,
        }
    }

    /// The alignment that `__attribute__((aligned))` without an argument asks
    /// for.
    pub fn max_align(&self) -> (r: usize)
        ensures
            r == MAX_ALIGN,
    {
        MAX_ALIGN
    }
}

/// The largest alignment that any scalar type of a target needs.
pub const MAX_ALIGN: usize = 16;

} // verus!
