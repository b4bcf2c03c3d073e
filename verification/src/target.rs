//! Compilation targets.

use vstd::prelude::*;

verus! {

/// The machine and environment that code is generated for.
#[derive(Copy, Clone, Debug, PartialEq, Eq, Structural)]
pub enum Target {
    RealSystem(Architecture, System),
}

/// An instruction-set architecture.
#[derive(Copy, Clone, Debug, PartialEq, Eq, Structural)]
pub enum Architecture {
    X86_64,
}

/// The operating environment of the generated code.
#[derive(Copy, Clone, Debug, PartialEq, Eq, Structural)]
pub enum System {
    BareMetal,
    Linux,
}

impl Target {
    /// The width of a pointer on this target, in bytes.
    pub open spec fn spec_pointer_bytes(self) -> nat {
        8
    }

    /// The width of a pointer on this target, in bytes.
    pub fn pointer_bytes(self) -> (r: u64)
        ensures
            r == self.spec_pointer_bytes(),
    {
        match self {
            Target::RealSystem(Architecture::X86_64, _) => 8,
        }
    }
}

} // verus!
