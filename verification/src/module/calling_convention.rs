//! Calling conventions.

use vstd::prelude::*;

verus! {

/// How arguments and results pass between a caller and a function.
#[derive(Copy, Clone, Debug, PartialEq, Eq, Hash, Structural)]
pub enum CallingConvention {
    Generic(GenericConvention),
    Concrete(ConcreteConvention),
}

/// A calling convention whose details depend on the compilation target.
#[derive(Copy, Clone, Debug, PartialEq, Eq, Hash, Structural)]
pub enum GenericConvention {
    /// Whatever the target uses where nothing else is asked for.
    Default,
    /// The calling convention of the C language on the target.
    C,
}

/// A calling convention whose details are the same on every target.
#[derive(Copy, Clone, Debug, PartialEq, Eq, Hash, Structural)]
pub enum ConcreteConvention {
    /// The calling convention of the x86-64 System V ABI.
    SystemV,
}

impl GenericConvention {
    /// Whether a function with this convention can take a variable number
    /// of arguments.
    pub open spec fn spec_supports_varargs(self) -> bool {
        self is C
    }

    /// Whether a function with this convention can take a variable number
    /// of arguments.
    #[verifier::when_used_as_spec(spec_supports_varargs)]
    pub fn supports_varargs(self) -> (r: bool)
        ensures
            r == self.spec_supports_varargs(),
    {
        match self {
            GenericConvention::Default => false,
            GenericConvention::C => true,
        }
    }
}

impl ConcreteConvention {
    /// Whether a function with this convention can take a variable number
    /// of arguments.
    pub open spec fn spec_supports_varargs(self) -> bool {
        true
    }

    /// Whether a function with this convention can take a variable number
    /// of arguments.
    #[verifier::when_used_as_spec(spec_supports_varargs)]
    pub fn supports_varargs(self) -> (r: bool)
        ensures
            r == self.spec_supports_varargs(),
    {
        match self {
            ConcreteConvention::SystemV => true,
        }
    }
}

impl CallingConvention {
    /// Whether a function with this convention can take a variable number
    /// of arguments.
    pub open spec fn spec_supports_varargs(self) -> bool {
        match self {
            CallingConvention::Generic(g) => g.spec_supports_varargs(),
            CallingConvention::Concrete(c) => c.spec_supports_varargs(),
        }
    }

    /// Whether a function with this convention can take a variable number
    /// of arguments.
    #[verifier::when_used_as_spec(spec_supports_varargs)]
    pub fn supports_varargs(self) -> (r: bool)
        ensures
            r == self.spec_supports_varargs(),
    {
        match self {
            CallingConvention::Generic(g) => g.supports_varargs(),
            CallingConvention::Concrete(c) => c.supports_varargs(),
        }
    }
}

impl Default for CallingConvention {
    fn default() -> (r: Self)
        ensures
            r == CallingConvention::Generic(GenericConvention::Default),
    {
        CallingConvention::Generic(GenericConvention::Default)
    }
}

} // verus!
