//! Operand sizes.

use core::cmp::Ordering;
use vstd::prelude::*;

verus! {

/// The size of an operand: 1, 2, 4 or 8 bytes.
#[derive(Copy, Clone, Debug, PartialEq, Eq, Hash, Structural)]
pub enum Size {
    Byte,
    Word,
    Double,
    Quad,
}

impl Size {
    /// The letter that a mnemonic carries for an operand of this size.
    pub open spec fn spec_suffix(self) -> Seq<char> {
        match self {
            Size::Byte => "b"@,
            Size::Word => "w"@,
            Size::Double => "l"@,
            Size::Quad => "q"@,
        }
    }

    /// The letter that a mnemonic carries for an operand of this size.
    pub fn suffix(self) -> (r: &'static str)
        ensures
            r@ == self.spec_suffix(),
    {
        match self {
            Size::Byte => "b",
            Size::Word => "w",
            Size::Double => "l",
            Size::Quad => "q",
        }
    }

    /// What stands before and after the letter of an `a`, `b`, `c` or `d`
    /// register of this size.
    pub open spec fn spec_sandwich_affixes(self) -> (Seq<char>, Seq<char>) {
        match self {
            Size::Byte => (""@, "l"@),
            Size::Word => (""@, "x"@),
            Size::Double => ("e"@, "x"@),
            Size::Quad => ("r"@, "x"@),
        }
    }

    /// What stands before and after the letter of an `a`, `b`, `c` or `d`
    /// register of this size.
    pub fn sandwich_affixes(self) -> (r: (&'static str, &'static str))
        ensures
            r.0@ == self.spec_sandwich_affixes().0,
            r.1@ == self.spec_sandwich_affixes().1,
    {
        match self {
            Size::Byte => ("", "l"),
            Size::Word => ("", "x"),
            Size::Double => ("e", "x"),
            Size::Quad => ("r", "x"),
        }
    }

    /// What stands before and after the name of an index or pointer register
    /// of this size.
    pub open spec fn spec_pointer_affixes(self) -> (Seq<char>, Seq<char>) {
        match self {
            Size::Byte => (""@, "l"@),
            Size::Word => (""@, ""@),
            Size::Double => ("e"@, ""@),
            Size::Quad => ("r"@, ""@),
        }
    }

    /// What stands before and after the name of an index or pointer register
    /// of this size.
    pub fn pointer_affixes(self) -> (r: (&'static str, &'static str))
        ensures
            r.0@ == self.spec_pointer_affixes().0,
            r.1@ == self.spec_pointer_affixes().1,
    {
        match self {
            Size::Byte => ("", "l"),
            Size::Word => ("", ""),
            Size::Double => ("e", ""),
            Size::Quad => ("r", ""),
        }
    }

    /// What stands before and after the name of a numbered register of this
    /// size.
    pub open spec fn spec_numbered_affixes(self) -> (Seq<char>, Seq<char>) {
        match self {
            Size::Byte => (""@, "b"@),
            Size::Word => (""@, "w"@),
            Size::Double => (""@, "d"@),
            Size::Quad => (""@, ""@),
        }
    }

    /// What stands before and after the name of a numbered register of this
    /// size.
    pub fn numbered_affixes(self) -> (r: (&'static str, &'static str))
        ensures
            r.0@ == self.spec_numbered_affixes().0,
            r.1@ == self.spec_numbered_affixes().1,
    {
        match self {
            Size::Byte => ("", "b"),
            Size::Word => ("", "w"),
            Size::Double => ("", "d"),
            Size::Quad => ("", ""),
        }
    }

    /// The size in bytes.
    pub open spec fn spec_in_bytes(self) -> u8 {
        match self {
            Size::Byte => 1,
            Size::Word => 2,
            Size::Double => 4,
            Size::Quad => 8,
        }
    }

    /// The size in bytes.
    #[verifier::when_used_as_spec(spec_in_bytes)]
    pub fn in_bytes(self) -> (r: u8)
        ensures
            r == self.spec_in_bytes(),
    {
        match self {
            Size::Byte => 1,
            Size::Word => 2,
            Size::Double => 4,
            Size::Quad => 8,
        }
    }

    /// The size of `bytes` bytes, if there is one.
    pub fn of_bytes(bytes: u64) -> (r: Option<Size>)
        ensures
            match r {
                Some(s) => s.spec_in_bytes() == bytes,
                None => bytes != 1 && bytes != 2 && bytes != 4 && bytes != 8,
            },
    {
        if bytes == 1 {
            Some(Size::Byte)
        } else if bytes == 2 {
            Some(Size::Word)
        } else if bytes == 4 {
            Some(Size::Double)
        } else if bytes == 8 {
            Some(Size::Quad)
        } else {
            None
        }
    }

    /// Whether this size is smaller than `other`.
    pub fn is_below(self, other: Size) -> (r: bool)
        ensures
            r == (self.spec_in_bytes() < other.spec_in_bytes()),
    {
        self.in_bytes() < other.in_bytes()
    }
}


impl PartialOrd for Size {
    /// Sizes are ordered by their number of bytes.
    fn partial_cmp(&self, other: &Self) -> (r: Option<Ordering>) {
        let a = self.in_bytes();
        let b = other.in_bytes();
        if a < b {
            Some(Ordering::Less)
        } else if a == b {
            Some(Ordering::Equal)
        } else {
            Some(Ordering::Greater)
        }
    }
}

impl vstd::std_specs::cmp::PartialOrdSpecImpl for Size {
    open spec fn obeys_partial_cmp_spec() -> bool {
        true
    }

    open spec fn partial_cmp_spec(&self, other: &Self) -> Option<Ordering> {
        if self.spec_in_bytes() < other.spec_in_bytes() {
            Some(Ordering::Less)
        } else if self.spec_in_bytes() == other.spec_in_bytes() {
            Some(Ordering::Equal)
        } else {
            Some(Ordering::Greater)
        }
    }
}

} // verus!
