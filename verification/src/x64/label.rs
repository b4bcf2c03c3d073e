//! Labels: the places in the code that jumps, calls and addresses name.

use crate::util::text::{nat_text, push_nat};
use vstd::prelude::*;
use vstd::string::StringExecFns;

verus! {

/// A place in the emitted code.
#[derive(Copy, Clone, Debug, PartialEq, Eq, Hash, Structural)]
pub enum Label {
    /// The start of the function with this number, under the name of the
    /// function.
    Function(usize),
    /// The start of the block with this number.
    Block(usize),
    /// The way out of the block with this number that its branch takes
    /// where the condition does not hold.
    Otherwise(usize),
}

/// The names of the symbols by number.
pub open spec fn names_of(symbols: Seq<String>) -> Seq<Seq<char>> {
    Seq::new(symbols.len(), |i: int| symbols[i]@)
}

impl Label {
    /// Whether the label can be written down with the symbols `names`.
    pub open spec fn known(self, names: Seq<Seq<char>>) -> bool {
        self matches Label::Function(i) ==> i < names.len()
    }

    /// The label in assembly text: the name of a function; `.LBB` and the
    /// number of a block, with `_else` behind it for the other way out.
    pub open spec fn spec_text(self, names: Seq<Seq<char>>) -> Seq<char> {
        match self {
            Label::Function(i) => names[i as int],
            Label::Block(n) => ".LBB"@ + nat_text(n as nat),
            Label::Otherwise(n) => ".LBB"@ + nat_text(n as nat) + "_else"@,
        }
    }

    /// Appends the label in assembly text to `out`.
    pub fn push_text(self, out: &mut String, symbols: &Vec<String>)
        requires
            self.known(names_of(symbols@)),
        ensures
            final(out)@ == old(out)@ + self.spec_text(names_of(symbols@)),
    {
        match self {
            Label::Function(i) => {
                out.append(symbols[i].as_str());
            },
            Label::Block(n) => {
                out.append(".LBB");
                push_nat(out, n as u128);
                assert(out@ =~= old(out)@ + self.spec_text(names_of(symbols@)));
            },
            Label::Otherwise(n) => {
                out.append(".LBB");
                push_nat(out, n as u128);
                out.append("_else");
                assert(out@ =~= old(out)@ + self.spec_text(names_of(symbols@)));
            },
        }
    }
}

} // verus!
