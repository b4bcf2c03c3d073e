//! Basic blocks.

use super::function::FuncID;
use super::instruction::Instruction;
use super::register::RegID;
use vstd::prelude::*;

verus! {

/// The identifier of a block: its index in the module.
#[derive(Copy, Clone, Debug, PartialEq, Eq, Hash, Structural)]
pub struct BlockID(pub usize);

/// A straight line of instructions in one function. Its parameters are
/// registers that receive their values from the block that jumps here.
#[derive(Clone, Debug)]
pub struct Block {
    pub id: BlockID,
    pub function: FuncID,
    pub parameters: Vec<RegID>,
    pub body: Vec<Instruction>,
}

impl Block {
    /// An empty block of `function`.
    pub fn new(function: FuncID, id: BlockID) -> (r: Self)
        ensures
            r.id == id,
            r.function == function,
            r.parameters@.len() == 0,
            r.body@.len() == 0,
    {
        Self { id, function, parameters: Vec::new(), body: Vec::new() }
    }

    /// The identifier of the block.
    pub fn id(&self) -> (r: BlockID)
        ensures
            r == self.id,
    {
        self.id
    }

    /// The function that the block belongs to.
    pub fn function(&self) -> (r: FuncID)
        ensures
            r == self.function,
    {
        self.function
    }

    /// The parameters of the block, in order.
    pub fn parameters(&self) -> (r: &Vec<RegID>)
        ensures
            r == &self.parameters,
    {
        &self.parameters
    }

    /// The instructions of the block, in order.
    pub fn body(&self) -> (r: &Vec<Instruction>)
        ensures
            r == &self.body,
    {
        &self.body
    }
}

} // verus!
