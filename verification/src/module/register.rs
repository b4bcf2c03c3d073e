//! Registers: the single-assignment values of a function.

use super::function::FuncID;
use crate::types::Type;
use vstd::prelude::*;

verus! {

/// The identifier of a register: its index in the module.
#[derive(Copy, Clone, Debug, PartialEq, Eq, Hash, Structural)]
pub struct RegID(pub usize);

/// A typed value that belongs to one function and is written at most once.
#[derive(Copy, Clone, Debug)]
pub struct Register {
    pub id: RegID,
    pub function: FuncID,
    pub reg_type: Type,
}

impl Register {
    pub(crate) fn new(fid: FuncID, id: RegID, reg_type: Type) -> (r: Self)
        ensures
            r.id == id,
            r.function == fid,
            r.reg_type == reg_type,
    {
        Self { id, function: fid, reg_type }
    }

    /// The identifier of the register.
    pub fn id(&self) -> (r: RegID)
        ensures
            r == self.id,
    {
        self.id
    }

    /// The function that the register belongs to.
    pub fn function(&self) -> (r: FuncID)
        ensures
            r == self.function,
    {
        self.function
    }

    /// The type of the value that the register holds.
    pub fn reg_type(&self) -> (r: Type)
        ensures
            r == self.reg_type,
    {
        self.reg_type
    }
}

} // verus!
