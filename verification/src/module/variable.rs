//! Variables: the addressable stack storage of a function.

use super::function::FuncID;
use crate::types::Type;
use vstd::prelude::*;

verus! {

/// The identifier of a variable: its index in the module.
#[derive(Copy, Clone, Debug, PartialEq, Eq, Hash, Structural)]
pub struct VarID(pub usize);

/// A typed storage location in the frame of one function, read and written
/// through its address.
#[derive(Copy, Clone, Debug)]
pub struct Variable {
    pub id: VarID,
    pub function: FuncID,
    pub var_type: Type,
}

impl Variable {
    pub(crate) fn new(function: FuncID, id: VarID, var_type: Type) -> (r: Self)
        ensures
            r.id == id,
            r.function == function,
            r.var_type == var_type,
    {
        Self { id, function, var_type }
    }

    /// The identifier of the variable.
    pub fn id(&self) -> (r: VarID)
        ensures
            r == self.id,
    {
        self.id
    }

    /// The function that the variable belongs to.
    pub fn function(&self) -> (r: FuncID)
        ensures
            r == self.function,
    {
        self.function
    }

    /// The type of the value that the variable stores.
    pub fn var_type(&self) -> (r: Type)
        ensures
            r == self.var_type,
    {
        self.var_type
    }
}

} // verus!
