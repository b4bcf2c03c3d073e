//! Functions: signature, registers and, once defined, blocks and variables.

use super::block::BlockID;
use super::calling_convention::CallingConvention;
use super::register::RegID;
use super::variable::VarID;
use crate::types::Type;
use vstd::prelude::*;

verus! {

/// The identifier of a function: its index in the module.
#[derive(Copy, Clone, Debug, PartialEq, Eq, Hash, Structural)]
pub struct FuncID(pub usize);

/// What a caller has to know of a function.
#[derive(Clone, Debug)]
pub struct FunctionSignature {
    pub return_type: Type,
    pub parameter_types: Vec<Type>,
    pub calling_convention: CallingConvention,
    pub is_varargs: bool,
}

/// The body of a function: its blocks, the one among them where execution
/// starts, and its variables. Both lists are in the order of creation.
#[derive(Clone, Debug)]
pub struct FunctionDefinition {
    pub variables: Vec<VarID>,
    pub blocks: Vec<BlockID>,
    pub entry: BlockID,
}

impl FunctionDefinition {
    /// The variables of the function, in the order of creation.
    pub fn variables(&self) -> (r: &Vec<VarID>)
        ensures
            r == &self.variables,
    {
        &self.variables
    }

    /// The blocks of the function, in the order of creation.
    pub fn blocks(&self) -> (r: &Vec<BlockID>)
        ensures
            r == &self.blocks,
    {
        &self.blocks
    }

    /// The block where execution of the function starts.
    pub fn entry(&self) -> (r: BlockID)
        ensures
            r == self.entry,
    {
        self.entry
    }
}

/// A function of a module. Without a definition it is only declared: its
/// code lies elsewhere.
#[derive(Clone, Debug)]
pub struct Function {
    pub id: FuncID,
    pub name: String,
    pub signature: FunctionSignature,
    pub parameter_registers: Vec<RegID>,
    pub registers: Vec<RegID>,
    pub definition: Option<FunctionDefinition>,
}

impl Function {
    pub(crate) fn new(id: FuncID, name: String, return_type: Type) -> (r: Self)
        ensures
            r.id == id,
            r.name == name,
            r.signature.return_type == return_type,
            r.signature.parameter_types@.len() == 0,
            r.signature.calling_convention == CallingConvention::Generic(
                super::calling_convention::GenericConvention::Default,
            ),
            !r.signature.is_varargs,
            r.parameter_registers@.len() == 0,
            r.registers@.len() == 0,
            r.definition is None,
    {
        Self {
            id,
            name,
            signature: FunctionSignature {
                return_type,
                parameter_types: Vec::new(),
                calling_convention: CallingConvention::default(),
                is_varargs: false,
            },
            parameter_registers: Vec::new(),
            registers: Vec::new(),
            definition: None,
        }
    }

    /// The blocks of the function: none where it is only declared.
    pub open spec fn block_ids(&self) -> Seq<BlockID> {
        match self.definition {
            Some(d) => d.blocks@,
            None => Seq::empty(),
        }
    }

    /// The variables of the function: none where it is only declared.
    pub open spec fn variable_ids(&self) -> Seq<VarID> {
        match self.definition {
            Some(d) => d.variables@,
            None => Seq::empty(),
        }
    }

    /// The identifier of the function.
    pub fn id(&self) -> (r: FuncID)
        ensures
            r == self.id,
    {
        self.id
    }

    /// The name of the function: the symbol that its code is emitted under.
    pub fn name(&self) -> (r: &str)
        ensures
            r@ == self.name@,
    {
        self.name.as_str()
    }

    /// Whether the function takes a variable number of arguments.
    pub fn is_vararg(&self) -> (r: bool)
        ensures
            r == self.signature.is_varargs,
    {
        self.signature.is_varargs
    }

    /// The calling convention of the function.
    pub fn calling_convention(&self) -> (r: CallingConvention)
        ensures
            r == self.signature.calling_convention,
    {
        self.signature.calling_convention
    }

    /// The type of the value that the function returns.
    pub fn return_type(&self) -> (r: Type)
        ensures
            r == self.signature.return_type,
    {
        self.signature.return_type
    }

    /// The types of the parameters, in order.
    pub fn parameter_types(&self) -> (r: &Vec<Type>)
        ensures
            r == &self.signature.parameter_types,
    {
        &self.signature.parameter_types
    }

    /// The registers that hold the arguments, in order.
    pub fn parameter_registers(&self) -> (r: &Vec<RegID>)
        ensures
            r == &self.parameter_registers,
    {
        &self.parameter_registers
    }

    /// The number of parameters.
    pub fn parameters(&self) -> (r: usize)
        ensures
            r == self.parameter_registers@.len(),
    {
        self.parameter_registers.len()
    }

    /// The signature of the function.
    pub fn signature(&self) -> (r: &FunctionSignature)
        ensures
            r == &self.signature,
    {
        &self.signature
    }

    /// The registers of the function, in the order of creation.
    pub fn registers(&self) -> (r: &Vec<RegID>)
        ensures
            r == &self.registers,
    {
        &self.registers
    }

    /// The body of the function, where it has one.
    pub fn definition(&self) -> (r: Option<&FunctionDefinition>)
        ensures
            r == match self.definition {
                Some(d) => Some(&d),
                None => None,
            },
    {
        self.definition.as_ref()
    }

    /// The variables of the function, where it is defined.
    pub fn variables(&self) -> (r: Option<&Vec<VarID>>)
        ensures
            r == match self.definition {
                Some(d) => Some(&d.variables),
                None => None,
            },
    {
        match &self.definition {
            Some(d) => Some(&d.variables),
            None => None,
        }
    }

    /// The blocks of the function, where it is defined.
    pub fn blocks(&self) -> (r: Option<&Vec<BlockID>>)
        ensures
            r == match self.definition {
                Some(d) => Some(&d.blocks),
                None => None,
            },
    {
        match &self.definition {
            Some(d) => Some(&d.blocks),
            None => None,
        }
    }

    /// The block where execution starts, where the function is defined.
    pub fn entry_block(&self) -> (r: Option<BlockID>)
        ensures
            r == match self.definition {
                Some(d) => Some(d.entry),
                None => None,
            },
    {
        match &self.definition {
            Some(d) => Some(d.entry),
            None => None,
        }
    }
}

} // verus!
