//! Instructions and their operands.

use super::block::BlockID;
use super::function::{FuncID, FunctionSignature};
use super::register::RegID;
use super::variable::VarID;
use super::Module;
use crate::types::{IntSize, StructTypeID, Type};
use vstd::prelude::*;

verus! {

/// A value known when the code is built.
#[derive(Copy, Clone, Debug)]
pub enum ConstValue {
    /// A value of the given type that must not be relied on.
    Poison(Type),
    /// The value of the unit type.
    Unit,
    /// The pointer that points nowhere.
    NullPtr,
    /// A truth value.
    Bool(bool),
    /// An integer of a native size.
    Integer(i128, IntSize),
    /// The size of a type in bytes, as an integer of a native size.
    SizeOf(Type, IntSize),
}

impl ConstValue {
    /// The type of the value.
    pub open spec fn spec_expr_type(&self) -> Type {
        match *self {
            ConstValue::Poison(t) => t,
            ConstValue::Unit => Type::Unit,
            ConstValue::NullPtr => Type::Pointer,
            ConstValue::Bool(_) => Type::Bool,
            ConstValue::Integer(_, size) => Type::of_size(size),
            ConstValue::SizeOf(_, size) => Type::of_size(size),
        }
    }

    /// The type of the value.
    #[verifier::when_used_as_spec(spec_expr_type)]
    pub fn expr_type(&self) -> (r: Type)
        ensures
            r == self.spec_expr_type(),
    {
        match self {
            ConstValue::Poison(t) => *t,
            ConstValue::Unit => Type::Unit,
            ConstValue::NullPtr => Type::Pointer,
            ConstValue::Bool(_) => Type::Bool,
            ConstValue::Integer(_, size) => Type::Integer(size.bits() as u16),
            ConstValue::SizeOf(_, size) => Type::Integer(size.bits() as u16),
        }
    }

    /// The types that the value names: the type of a poison value and the
    /// type whose size is asked for.
    pub open spec fn types(&self) -> Seq<Type> {
        match *self {
            ConstValue::Poison(t) => seq![t],
            ConstValue::SizeOf(t, _) => seq![t],
            _ => Seq::empty(),
        }
    }
}

impl From<()> for ConstValue {
    fn from(value: ()) -> (r: ConstValue) {
        ConstValue::Unit
    }
}

impl vstd::std_specs::convert::FromSpecImpl<()> for ConstValue {
    open spec fn obeys_from_spec() -> bool {
        true
    }

    open spec fn from_spec(value: ()) -> ConstValue {
        ConstValue::Unit
    }
}

impl From<bool> for ConstValue {
    fn from(value: bool) -> (r: ConstValue) {
        ConstValue::Bool(value)
    }
}

impl vstd::std_specs::convert::FromSpecImpl<bool> for ConstValue {
    open spec fn obeys_from_spec() -> bool {
        true
    }

    open spec fn from_spec(value: bool) -> ConstValue {
        ConstValue::Bool(value)
    }
}

impl From<u8> for ConstValue {
    fn from(value: u8) -> (r: ConstValue) {
        ConstValue::Integer(value as i128, IntSize::Byte)
    }
}

impl vstd::std_specs::convert::FromSpecImpl<u8> for ConstValue {
    open spec fn obeys_from_spec() -> bool {
        true
    }

    open spec fn from_spec(value: u8) -> ConstValue {
        ConstValue::Integer(value as i128, IntSize::Byte)
    }
}

impl From<i8> for ConstValue {
    fn from(value: i8) -> (r: ConstValue) {
        ConstValue::Integer(value as i128, IntSize::Byte)
    }
}

impl vstd::std_specs::convert::FromSpecImpl<i8> for ConstValue {
    open spec fn obeys_from_spec() -> bool {
        true
    }

    open spec fn from_spec(value: i8) -> ConstValue {
        ConstValue::Integer(value as i128, IntSize::Byte)
    }
}

impl From<u16> for ConstValue {
    fn from(value: u16) -> (r: ConstValue) {
        ConstValue::Integer(value as i128, IntSize::Short)
    }
}

impl vstd::std_specs::convert::FromSpecImpl<u16> for ConstValue {
    open spec fn obeys_from_spec() -> bool {
        true
    }

    open spec fn from_spec(value: u16) -> ConstValue {
        ConstValue::Integer(value as i128, IntSize::Short)
    }
}

impl From<i16> for ConstValue {
    fn from(value: i16) -> (r: ConstValue) {
        ConstValue::Integer(value as i128, IntSize::Short)
    }
}

impl vstd::std_specs::convert::FromSpecImpl<i16> for ConstValue {
    open spec fn obeys_from_spec() -> bool {
        true
    }

    open spec fn from_spec(value: i16) -> ConstValue {
        ConstValue::Integer(value as i128, IntSize::Short)
    }
}

impl From<u32> for ConstValue {
    fn from(value: u32) -> (r: ConstValue) {
        ConstValue::Integer(value as i128, IntSize::Int)
    }
}

impl vstd::std_specs::convert::FromSpecImpl<u32> for ConstValue {
    open spec fn obeys_from_spec() -> bool {
        true
    }

    open spec fn from_spec(value: u32) -> ConstValue {
        ConstValue::Integer(value as i128, IntSize::Int)
    }
}

impl From<i32> for ConstValue {
    fn from(value: i32) -> (r: ConstValue) {
        ConstValue::Integer(value as i128, IntSize::Int)
    }
}

impl vstd::std_specs::convert::FromSpecImpl<i32> for ConstValue {
    open spec fn obeys_from_spec() -> bool {
        true
    }

    open spec fn from_spec(value: i32) -> ConstValue {
        ConstValue::Integer(value as i128, IntSize::Int)
    }
}

impl From<u64> for ConstValue {
    fn from(value: u64) -> (r: ConstValue) {
        ConstValue::Integer(value as i128, IntSize::Long)
    }
}

impl vstd::std_specs::convert::FromSpecImpl<u64> for ConstValue {
    open spec fn obeys_from_spec() -> bool {
        true
    }

    open spec fn from_spec(value: u64) -> ConstValue {
        ConstValue::Integer(value as i128, IntSize::Long)
    }
}

impl From<i64> for ConstValue {
    fn from(value: i64) -> (r: ConstValue) {
        ConstValue::Integer(value as i128, IntSize::Long)
    }
}

impl vstd::std_specs::convert::FromSpecImpl<i64> for ConstValue {
    open spec fn obeys_from_spec() -> bool {
        true
    }

    open spec fn from_spec(value: i64) -> ConstValue {
        ConstValue::Integer(value as i128, IntSize::Long)
    }
}

/// An operand: a register or a constant.
#[derive(Copy, Clone, Debug)]
pub enum Expr {
    Register(RegID),
    Constant(ConstValue),
}

impl Expr {
    /// The type of the operand in `module`: that of the register, or that
    /// of the constant.
    pub open spec fn spec_expr_type(&self, module: &Module) -> Type {
        match *self {
            Expr::Register(id) => module@.registers[id.0 as int].reg_type,
            Expr::Constant(v) => v.spec_expr_type(),
        }
    }

    /// The type of the operand in `module`.
    #[verifier::when_used_as_spec(spec_expr_type)]
    pub fn expr_type(&self, module: &Module) -> (r: Type)
        requires
            *self matches Expr::Register(id) ==> id.0 < module@.registers.len(),
        ensures
            r == self.spec_expr_type(module),
    {
        match self {
            Expr::Register(id) => module.register(*id).reg_type(),
            Expr::Constant(v) => v.expr_type(),
        }
    }

    /// The types that the operand names.
    pub open spec fn types(&self) -> Seq<Type> {
        match *self {
            Expr::Register(_) => Seq::empty(),
            Expr::Constant(v) => v.types(),
        }
    }

    /// The operand `self` as it is handed to a place of type `to`: an
    /// integer constant that is no wider than `to`, where `to` is an integer
    /// type of a native size, becomes a constant of that size with the same
    /// value; every other operand is handed on as it is.
    pub open spec fn spec_coerce(self, to: Type) -> Expr {
        match (self, to) {
            (Expr::Constant(ConstValue::Integer(value, from)), Type::Integer(bits)) => {
                if from.spec_bits() <= bits && (bits == 8 || bits == 16 || bits == 32 || bits
                    == 64) {
                    Expr::Constant(
                        ConstValue::Integer(
                            value,
                            if bits == 8 {
                                IntSize::Byte
                            } else if bits == 16 {
                                IntSize::Short
                            } else if bits == 32 {
                                IntSize::Int
                            } else {
                                IntSize::Long
                            },
                        ),
                    )
                } else {
                    self
                }
            },
            _ => self,
        }
    }

    /// The operand as it is handed to a place of type `to`.
    #[verifier::when_used_as_spec(spec_coerce)]
    pub fn coerce(self, to: Type) -> (r: Expr)
        ensures
            r == self.spec_coerce(to),
    {
        match (self, to) {
            (Expr::Constant(ConstValue::Integer(value, from)), Type::Integer(bits)) => {
                match IntSize::from_bits(bits) {
                    Some(size) => {
                        if from.bits() as u16 <= bits {
                            Expr::Constant(ConstValue::Integer(value, size))
                        } else {
                            self
                        }
                    },
                    None => self,
                }
            },
            _ => self,
        }
    }
}

impl From<RegID> for Expr {
    fn from(value: RegID) -> (r: Expr) {
        Expr::Register(value)
    }
}

impl vstd::std_specs::convert::FromSpecImpl<RegID> for Expr {
    open spec fn obeys_from_spec() -> bool {
        true
    }

    open spec fn from_spec(value: RegID) -> Expr {
        Expr::Register(value)
    }
}

impl From<()> for Expr {
    fn from(value: ()) -> (r: Expr) {
        Expr::Constant(ConstValue::Unit)
    }
}

impl vstd::std_specs::convert::FromSpecImpl<()> for Expr {
    open spec fn obeys_from_spec() -> bool {
        true
    }

    open spec fn from_spec(value: ()) -> Expr {
        Expr::Constant(ConstValue::Unit)
    }
}

impl From<bool> for Expr {
    fn from(value: bool) -> (r: Expr) {
        Expr::Constant(ConstValue::Bool(value))
    }
}

impl vstd::std_specs::convert::FromSpecImpl<bool> for Expr {
    open spec fn obeys_from_spec() -> bool {
        true
    }

    open spec fn from_spec(value: bool) -> Expr {
        Expr::Constant(ConstValue::Bool(value))
    }
}

impl From<u8> for Expr {
    fn from(value: u8) -> (r: Expr) {
        Expr::Constant(ConstValue::Integer(value as i128, IntSize::Byte))
    }
}

impl vstd::std_specs::convert::FromSpecImpl<u8> for Expr {
    open spec fn obeys_from_spec() -> bool {
        true
    }

    open spec fn from_spec(value: u8) -> Expr {
        Expr::Constant(ConstValue::Integer(value as i128, IntSize::Byte))
    }
}

impl From<i8> for Expr {
    fn from(value: i8) -> (r: Expr) {
        Expr::Constant(ConstValue::Integer(value as i128, IntSize::Byte))
    }
}

impl vstd::std_specs::convert::FromSpecImpl<i8> for Expr {
    open spec fn obeys_from_spec() -> bool {
        true
    }

    open spec fn from_spec(value: i8) -> Expr {
        Expr::Constant(ConstValue::Integer(value as i128, IntSize::Byte))
    }
}

impl From<u16> for Expr {
    fn from(value: u16) -> (r: Expr) {
        Expr::Constant(ConstValue::Integer(value as i128, IntSize::Short))
    }
}

impl vstd::std_specs::convert::FromSpecImpl<u16> for Expr {
    open spec fn obeys_from_spec() -> bool {
        true
    }

    open spec fn from_spec(value: u16) -> Expr {
        Expr::Constant(ConstValue::Integer(value as i128, IntSize::Short))
    }
}

impl From<i16> for Expr {
    fn from(value: i16) -> (r: Expr) {
        Expr::Constant(ConstValue::Integer(value as i128, IntSize::Short))
    }
}

impl vstd::std_specs::convert::FromSpecImpl<i16> for Expr {
    open spec fn obeys_from_spec() -> bool {
        true
    }

    open spec fn from_spec(value: i16) -> Expr {
        Expr::Constant(ConstValue::Integer(value as i128, IntSize::Short))
    }
}

impl From<u32> for Expr {
    fn from(value: u32) -> (r: Expr) {
        Expr::Constant(ConstValue::Integer(value as i128, IntSize::Int))
    }
}

impl vstd::std_specs::convert::FromSpecImpl<u32> for Expr {
    open spec fn obeys_from_spec() -> bool {
        true
    }

    open spec fn from_spec(value: u32) -> Expr {
        Expr::Constant(ConstValue::Integer(value as i128, IntSize::Int))
    }
}

impl From<i32> for Expr {
    fn from(value: i32) -> (r: Expr) {
        Expr::Constant(ConstValue::Integer(value as i128, IntSize::Int))
    }
}

impl vstd::std_specs::convert::FromSpecImpl<i32> for Expr {
    open spec fn obeys_from_spec() -> bool {
        true
    }

    open spec fn from_spec(value: i32) -> Expr {
        Expr::Constant(ConstValue::Integer(value as i128, IntSize::Int))
    }
}

impl From<u64> for Expr {
    fn from(value: u64) -> (r: Expr) {
        Expr::Constant(ConstValue::Integer(value as i128, IntSize::Long))
    }
}

impl vstd::std_specs::convert::FromSpecImpl<u64> for Expr {
    open spec fn obeys_from_spec() -> bool {
        true
    }

    open spec fn from_spec(value: u64) -> Expr {
        Expr::Constant(ConstValue::Integer(value as i128, IntSize::Long))
    }
}

impl From<i64> for Expr {
    fn from(value: i64) -> (r: Expr) {
        Expr::Constant(ConstValue::Integer(value as i128, IntSize::Long))
    }
}

impl vstd::std_specs::convert::FromSpecImpl<i64> for Expr {
    open spec fn obeys_from_spec() -> bool {
        true
    }

    open spec fn from_spec(value: i64) -> Expr {
        Expr::Constant(ConstValue::Integer(value as i128, IntSize::Long))
    }
}

/// An operation on two integers of the same width.
#[derive(Copy, Clone, Debug, PartialEq, Eq, Hash, Structural)]
pub enum BinaryOp {
    Add,
    Sub,
    Mul,
    UDiv,
    IDiv,
    UMod,
    IMod,
    ShiftLeft,
    ShiftLogicalRight,
    ShiftArithmeticRight,
    And,
    Nand,
    Or,
    Nor,
    Xor,
    XNor,
}

impl BinaryOp {
    /// The name of the operation in the textual form of the code.
    pub open spec fn spec_mnemonic(self) -> Seq<char> {
        match self {
            BinaryOp::Add => "add"@,
            BinaryOp::Sub => "sub"@,
            BinaryOp::Mul => "mul"@,
            BinaryOp::UDiv => "udiv"@,
            BinaryOp::IDiv => "idiv"@,
            BinaryOp::UMod => "umod"@,
            BinaryOp::IMod => "imod"@,
            BinaryOp::ShiftLeft => "shl"@,
            BinaryOp::ShiftLogicalRight => "shr"@,
            BinaryOp::ShiftArithmeticRight => "sar"@,
            BinaryOp::And => "and"@,
            BinaryOp::Nand => "nand"@,
            BinaryOp::Or => "or"@,
            BinaryOp::Nor => "nor"@,
            BinaryOp::Xor => "xor"@,
            BinaryOp::XNor => "xnor"@,
        }
    }

    /// The name of the operation in the textual form of the code.
    pub fn mnemonic(self) -> (r: &'static str)
        ensures
            r@ == self.spec_mnemonic(),
    {
        match self {
            BinaryOp::Add => "add",
            BinaryOp::Sub => "sub",
            BinaryOp::Mul => "mul",
            BinaryOp::UDiv => "udiv",
            BinaryOp::IDiv => "idiv",
            BinaryOp::UMod => "umod",
            BinaryOp::IMod => "imod",
            BinaryOp::ShiftLeft => "shl",
            BinaryOp::ShiftLogicalRight => "shr",
            BinaryOp::ShiftArithmeticRight => "sar",
            BinaryOp::And => "and",
            BinaryOp::Nand => "nand",
            BinaryOp::Or => "or",
            BinaryOp::Nor => "nor",
            BinaryOp::Xor => "xor",
            BinaryOp::XNor => "xnor",
        }
    }
}

/// An operation on one value.
#[derive(Copy, Clone, Debug, PartialEq, Eq, Hash, Structural)]
pub enum UnaryOp {
    Not,
    Neg,
    Freeze,
    Truncate,
    SignExtend,
    ZeroExtend,
    IntToPtr,
    PtrToInt,
}

impl UnaryOp {
    /// The name of the operation in the textual form of the code.
    pub open spec fn spec_mnemonic(self) -> Seq<char> {
        match self {
            UnaryOp::Not => "not"@,
            UnaryOp::Neg => "neg"@,
            UnaryOp::Freeze => "freeze"@,
            UnaryOp::Truncate => "trunc"@,
            UnaryOp::SignExtend => "sext"@,
            UnaryOp::ZeroExtend => "zext"@,
            UnaryOp::IntToPtr => "inttoptr"@,
            UnaryOp::PtrToInt => "ptrtoint"@,
        }
    }

    /// The name of the operation in the textual form of the code.
    pub fn mnemonic(self) -> (r: &'static str)
        ensures
            r@ == self.spec_mnemonic(),
    {
        match self {
            UnaryOp::Not => "not",
            UnaryOp::Neg => "neg",
            UnaryOp::Freeze => "freeze",
            UnaryOp::Truncate => "trunc",
            UnaryOp::SignExtend => "sext",
            UnaryOp::ZeroExtend => "zext",
            UnaryOp::IntToPtr => "inttoptr",
            UnaryOp::PtrToInt => "ptrtoint",
        }
    }
}

/// A comparison of two values of the same type. `Greater` and `Less` compare
/// as signed numbers, `Above` and `Below` as unsigned ones.
#[derive(Copy, Clone, Debug, PartialEq, Eq, Hash, Structural)]
pub enum TestOp {
    Equal,
    NotEqual,
    Greater,
    Less,
    GreaterEqual,
    LessEqual,
    Above,
    Below,
    AboveEqual,
    BelowEqual,
}

impl TestOp {
    /// The name of the comparison in the textual form of the code.
    pub open spec fn spec_mnemonic(self) -> Seq<char> {
        match self {
            TestOp::Equal => "test.eq"@,
            TestOp::NotEqual => "test.neq"@,
            TestOp::Greater => "test.sgt"@,
            TestOp::Less => "test.slt"@,
            TestOp::GreaterEqual => "test.sge"@,
            TestOp::LessEqual => "test.sle"@,
            TestOp::Above => "test.ugt"@,
            TestOp::Below => "test.ult"@,
            TestOp::AboveEqual => "test.uge"@,
            TestOp::BelowEqual => "test.ule"@,
        }
    }

    /// The name of the comparison in the textual form of the code.
    pub fn mnemonic(self) -> (r: &'static str)
        ensures
            r@ == self.spec_mnemonic(),
    {
        match self {
            TestOp::Equal => "test.eq",
            TestOp::NotEqual => "test.neq",
            TestOp::Greater => "test.sgt",
            TestOp::Less => "test.slt",
            TestOp::GreaterEqual => "test.sge",
            TestOp::LessEqual => "test.sle",
            TestOp::Above => "test.ugt",
            TestOp::Below => "test.ult",
            TestOp::AboveEqual => "test.uge",
            TestOp::BelowEqual => "test.ule",
        }
    }
}

/// Where a jump goes, and the values that the parameters of that block get.
#[derive(Clone, Debug)]
pub struct BlockTarget {
    pub block: BlockID,
    pub parameters: Vec<Expr>,
}

impl BlockTarget {
    /// A jump to `block` that hands over no value.
    pub fn to(block: BlockID) -> (r: BlockTarget)
        ensures
            r.block == block,
            r.parameters@.len() == 0,
    {
        BlockTarget { block, parameters: Vec::new() }
    }

    /// A jump to `block` that hands over `parameters`, in this order.
    pub fn with(block: BlockID, parameters: Vec<Expr>) -> (r: BlockTarget)
        ensures
            r.block == block,
            r.parameters == parameters,
    {
        BlockTarget { block, parameters }
    }
}

/// One step of a block.
///
/// The first register of a variant that has one, or its field `target`, is
/// the register that the instruction writes.
#[derive(Clone, Debug)]
pub enum Instruction {
    /// Does nothing.
    Nop,
    /// Copies a value.
    Assign(RegID, Expr),
    BinaryOp(RegID, BinaryOp, Expr, Expr),
    UnaryOp(RegID, UnaryOp, Expr),
    TestOp(RegID, TestOp, Expr, Expr),
    /// Builds a struct from its members.
    MakeStruct(RegID, Vec<Expr>),
    /// Builds an array from its elements.
    MakeArray(RegID, Vec<Expr>),
    /// Builds an array that holds one value a number of times.
    MakeShortArray(RegID, Expr, u64),
    /// Picks one of two values.
    Select { target: RegID, condition: Expr, true_value: Expr, false_value: Expr },
    /// Reads an element of an array value.
    GetElement { target: RegID, array: Expr, index: Expr },
    /// Computes the address of an element of an array in memory.
    GetElementPtr { target: RegID, array_pointer: RegID, index: Expr, element_type: Type },
    /// Reads a member of a struct value.
    GetMember { target: RegID, structure: Expr, member: u32 },
    /// Computes the address of a member of a struct in memory.
    GetMemberPtr { target: RegID, struct_pointer: RegID, member: u32, struct_type: StructTypeID },
    /// Takes the address of a variable.
    GetVarPointer(RegID, VarID),
    /// Takes the address of a function.
    GetFunctionPointer(RegID, FuncID),
    /// Reads the value that a pointer points to.
    Load { target: RegID, pointer: RegID, volatile: bool },
    /// Writes a value to where a pointer points to.
    Store { pointer: RegID, value: Expr, volatile: bool },
    /// Goes on in another block.
    Jump(BlockTarget),
    /// Goes on in the first block if the condition holds, else in the second.
    Branch(Expr, BlockTarget, BlockTarget),
    /// Calls a function of the module.
    Call { target: RegID, function: FuncID, args: Vec<Expr> },
    /// Calls the function that a pointer points to.
    CallPtr { target: RegID, function_ptr: RegID, args: Vec<Expr>, signature: FunctionSignature },
    /// Asks the operating system for a service.
    Syscall { target: RegID, number: Expr, args: Vec<Expr> },
    /// Leaves the function with a value.
    Return(Expr),
}

impl Instruction {
    /// The register that the instruction writes, if it writes one.
    pub open spec fn target(&self) -> Option<RegID> {
        match *self {
            Instruction::Nop => None,
            Instruction::Assign(t, _) => Some(t),
            Instruction::BinaryOp(t, _, _, _) => Some(t),
            Instruction::UnaryOp(t, _, _) => Some(t),
            Instruction::TestOp(t, _, _, _) => Some(t),
            Instruction::MakeStruct(t, _) => Some(t),
            Instruction::MakeArray(t, _) => Some(t),
            Instruction::MakeShortArray(t, _, _) => Some(t),
            Instruction::Select { target, .. } => Some(target),
            Instruction::GetElement { target, .. } => Some(target),
            Instruction::GetElementPtr { target, .. } => Some(target),
            Instruction::GetMember { target, .. } => Some(target),
            Instruction::GetMemberPtr { target, .. } => Some(target),
            Instruction::GetVarPointer(t, _) => Some(t),
            Instruction::GetFunctionPointer(t, _) => Some(t),
            Instruction::Load { target, .. } => Some(target),
            Instruction::Store { .. } => None,
            Instruction::Jump(_) => None,
            Instruction::Branch(_, _, _) => None,
            Instruction::Call { target, .. } => Some(target),
            Instruction::CallPtr { target, .. } => Some(target),
            Instruction::Syscall { target, .. } => Some(target),
            Instruction::Return(_) => None,
        }
    }

    /// The values that the instruction reads, but for those that it hands to
    /// another block. A register that is read as a pointer counts.
    pub open spec fn operands(&self) -> Seq<Expr> {
        match *self {
            Instruction::Nop => Seq::empty(),
            Instruction::Assign(_, a) => seq![a],
            Instruction::BinaryOp(_, _, a, b) => seq![a, b],
            Instruction::UnaryOp(_, _, a) => seq![a],
            Instruction::TestOp(_, _, a, b) => seq![a, b],
            Instruction::MakeStruct(_, values) => values@,
            Instruction::MakeArray(_, values) => values@,
            Instruction::MakeShortArray(_, value, _) => seq![value],
            Instruction::Select { condition, true_value, false_value, .. } => seq![
                condition,
                true_value,
                false_value,
            ],
            Instruction::GetElement { array, index, .. } => seq![array, index],
            Instruction::GetElementPtr { array_pointer, index, .. } => seq![
                Expr::Register(array_pointer),
                index,
            ],
            Instruction::GetMember { structure, .. } => seq![structure],
            Instruction::GetMemberPtr { struct_pointer, .. } => seq![Expr::Register(struct_pointer)],
            Instruction::GetVarPointer(_, _) => Seq::empty(),
            Instruction::GetFunctionPointer(_, _) => Seq::empty(),
            Instruction::Load { pointer, .. } => seq![Expr::Register(pointer)],
            Instruction::Store { pointer, value, .. } => seq![Expr::Register(pointer), value],
            Instruction::Jump(_) => Seq::empty(),
            Instruction::Branch(c, _, _) => seq![c],
            Instruction::Call { args, .. } => args@,
            Instruction::CallPtr { function_ptr, args, .. } => seq![Expr::Register(function_ptr)]
                + args@,
            Instruction::Syscall { number, args, .. } => seq![number] + args@,
            Instruction::Return(value) => seq![value],
        }
    }

    /// The blocks that the instruction may go on in: for a branch, first the
    /// one for a condition that holds.
    pub open spec fn successors(&self) -> Seq<BlockTarget> {
        match *self {
            Instruction::Jump(t) => seq![t],
            Instruction::Branch(_, t, f) => seq![t, f],
            _ => Seq::empty(),
        }
    }

    /// The variable whose address the instruction takes.
    pub open spec fn variable(&self) -> Option<VarID> {
        match *self {
            Instruction::GetVarPointer(_, v) => Some(v),
            _ => None,
        }
    }

    /// The function that the instruction names.
    pub open spec fn callee(&self) -> Option<FuncID> {
        match *self {
            Instruction::GetFunctionPointer(_, f) => Some(f),
            Instruction::Call { function, .. } => Some(function),
            _ => None,
        }
    }

    /// The types that the instruction itself names, apart from those in its
    /// operands.
    pub open spec fn types(&self) -> Seq<Type> {
        match *self {
            Instruction::GetElementPtr { element_type, .. } => seq![element_type],
            Instruction::GetMemberPtr { struct_type, .. } => seq![Type::Struct(struct_type)],
            Instruction::CallPtr { signature, .. } => seq![signature.return_type]
                + signature.parameter_types@,
            _ => Seq::empty(),
        }
    }

    /// Whether the instruction ends a block: a jump, a branch or a return.
    pub open spec fn spec_is_terminator(&self) -> bool {
        *self is Jump || *self is Branch || *self is Return
    }

    /// Whether the instruction ends a block: a jump, a branch or a return.
    #[verifier::when_used_as_spec(spec_is_terminator)]
    pub fn is_terminator(&self) -> (r: bool)
        ensures
            r == self.spec_is_terminator(),
    {
        match self {
            Instruction::Jump(_) => true,
            Instruction::Branch(_, _, _) => true,
            Instruction::Return(_) => true,
            _ => false,
        }
    }

    /// The blocks that the instruction may go on in: none, one for a jump,
    /// two for a branch.
    pub fn next_blocks(&self) -> (r: Option<(BlockID, Option<BlockID>)>)
        ensures
            match r {
                None => self.successors().len() == 0,
                Some((a, None)) => self.successors().len() == 1 && self.successors()[0].block
                    == a,
                Some((a, Some(b))) => self.successors().len() == 2 && self.successors()[0].block
                    == a && self.successors()[1].block == b,
            },
    {
        match self {
            Instruction::Jump(target) => Some((target.block, None)),
            Instruction::Branch(_, t, f) => Some((t.block, Some(f.block))),
            _ => None,
        }
    }
}

} // verus!
