//! The lowering engine for x86-64.

use crate::backend::frame::{depth_after, lemma_depth_grows, place, slot_offset};
use crate::backend::lowering::{
    argument_register, at, behind, compute, condition, divide, epilogue, frame_limit, immediate,
    move_bytes, native, position, reg, scalar, slot, syscall_register, Cx, Lowered,
};
use crate::backend::schedule::{is_schedule, reachable, reachable_blocks};
use crate::module::block::BlockID;
use crate::module::function::FuncID;
use crate::module::instruction::{
    BinaryOp, BlockTarget, ConstValue, Expr, Instruction, TestOp, UnaryOp,
};
use crate::module::register::RegID;
use crate::module::variable::VarID;
use crate::module::{Module, ModuleView};
use crate::target::System;
use crate::types::{align_up_checked, lemma_align_up, IntSize, Type, Types};
use crate::x64::args::{Arg, ConstInt, Memory};
use crate::x64::label::Label;
use crate::x64::register::{Register, RegisterName};
use crate::x64::size::Size;
use crate::x64::writer::{AsmWriter, Cond, Line, Opcode};
use vstd::prelude::*;

verus! {

/// What has no lowering.
#[derive(Copy, Clone, Debug, PartialEq, Eq, Structural)]
pub enum Construct {
    /// The frame of this function is too large.
    Frame(FuncID),
    /// The parameters of this function cannot be taken: there are more than
    /// six, or one fits no machine register.
    Parameters(FuncID),
    /// The instruction at this position of this block.
    Instruction(BlockID, usize),
}

/// Why a module was not lowered.
#[derive(Copy, Clone, Debug, PartialEq, Eq, Structural)]
pub enum LowerError {
    /// There is no lowering for the construct on this target.
    Unsupported(Construct),
    /// The block breaks a rule that is only checked when the code is
    /// lowered: it does not end with its only jump, branch or return, or
    /// one of its instructions has operands of the wrong types or number.
    Malformed(BlockID),
}

/// The deepest that the stack of a function may reach below its frame
/// base.
pub open spec fn depth_limit() -> nat {
    0x7000_0000
}

/// The size of a value of type `ty` that fits a machine register.
pub fn scalar_size(ty: Type) -> (r: Option<Size>)
    ensures
        r == scalar(ty),
{
    match ty {
        Type::Bool => Some(Size::Byte),
        Type::Pointer => Some(Size::Quad),
        Type::Integer(bits) => if bits == 8 {
            Some(Size::Byte)
        } else if bits == 16 {
            Some(Size::Word)
        } else if bits == 32 {
            Some(Size::Double)
        } else if bits == 64 {
            Some(Size::Quad)
        } else {
            None
        },
        _ => None,
    }
}

/// The operand size of an integer of a native size.
pub fn native_size(size: IntSize) -> (r: Size)
    ensures
        r == native(size),
{
    match size {
        IntSize::Byte => Size::Byte,
        IntSize::Short => Size::Word,
        IntSize::Int => Size::Double,
        IntSize::Long => Size::Quad,
    }
}

/// The number `v` as a constant of the size `size`, where it fits.
pub fn immediate_of(v: i128, size: Size) -> (r: Option<ConstInt>)
    ensures
        r == immediate(v as int, size),
{
    match size {
        Size::Byte => if -128 <= v && v <= 127 {
            Some(ConstInt::I8(v as i8))
        } else if 0 <= v && v <= 255 {
            Some(ConstInt::U8(v as u8))
        } else {
            None
        },
        Size::Word => if -32768 <= v && v <= 32767 {
            Some(ConstInt::I16(v as i16))
        } else if 0 <= v && v <= 65535 {
            Some(ConstInt::U16(v as u16))
        } else {
            None
        },
        Size::Double => if -2147483648 <= v && v <= 2147483647 {
            Some(ConstInt::I32(v as i32))
        } else if 0 <= v && v <= 4294967295 {
            Some(ConstInt::U32(v as u32))
        } else {
            None
        },
        Size::Quad => if -9223372036854775808 <= v && v <= 9223372036854775807 {
            Some(ConstInt::I64(v as i64))
        } else if 0 <= v && v <= 18446744073709551615 {
            Some(ConstInt::U64(v as u64))
        } else {
            None
        },
    }
}

/// The machine register `name` in the size `size`, as an operand.
pub fn reg_arg(name: RegisterName, size: Size) -> (r: Arg)
    ensures
        r == reg(name, size),
{
    Arg::Register(Register(name, size))
}

/// The memory `off` bytes from the frame base.
pub fn frame_memory(off: i32) -> (r: Memory)
    ensures
        r == at(off as int),
{
    Memory::sib().base(Register(RegisterName::BP, Size::Quad)).offset(ConstInt::I32(off))
}

/// The value of size `size` that lies `off` bytes from the frame base, as
/// an operand.
pub fn slot_arg(off: i32, size: Size) -> (r: Arg)
    ensures
        r == slot(off as int, size),
{
    Arg::Memory(frame_memory(off).size(size))
}

/// The memory that the machine register `name` points to.
pub fn memory_behind(name: RegisterName) -> (r: Memory)
    ensures
        r == behind(name),
{
    Memory::sib().base(Register(name, Size::Quad)).offset(ConstInt::I32(0))
}

/// The machine register that holds argument number `i` of a call.
pub fn argument_register_of(i: usize) -> (r: RegisterName)
    ensures
        r == argument_register(i as int),
{
    if i == 0 {
        RegisterName::DI
    } else if i == 1 {
        RegisterName::SI
    } else if i == 2 {
        RegisterName::D
    } else if i == 3 {
        RegisterName::C
    } else if i == 4 {
        RegisterName::R8
    } else {
        RegisterName::R9
    }
}

/// The machine register that holds argument number `i` of a request to
/// the operating system.
pub fn syscall_register_of(i: usize) -> (r: RegisterName)
    ensures
        r == syscall_register(i as int),
{
    if i == 3 {
        RegisterName::R10
    } else {
        argument_register_of(i)
    }
}

/// The condition that a comparison of the code asks the machine for.
pub fn condition_of(op: TestOp) -> (r: Cond)
    ensures
        r == condition(op),
{
    match op {
        TestOp::Equal => Cond::Equal,
        TestOp::NotEqual => Cond::NotEqual,
        TestOp::Greater => Cond::Greater,
        TestOp::Less => Cond::Less,
        TestOp::GreaterEqual => Cond::GreaterEqual,
        TestOp::LessEqual => Cond::LessEqual,
        TestOp::Above => Cond::Above,
        TestOp::Below => Cond::Below,
        TestOp::AboveEqual => Cond::AboveEqual,
        TestOp::BelowEqual => Cond::BelowEqual,
    }
}

/// Where the value of an operand is once the operand is evaluated.
#[derive(Copy, Clone, Debug, PartialEq, Eq, Structural)]
pub enum EvaledExpr {
    /// In the machine register that was asked for, in this size.
    Register(Size),
    /// In memory, at this offset from the frame base.
    Temporary(i32),
}

/// What the engine knows of the function that it lowers.
pub struct FuncCtx {
    id: FuncID,
    rsp_offset: i32,
    unrealized_movement: i32,
    temp_start: i32,
    variables: Vec<i32>,
    registers: Vec<i32>,
}

impl FuncCtx {
    /// The function that is lowered.
    pub closed spec fn function(&self) -> FuncID {
        self.id
    }

    /// How far below the frame base the stack pointer is.
    pub closed spec fn realized(&self) -> int {
        -(self.rsp_offset as int)
    }

    /// How far below the frame base the stack is taken: further than the
    /// stack pointer is where an adjustment of the stack pointer is
    /// pending.
    pub closed spec fn depth(&self) -> int {
        -(self.rsp_offset as int) - (self.unrealized_movement as int)
    }

    /// How far below the frame base the temporaries start.
    pub closed spec fn temps(&self) -> int {
        -(self.temp_start as int)
    }

    /// The offsets of the slots of the variables, by identifier.
    pub closed spec fn variables(&self) -> Seq<i32> {
        self.variables@
    }

    /// The offsets of the slots of the registers, by identifier.
    pub closed spec fn registers(&self) -> Seq<i32> {
        self.registers@
    }

    /// The stack is empty, or taken no deeper than it may be, and the
    /// stack pointer is not below what is taken.
    pub closed spec fn wf(&self) -> bool {
        &&& 0 <= self.realized() <= self.depth() <= depth_limit()
        &&& 0 <= self.temps() <= self.realized()
    }

    /// A context for the function `id`, with an empty stack and room for
    /// the offsets of `variables` variables and `registers` registers.
    pub fn new(id: FuncID, variables: usize, registers: usize) -> (r: Self)
        ensures
            r.wf(),
            r.function() == id,
            r.realized() == 0,
            r.depth() == 0,
            r.temps() == 0,
            r.variables().len() == variables,
            r.registers().len() == registers,
    {
        Self {
            id,
            rsp_offset: 0,
            unrealized_movement: 0,
            temp_start: 0,
            variables: vec![0i32; variables],
            registers: vec![0i32; registers],
        }
    }

    /// Starts over for the function `id`, with an empty stack. The offsets
    /// of slots stay as they are until they are set again.
    pub fn restart(&mut self, id: FuncID)
        ensures
            final(self).wf(),
            final(self).function() == id,
            final(self).realized() == 0,
            final(self).depth() == 0,
            final(self).temps() == 0,
            final(self).variables() == old(self).variables(),
            final(self).registers() == old(self).registers(),
    {
        self.id = id;
        self.rsp_offset = 0;
        self.unrealized_movement = 0;
        self.temp_start = 0;
    }

    /// Notes that the slot of the variable `v` lies at `offset`.
    pub fn set_variable(&mut self, v: VarID, offset: i32)
        requires
            v.0 < old(self).variables().len(),
        ensures
            final(self).variables() == old(self).variables().update(v.0 as int, offset),
            final(self).registers() == old(self).registers(),
            final(self).function() == old(self).function(),
            final(self).realized() == old(self).realized(),
            final(self).depth() == old(self).depth(),
            final(self).temps() == old(self).temps(),
            final(self).wf() == old(self).wf(),
    {
        self.variables.set(v.0, offset);
    }

    /// Notes that the slot of the register `r` lies at `offset`.
    pub fn set_register(&mut self, r: RegID, offset: i32)
        requires
            r.0 < old(self).registers().len(),
        ensures
            final(self).registers() == old(self).registers().update(r.0 as int, offset),
            final(self).variables() == old(self).variables(),
            final(self).function() == old(self).function(),
            final(self).realized() == old(self).realized(),
            final(self).depth() == old(self).depth(),
            final(self).temps() == old(self).temps(),
            final(self).wf() == old(self).wf(),
    {
        self.registers.set(r.0, offset);
    }

    /// The offset of the slot of the variable `v`.
    pub fn variable_offset(&self, v: VarID) -> (r: i32)
        requires
            v.0 < self.variables().len(),
        ensures
            r == self.variables()[v.0 as int],
    {
        self.variables[v.0]
    }

    /// The offset of the slot of the register `r`.
    pub fn register_offset(&self, r: RegID) -> (off: i32)
        requires
            r.0 < self.registers().len(),
        ensures
            off == self.registers()[r.0 as int],
    {
        self.registers[r.0]
    }

    /// Moves the stack pointer, in the books, to where the stack is taken
    /// to, and returns by how many bytes it moved.
    pub fn realize(&mut self) -> (moved: i32)
        requires
            old(self).wf(),
        ensures
            final(self).wf(),
            moved == old(self).depth() - old(self).realized(),
            final(self).realized() == old(self).depth(),
            final(self).depth() == old(self).depth(),
            final(self).temps() == old(self).temps(),
            final(self).function() == old(self).function(),
            final(self).variables() == old(self).variables(),
            final(self).registers() == old(self).registers(),
    {
        let moved = 0 - self.unrealized_movement;
        self.rsp_offset = self.rsp_offset + self.unrealized_movement;
        self.unrealized_movement = 0;
        moved
    }

    /// Gives up the temporaries: moves the stack pointer, in the books,
    /// back to where they start, and returns by how many bytes it moved.
    /// No adjustment of the stack pointer is pending.
    pub fn release(&mut self) -> (moved: i32)
        requires
            old(self).wf(),
            old(self).depth() == old(self).realized(),
        ensures
            final(self).wf(),
            moved == old(self).realized() - old(self).temps(),
            final(self).realized() == old(self).temps(),
            final(self).depth() == old(self).temps(),
            final(self).temps() == old(self).temps(),
            final(self).function() == old(self).function(),
            final(self).variables() == old(self).variables(),
            final(self).registers() == old(self).registers(),
    {
        let moved = self.temp_start - self.rsp_offset;
        self.rsp_offset = self.temp_start;
        moved
    }

    /// Lets the temporaries start where the stack pointer is.
    pub fn start_temps(&mut self)
        requires
            old(self).wf(),
        ensures
            final(self).wf(),
            final(self).temps() == old(self).realized(),
            final(self).realized() == old(self).realized(),
            final(self).depth() == old(self).depth(),
            final(self).function() == old(self).function(),
            final(self).variables() == old(self).variables(),
            final(self).registers() == old(self).registers(),
    {
        self.temp_start = self.rsp_offset;
    }

    /// Takes `size` bytes of the stack, aligned to `alignment`, below
    /// what is taken, without moving the stack pointer yet. Returns the
    /// offset of these bytes from the frame base, or `None`, and takes
    /// nothing, where the stack would reach deeper than it may.
    pub fn delayed_alloc(&mut self, size: u64, alignment: u64) -> (r: Option<i32>)
        requires
            old(self).wf(),
            alignment >= 1,
        ensures
            final(self).wf(),
            final(self).function() == old(self).function(),
            final(self).variables() == old(self).variables(),
            final(self).registers() == old(self).registers(),
            final(self).realized() == old(self).realized(),
            final(self).temps() == old(self).temps(),
            match r {
                Some(offset) => {
                    &&& final(self).depth() == place(
                        old(self).depth() as nat,
                        size as nat,
                        alignment as nat,
                    )
                    &&& offset == -final(self).depth()
                },
                None => {
                    &&& final(self).depth() == old(self).depth()
                    &&& place(old(self).depth() as nat, size as nat, alignment as nat)
                        > depth_limit()
                },
            },
    {
        let depth: u64 = (0 - (self.rsp_offset as i64 + self.unrealized_movement as i64)) as u64;
        proof {
            lemma_align_up((depth + size) as nat, alignment as nat);
        }
        let end = match depth.checked_add(size) {
            Some(end) => end,
            None => {
                return None;
            },
        };
        let deeper = match align_up_checked(end, alignment) {
            Some(deeper) => deeper,
            None => {
                return None;
            },
        };
        if deeper > 0x7000_0000 {
            return None;
        }
        let offset: i32 = (0 - (deeper as i64)) as i32;
        self.unrealized_movement = (offset as i64 - self.rsp_offset as i64) as i32;
        Some(offset)
    }
}


/// Lowers a module to the lines of an assembly program.
pub struct Backend<'a> {
    system: System,
    writer: AsmWriter,
    module: &'a Module,
    types: &'a Types,
    ctx: FuncCtx,
}

/// Why a construct was not lowered.
#[derive(Copy, Clone, Debug, PartialEq, Eq, Structural)]
pub enum Fault {
    Unsupported,
    Malformed,
}

impl<'a> Backend<'a> {
    /// The lines that were written so far.
    pub closed spec fn lines(&self) -> Seq<Line> {
        self.writer@
    }

    /// The module that is lowered.
    pub closed spec fn module_of(&self) -> Module {
        *self.module
    }

    /// The store of the types of the module.
    pub closed spec fn types_of(&self) -> Types {
        *self.types
    }

    /// The system that the code is for.
    pub closed spec fn system_of(&self) -> System {
        self.system
    }

    /// What the engine has noted of the function that it lowers.
    pub closed spec fn ctx_of(&self) -> FuncCtx {
        self.ctx
    }

    /// What is lowered at the moment.
    pub open spec fn cx(&self) -> Cx {
        Cx {
            m: self.module_of()@,
            types: self.types_of(),
            system: self.system_of(),
            f: self.ctx_of().function(),
        }
    }

    /// Module and types are in order, and there is room for the offset of
    /// each register and variable.
    pub open spec fn wf(&self) -> bool {
        &&& self.module_of().wf()
        &&& self.types_of().wf()
        &&& self.module_of().typed_in(&self.types_of())
        &&& self.ctx_of().wf()
        &&& self.ctx_of().registers().len() == self.module_of()@.registers.len()
        &&& self.ctx_of().variables().len() == self.module_of()@.variables.len()
    }

    /// The engine is inside a function: the frame is laid out as the
    /// function asks, and the engine has noted the offset of each register
    /// and variable of the function.
    #[verifier::opaque]
    pub open spec fn slotted(&self) -> bool {
        let cx = self.cx();
        let ctx = self.ctx_of();
        &&& self.wf()
        &&& cx.wf()
        &&& cx.frame_fits()
        &&& ctx.temps() == cx.frame_size()
        &&& forall|r: RegID|
            cx.m.reg_in(r, cx.f) ==> (#[trigger] ctx.registers()[r.0 as int]) as int == cx.reg_off(
                r,
            )
        &&& forall|v: VarID|
            cx.m.var_in(v, cx.f) ==> (#[trigger] ctx.variables()[v.0 as int]) as int == cx.var_off(
                v,
            )
    }

    /// The engine is inside a function, between two instructions: the
    /// stack pointer is at the end of the frame.
    pub open spec fn framed(&self) -> bool {
        &&& self.slotted()
        &&& self.ctx_of().realized() == self.cx().frame_size()
        &&& self.ctx_of().depth() == self.cx().frame_size()
    }

    /// Whether `post` differs from `pre` in its lines at most.
    pub open spec fn kept(pre: &Self, post: &Self) -> bool {
        &&& post.module_of() == pre.module_of()
        &&& post.types_of() == pre.types_of()
        &&& post.system_of() == pre.system_of()
        &&& post.ctx_of().function() == pre.ctx_of().function()
        &&& post.ctx_of().realized() == pre.ctx_of().realized()
        &&& post.ctx_of().depth() == pre.ctx_of().depth()
        &&& post.ctx_of().temps() == pre.ctx_of().temps()
        &&& post.ctx_of().variables() == pre.ctx_of().variables()
        &&& post.ctx_of().registers() == pre.ctx_of().registers()
        &&& post.ctx_of().wf() == pre.ctx_of().wf()
        &&& post.slotted() == pre.slotted()
        &&& post.framed() == pre.framed()
    }

    /// Whether `post` lowers what `pre` lowers, with the same slots.
    pub open spec fn same_task(pre: &Self, post: &Self) -> bool {
        &&& post.module_of() == pre.module_of()
        &&& post.types_of() == pre.types_of()
        &&& post.system_of() == pre.system_of()
        &&& post.ctx_of().function() == pre.ctx_of().function()
        &&& post.ctx_of().temps() == pre.ctx_of().temps()
        &&& post.ctx_of().variables() == pre.ctx_of().variables()
        &&& post.ctx_of().registers() == pre.ctx_of().registers()
        &&& pre.slotted() ==> post.slotted()
    }

    /// Whether `post` is `pre` after an attempt to write the lines `l`:
    /// they were written, and nothing else has changed, exactly if there
    /// are any, which `done` says.
    pub open spec fn wrote(pre: &Self, post: &Self, l: Option<Seq<Line>>, done: bool) -> bool {
        match l {
            Some(l) => done && Self::kept(pre, post) && post.lines() == pre.lines() + l,
            None => !done,
        }
    }

    /// Whether `post` is `pre` after an attempt to lower a construct with
    /// the outcome `code`, of which `r` tells.
    pub open spec fn lowered(pre: &Self, post: &Self, code: Lowered, r: Result<(), Fault>) -> bool {
        match code {
            Lowered::Lines(l) => r is Ok && Self::kept(pre, post) && post.lines() == pre.lines()
                + l,
            Lowered::Unsupported => r == Err::<(), Fault>(Fault::Unsupported),
            Lowered::Malformed => r == Err::<(), Fault>(Fault::Malformed),
        }
    }

    /// An engine that lowers `module`, whose types are those of `types`,
    /// for `system`. No line is written yet.
    pub fn new(system: System, module: &'a Module, types: &'a Types) -> (r: Self)
        requires
            module.wf(),
            types.wf(),
            module.typed_in(types),
        ensures
            r.wf(),
            r.lines() == Seq::<Line>::empty(),
            r.module_of() == *module,
            r.types_of() == *types,
            r.system_of() == system,
    {
        Self {
            system,
            writer: AsmWriter::new(),
            module,
            types,
            ctx: FuncCtx::new(FuncID(0), module.variable_count(), module.register_count()),
        }
    }

    fn emit(&mut self, line: Line)
        ensures
            Self::kept(old(self), final(self)),
            final(self).lines() == old(self).lines() + seq![line],
    {
        proof {
            reveal(Backend::slotted);
        }
        self.writer.emit(line);
        assert(self.writer@ =~= old(self).writer@ + seq![line]);
    }

    /// Size and alignment of the type `t`, or `None` where the size is not
    /// below 2^64.
    fn layout(&self, t: Type) -> (r: Option<(u64, u64)>)
        requires
            self.wf(),
            self.types_of().valid(t),
        ensures
            match r {
                Some(l) => l.0 == self.types_of().size_of(t) && l.1 == self.types_of().align_of(t)
                    && 1 <= l.1 <= 32,
                None => self.types_of().size_of(t) > u64::MAX,
            },
    {
        proof {
            self.types.lemma_align_bounds(t);
        }
        self.types.checked_layout(t)
    }

    /// Size, alignment and member offsets of the struct type `s`, or
    /// `None` where the size is not below 2^64.
    fn struct_layout(&self, s: crate::types::StructTypeID) -> (r: Option<
        crate::types::StructLayout,
    >)
        requires
            self.wf(),
            self.types_of().valid(Type::Struct(s)),
        ensures
            match r {
                Some(l) => {
                    &&& l.size == self.types_of().size_of(Type::Struct(s))
                    &&& l.alignment == self.types_of().align_of(Type::Struct(s))
                    &&& l.field_offsets@.len() == self.types_of().structs()[s.0 as int].len()
                    &&& forall|i: int|
                        0 <= i < l.field_offsets@.len() ==> #[trigger] l.field_offsets@[i]
                            == self.types_of().member_offset(s, i as nat)
                },
                None => self.types_of().size_of(Type::Struct(s)) > u64::MAX,
            },
    {
        self.types.struct_layout(s)
    }

    /// Takes room for a value of `size` bytes, aligned to `alignment`,
    /// below what is taken of the stack, without moving the stack pointer
    /// yet.
    fn delayed_alloc(&mut self, size: u64, alignment: u64) -> (r: Option<i32>)
        requires
            old(self).wf(),
            alignment >= 1,
        ensures
            final(self).wf(),
            final(self).lines() == old(self).lines(),
            old(self).slotted() ==> final(self).slotted(),
            final(self).module_of() == old(self).module_of(),
            final(self).types_of() == old(self).types_of(),
            final(self).system_of() == old(self).system_of(),
            final(self).ctx_of().function() == old(self).ctx_of().function(),
            final(self).ctx_of().variables() == old(self).ctx_of().variables(),
            final(self).ctx_of().registers() == old(self).ctx_of().registers(),
            final(self).ctx_of().realized() == old(self).ctx_of().realized(),
            final(self).ctx_of().temps() == old(self).ctx_of().temps(),
            match r {
                Some(offset) => {
                    &&& final(self).ctx_of().depth() == place(
                        old(self).ctx_of().depth() as nat,
                        size as nat,
                        alignment as nat,
                    )
                    &&& offset == -final(self).ctx_of().depth()
                },
                None => {
                    &&& final(self).ctx_of().depth() == old(self).ctx_of().depth()
                    &&& place(old(self).ctx_of().depth() as nat, size as nat, alignment as nat)
                        > depth_limit()
                },
            },
    {
        proof {
            reveal(Backend::slotted);
        }
        self.ctx.delayed_alloc(size, alignment)
    }

    /// Takes room for a value of the type `t` below what is taken of the
    /// stack, without moving the stack pointer yet.
    fn delayed_alloc_type(&mut self, t: Type) -> (r: Option<i32>)
        requires
            old(self).wf(),
            old(self).types_of().valid(t),
        ensures
            final(self).wf(),
            old(self).slotted() ==> final(self).slotted(),
            final(self).lines() == old(self).lines(),
            final(self).module_of() == old(self).module_of(),
            final(self).types_of() == old(self).types_of(),
            final(self).system_of() == old(self).system_of(),
            final(self).ctx_of().function() == old(self).ctx_of().function(),
            final(self).ctx_of().variables() == old(self).ctx_of().variables(),
            final(self).ctx_of().registers() == old(self).ctx_of().registers(),
            final(self).ctx_of().realized() == old(self).ctx_of().realized(),
            final(self).ctx_of().temps() == old(self).ctx_of().temps(),
            match r {
                Some(offset) => {
                    &&& final(self).ctx_of().depth() == place(
                        old(self).ctx_of().depth() as nat,
                        old(self).types_of().size_of(t),
                        old(self).types_of().align_of(t),
                    )
                    &&& offset == -final(self).ctx_of().depth()
                },
                None => {
                    &&& final(self).ctx_of().depth() == old(self).ctx_of().depth()
                    &&& place(
                        old(self).ctx_of().depth() as nat,
                        old(self).types_of().size_of(t),
                        old(self).types_of().align_of(t),
                    ) > depth_limit()
                },
            },
    {
        proof {
            reveal(Backend::slotted);
        }
        match self.layout(t) {
            Some((size, align)) => self.delayed_alloc(size, align),
            None => {
                proof {
                    self.types.lemma_align_bounds(t);
                    lemma_align_up(
                        self.ctx.depth() as nat + self.types.size_of(t),
                        self.types.align_of(t),
                    );
                }
                None
            },
        }
    }

    /// Moves the stack pointer to where the stack is taken to.
    fn realize_alloc(&mut self)
        requires
            old(self).wf(),
        ensures
            final(self).wf(),
            old(self).slotted() ==> final(self).slotted(),
            final(self).module_of() == old(self).module_of(),
            final(self).types_of() == old(self).types_of(),
            final(self).system_of() == old(self).system_of(),
            final(self).ctx_of().function() == old(self).ctx_of().function(),
            final(self).ctx_of().variables() == old(self).ctx_of().variables(),
            final(self).ctx_of().registers() == old(self).ctx_of().registers(),
            final(self).ctx_of().temps() == old(self).ctx_of().temps(),
            final(self).ctx_of().depth() == old(self).ctx_of().depth(),
            final(self).ctx_of().realized() == old(self).ctx_of().depth(),
            final(self).lines() == old(self).lines() + stack_down(
                old(self).ctx_of().depth() - old(self).ctx_of().realized(),
            ),
    {
        proof {
            reveal(Backend::slotted);
        }
        let moved = self.ctx.realize();
        if moved > 0 {
            self.emit(
                Line::Op2(
                    Opcode::Sub,
                    reg_arg(RegisterName::SP, Size::Quad),
                    Arg::Int(ConstInt::I32(moved)),
                ),
            );
        }
        assert(self.writer@ =~= old(self).writer@ + stack_down(moved as int));
    }

    /// Gives up the temporaries: moves the stack pointer back to where
    /// they start.
    fn clear_temps(&mut self)
        requires
            old(self).wf(),
            old(self).ctx_of().depth() == old(self).ctx_of().realized(),
        ensures
            final(self).wf(),
            old(self).slotted() ==> final(self).slotted(),
            final(self).module_of() == old(self).module_of(),
            final(self).types_of() == old(self).types_of(),
            final(self).system_of() == old(self).system_of(),
            final(self).ctx_of().function() == old(self).ctx_of().function(),
            final(self).ctx_of().variables() == old(self).ctx_of().variables(),
            final(self).ctx_of().registers() == old(self).ctx_of().registers(),
            final(self).ctx_of().temps() == old(self).ctx_of().temps(),
            final(self).ctx_of().depth() == old(self).ctx_of().temps(),
            final(self).ctx_of().realized() == old(self).ctx_of().temps(),
            final(self).lines() == old(self).lines() + stack_up(
                old(self).ctx_of().realized() - old(self).ctx_of().temps(),
            ),
    {
        proof {
            reveal(Backend::slotted);
        }
        let moved = self.ctx.release();
        if moved > 0 {
            self.emit(
                Line::Op2(
                    Opcode::Add,
                    reg_arg(RegisterName::SP, Size::Quad),
                    Arg::Int(ConstInt::I32(moved)),
                ),
            );
        }
        assert(self.writer@ =~= old(self).writer@ + stack_up(moved as int));
    }

    /// Copies `size` bytes from `from` to `to`, one after the other. Both
    /// have a displacement of 32 bits to which `size` can be added.
    fn move_bytes(&mut self, from: Memory, to: Memory, size: u64)
        requires
            size <= i32::MAX,
            from.displacement_constant matches Some(ConstInt::I32(d)) && d + size <= i32::MAX,
            to.displacement_constant matches Some(ConstInt::I32(d)) && d + size <= i32::MAX,
        ensures
            Self::kept(old(self), final(self)),
            final(self).lines() == old(self).lines() + move_bytes(from, to, size as nat),
    {
        let mut i: u64 = 0;
        while i < size
            invariant
                0 <= i <= size,
                size <= i32::MAX,
                from.displacement_constant matches Some(ConstInt::I32(d)) && d + size <= i32::MAX,
                to.displacement_constant matches Some(ConstInt::I32(d)) && d + size <= i32::MAX,
                Self::kept(old(self), self),
                self.lines() == old(self).lines() + move_bytes(from, to, size as nat).take(
                    2 * i,
                ),
            decreases size - i,
        {
            let ghost before = self.lines();
            let step = ConstInt::I32(i as i32);
            self.emit(
                Line::Op2(
                    Opcode::Mov,
                    reg_arg(RegisterName::A, Size::Byte),
                    Arg::Memory(from.offset(step).size(Size::Byte)),
                ),
            );
            self.emit(
                Line::Op2(
                    Opcode::Mov,
                    Arg::Memory(to.offset(step).size(Size::Byte)),
                    reg_arg(RegisterName::A, Size::Byte),
                ),
            );
            proof {
                let all = move_bytes(from, to, size as nat);
                assert(all[2 * i] == self.lines()[before.len() as int]);
                assert(all[2 * i + 1] == self.lines()[before.len() as int + 1]);
                assert(self.lines() =~= old(self).lines() + all.take(2 * (i + 1)));
            }
            i += 1;
        }
        assert(move_bytes(from, to, size as nat).take(2 * size) =~= move_bytes(
            from,
            to,
            size as nat,
        ));
    }

    /// Ends the function as its calling convention asks.
    fn gen_function_epilogue(&mut self, fid: FuncID)
        ensures
            Self::kept(old(self), final(self)),
            final(self).lines() == old(self).lines() + epilogue(),
    {
        self.gen_systemv_epilogue(fid);
    }

    /// Ends the function as the System V calling convention asks.
    fn gen_systemv_epilogue(&mut self, _fid: FuncID)
        ensures
            Self::kept(old(self), final(self)),
            final(self).lines() == old(self).lines() + epilogue(),
    {
        self.emit(
            Line::Op2(
                Opcode::Mov,
                reg_arg(RegisterName::SP, Size::Quad),
                reg_arg(RegisterName::BP, Size::Quad),
            ),
        );
        self.emit(Line::Op1(Opcode::Pop, reg_arg(RegisterName::BP, Size::Quad)));
        self.emit(Line::Op0(Opcode::Ret));
        assert(self.writer@ =~= old(self).writer@ + epilogue());
    }

    /// The type of the operand `e`.
    fn type_of(&self, e: &Expr) -> (r: Type)
        requires
            self.slotted(),
            self.cx().m.expr_ok(self.cx().f, *e),
        ensures
            r == self.cx().type_of(*e),
    {
        proof {
            reveal(Backend::slotted);
        }
        e.expr_type(self.module)
    }

    /// The type of the register `r`.
    fn reg_type(&self, r: RegID) -> (ty: Type)
        requires
            self.slotted(),
            self.cx().m.reg_in(r, self.cx().f),
        ensures
            ty == self.cx().reg_type(r),
            self.types_of().valid(ty),
    {
        proof {
            reveal(Backend::slotted);
        }
        self.module.register(r).reg_type()
    }

    /// The offset of the slot of the register `r`, which holds `size`
    /// bytes.
    fn reg_slot(&self, r: RegID) -> (off: i32)
        requires
            self.slotted(),
            self.cx().m.reg_in(r, self.cx().f),
        ensures
            off == self.cx().reg_off(r),
            -(frame_limit() as int) <= off,
            off + self.types_of().size_of(self.cx().reg_type(r)) <= 0,
    {
        proof {
            reveal(Backend::slotted);
        }
        proof {
            self.cx().lemma_reg_slot(r);
        }
        self.ctx.register_offset(r)
    }

    /// Brings the value of the operand `e` to where it can be worked with:
    /// a value that fits a machine register is loaded into `target`; of
    /// another value that a register holds, the slot is told.
    fn eval_expr(&mut self, target: RegisterName, e: &Expr) -> (r: Option<EvaledExpr>)
        requires
            old(self).slotted(),
            old(self).cx().m.expr_ok(old(self).cx().f, *e),
        ensures
            Self::kept(old(self), final(self)),
            match r {
                Some(EvaledExpr::Register(s)) => old(self).cx().load(target, *e) matches Some(l)
                    && final(self).lines() == old(self).lines() + l && scalar(
                    old(self).cx().type_of(*e),
                ) == Some(s),
                Some(EvaledExpr::Temporary(off)) => *e matches Expr::Register(x) && off == old(self).cx().reg_off(x) && old(self).cx().load(target, *e) is None && final(self).lines() == old(self).lines(),
                None => old(self).cx().load(target, *e) is None && !(*e is Register) && final(self).lines() == old(self).lines(),
            },
    {
        proof {
            reveal(Cx::load);
            reveal(Backend::slotted);
        }
        match e {
            Expr::Register(r) => {
                let off = self.reg_slot(*r);
                match scalar_size(self.reg_type(*r)) {
                    Some(s) => {
                        self.emit(Line::Op2(Opcode::Mov, reg_arg(target, s), slot_arg(off, s)));
                        Some(EvaledExpr::Register(s))
                    },
                    None => Some(EvaledExpr::Temporary(off)),
                }
            },
            Expr::Constant(ConstValue::Integer(v, size)) => {
                let s = native_size(*size);
                match immediate_of(*v, s) {
                    Some(i) => {
                        self.emit(Line::Op2(Opcode::Mov, reg_arg(target, s), Arg::Int(i)));
                        Some(EvaledExpr::Register(s))
                    },
                    None => None,
                }
            },
            Expr::Constant(ConstValue::Bool(b)) => {
                let bit: u8 = if *b {
                    1
                } else {
                    0
                };
                self.emit(
                    Line::Op2(
                        Opcode::Mov,
                        reg_arg(target, Size::Byte),
                        Arg::Int(ConstInt::U8(bit)),
                    ),
                );
                Some(EvaledExpr::Register(Size::Byte))
            },
            Expr::Constant(ConstValue::NullPtr) => {
                self.emit(
                    Line::Op2(
                        Opcode::Mov,
                        reg_arg(target, Size::Quad),
                        Arg::Int(ConstInt::I64(0)),
                    ),
                );
                Some(EvaledExpr::Register(Size::Quad))
            },
            Expr::Constant(ConstValue::SizeOf(ty, size)) => {
                let s = native_size(*size);
                if !self.types.is_valid(*ty) {
                    return None;
                }
                match self.layout(*ty) {
                    Some((bytes, _)) => match immediate_of(bytes as i128, s) {
                        Some(i) => {
                            self.emit(Line::Op2(Opcode::Mov, reg_arg(target, s), Arg::Int(i)));
                            Some(EvaledExpr::Register(s))
                        },
                        None => None,
                    },
                    None => None,
                }
            },
            Expr::Constant(ConstValue::Poison(ty)) => match scalar_size(*ty) {
                Some(s) => {
                    assert(self.lines() =~= old(self).lines() + Seq::<Line>::empty());
                    Some(EvaledExpr::Register(s))
                },
                None => None,
            },
            Expr::Constant(ConstValue::Unit) => None,
        }
    }

    /// Loads the operand `e`, which fits a machine register, into `to`.
    fn load(&mut self, to: RegisterName, e: &Expr) -> (done: bool)
        requires
            old(self).slotted(),
            old(self).cx().m.expr_ok(old(self).cx().f, *e),
        ensures
            Self::wrote(old(self), final(self), old(self).cx().load(to, *e), done),
    {
        match self.eval_expr(to, e) {
            Some(EvaledExpr::Register(_)) => true,
            _ => false,
        }
    }

    /// Stores the machine register `from`, in the size `size`, in the slot
    /// of the register `t`.
    fn store(&mut self, t: RegID, from: RegisterName, size: Size)
        requires
            old(self).slotted(),
            old(self).cx().m.reg_in(t, old(self).cx().f),
        ensures
            Self::kept(old(self), final(self)),
            final(self).lines() == old(self).lines() + old(self).cx().store(t, from, size),
    {
        let off = self.reg_slot(t);
        self.emit(Line::Op2(Opcode::Mov, slot_arg(off, size), reg_arg(from, size)));
    }

    /// The size of a value of the type `ty` that lies in the frame.
    fn size_in_frame(&self, ty: Type, Ghost(r): Ghost<RegID>) -> (size: u64)
        requires
            self.slotted(),
            self.cx().m.reg_in(r, self.cx().f),
            self.types_of().size_of(ty) <= self.types_of().size_of(self.cx().reg_type(r)),
            self.types_of().valid(ty),
        ensures
            size == self.types_of().size_of(ty),
            size <= frame_limit(),
    {
        proof {
            reveal(Backend::slotted);
        }
        proof {
            self.cx().lemma_reg_slot(r);
        }
        self.layout(ty).unwrap().0
    }

    /// Puts the value of the operand `e` at the offset `off` of the frame,
    /// where there is room for it.
    fn gen_put(&mut self, off: i32, e: &Expr) -> (done: bool)
        requires
            old(self).slotted(),
            old(self).cx().m.expr_ok(old(self).cx().f, *e),
            -(frame_limit() as int) <= off <= 0,
        ensures
            Self::wrote(old(self), final(self), old(self).cx().put(off as int, *e), done),
    {
        proof {
            reveal(Cx::put);
        }
        let ty = self.type_of(e);
        match scalar_size(ty) {
            Some(s) => {
                if !self.load(RegisterName::A, e) {
                    return false;
                }
                self.emit(Line::Op2(Opcode::Mov, slot_arg(off, s), reg_arg(RegisterName::A, s)));
                assert(self.lines() =~= old(self).lines() + old(self).cx().put(off as int, *e)->0);
                true
            },
            None => {
                if ty == Type::Unit {
                    assert(self.lines() =~= old(self).lines() + Seq::<Line>::empty());
                    return true;
                }
                match e {
                    Expr::Register(r) => {
                        let ty = self.reg_type(*r);
                        let size = self.size_in_frame(ty, Ghost(*r));
                        let from = self.reg_slot(*r);
                        self.move_bytes(frame_memory(from), frame_memory(off), size);
                        true
                    },
                    Expr::Constant(ConstValue::Poison(_)) => {
                        assert(self.lines() =~= old(self).lines() + Seq::<Line>::empty());
                        true
                    },
                    _ => false,
                }
            },
        }
    }

    fn gen_assign(&mut self, t: RegID, e: &Expr) -> (done: bool)
        requires
            old(self).slotted(),
            old(self).cx().m.reg_in(t, old(self).cx().f),
            old(self).cx().m.expr_ok(old(self).cx().f, *e),
        ensures
            Self::wrote(old(self), final(self), old(self).cx().assign(t, *e), done),
    {
        proof {
            reveal(Cx::assign);
        }
        if self.type_of(e) != self.reg_type(t) {
            return false;
        }
        let off = self.reg_slot(t);
        self.gen_put(off, e)
    }

    /// Whether the operands `values` have the types `tys`, one by one.
    fn values_match(&self, values: &Vec<Expr>, tys: &Vec<Type>) -> (r: bool)
        requires
            self.slotted(),
            self.cx().m.exprs_ok(self.cx().f, values@),
        ensures
            r == self.cx().values_match(values@, tys@),
    {
        if values.len() != tys.len() {
            return false;
        }
        let mut i: usize = 0;
        while i < values.len()
            invariant
                0 <= i <= values@.len(),
                values@.len() == tys@.len(),
                self.slotted(),
                self.cx().m.exprs_ok(self.cx().f, values@),
                forall|k: int| 0 <= k < i ==> self.cx().type_of(#[trigger] values@[k]) == tys@[k],
            decreases values@.len() - i,
        {
            assert(self.cx().m.expr_ok(self.cx().f, values@[i as int]));
            if self.type_of(&values[i]) != tys[i] {
                return false;
            }
            i += 1;
        }
        true
    }

    fn gen_make_struct(&mut self, t: RegID, values: &Vec<Expr>) -> (done: bool)
        requires
            old(self).slotted(),
            old(self).cx().m.reg_in(t, old(self).cx().f),
            old(self).cx().m.exprs_ok(old(self).cx().f, values@),
        ensures
            Self::wrote(old(self), final(self), old(self).cx().make_struct(t, values@), done),
    {
        proof {
            reveal(Cx::make_struct);
            reveal(Backend::slotted);
        }
        let ghost cx = self.cx();
        let types: &Types = self.types;
        let id = match self.reg_type(t) {
            Type::Struct(id) => id,
            _ => {
                return false;
            },
        };
        if !self.values_match(values, types.structure(id).members()) {
            return false;
        }
        proof {
            cx.lemma_reg_slot(t);
        }
        let layout = self.struct_layout(id).unwrap();
        let base = self.reg_slot(t);
        let n = values.len();
        let mut i: usize = 0;
        assert(self.lines() =~= old(self).lines() + Seq::<Line>::empty());
        while i < n
            invariant
                0 <= i <= n,
                n == values@.len(),
                n == cx.types.structs()[id.0 as int].len(),
                self.slotted(),
                self.cx() == cx,
                old(self).cx() == cx,
                Self::kept(old(self), self),
                cx.wf(),
                cx.m.reg_in(t, cx.f),
                cx.m.exprs_ok(cx.f, values@),
                cx.reg_type(t) == Type::Struct(id),
                cx.types.valid(Type::Struct(id)),
                base == cx.reg_off(t),
                -(frame_limit() as int) <= base,
                base + cx.types.size_of(Type::Struct(id)) <= 0,
                layout.field_offsets@.len() == n,
                forall|k: int|
                    0 <= k < n ==> #[trigger] layout.field_offsets@[k] == cx.types.member_offset(
                        id,
                        k as nat,
                    ),
                cx.members_put(t, id, values@, i as nat) is Some,
                self.lines() == old(self).lines() + cx.members_put(t, id, values@, i as nat)->0,
            decreases n - i,
        {
            assert(cx.m.expr_ok(cx.f, values@[i as int]));
            proof {
                crate::types::lemma_struct_layout(cx.types, id, i as nat);
            }
            let off = base + (layout.field_offsets[i] as i32);
            if !self.gen_put(off, &values[i]) {
                proof {
                    reveal(Cx::make_struct);
                    lemma_members_put_none(cx, t, id, values@, (i + 1) as nat, n as nat);
                }
                return false;
            }
            assert(self.lines() =~= old(self).lines() + cx.members_put(
                t,
                id,
                values@,
                (i + 1) as nat,
            )->0);
            i += 1;
        }
        true
    }

    /// The offset of element number `i` of the array of `length` elements
    /// of `size` bytes each that lies at `base` in the frame.
    fn element_offset(base: i32, size: u64, i: u64, Ghost(length): Ghost<nat>) -> (off: i32)
        requires
            i < length,
            -(frame_limit() as int) <= base,
            base + size * length <= 0,
        ensures
            off == base + i * size,
            -(frame_limit() as int) <= off,
            off + size <= 0,
    {
        assert(i * size + size <= size * length) by (nonlinear_arith)
            requires
                i < length,
        ;
        assert(0 <= i * size) by (nonlinear_arith);
        base + ((i * size) as i32)
    }

    fn gen_make_array(&mut self, t: RegID, values: &Vec<Expr>) -> (done: bool)
        requires
            old(self).slotted(),
            old(self).cx().m.reg_in(t, old(self).cx().f),
            old(self).cx().m.exprs_ok(old(self).cx().f, values@),
        ensures
            Self::wrote(old(self), final(self), old(self).cx().make_array(t, values@), done),
    {
        proof {
            reveal(Cx::make_array);
            reveal(Backend::slotted);
        }
        let ghost cx = self.cx();
        let types: &Types = self.types;
        let id = match self.reg_type(t) {
            Type::Array(id) => id,
            _ => {
                return false;
            },
        };
        let element = types.array(id).member();
        let n = values.len();
        if types.array(id).length() != n as u64 {
            return false;
        }
        let ghost tys = Seq::new(values@.len(), |i: int| element);
        let mut i: usize = 0;
        while i < n
            invariant
                0 <= i <= n,
                n == values@.len(),
                self.slotted(),
                self.cx() == cx,
                Self::kept(old(self), self),
                self.lines() == old(self).lines(),
                cx.m.exprs_ok(cx.f, values@),
                cx.reg_type(t) == Type::Array(id),
                cx.types.arrays()[id.0 as int] == (element, n as u64),
                tys == Seq::new(values@.len(), |i: int| element),
                forall|k: int| 0 <= k < i ==> cx.type_of(#[trigger] values@[k]) == element,
            decreases n - i,
        {
            assert(cx.m.expr_ok(cx.f, values@[i as int]));
            if self.type_of(&values[i]) != element {
                proof {
                    reveal(Cx::make_array);
                    assert(tys[i as int] == element);
                }
                return false;
            }
            i += 1;
        }
        assert(cx.values_match(values@, tys));
        if n == 0 {
            assert(self.lines() =~= old(self).lines() + Seq::<Line>::empty());
            return true;
        }
        let size = self.size_in_frame_of_element(t, element);
        let base = self.reg_slot(t);
        let mut i: usize = 0;
        assert(self.lines() =~= old(self).lines() + Seq::<Line>::empty());
        while i < n
            invariant
                0 <= i <= n,
                n == values@.len(),
                self.slotted(),
                self.cx() == cx,
                old(self).cx() == cx,
                Self::kept(old(self), self),
                cx.m.exprs_ok(cx.f, values@),
                base == cx.reg_off(t),
                -(frame_limit() as int) <= base,
                base + size * n <= 0,
                size == cx.types.size_of(element),
                cx.reg_type(t) == Type::Array(id),
                cx.types.arrays()[id.0 as int] == (element, n as u64),
                cx.values_match(values@, Seq::new(values@.len(), |i: int| element)),
                cx.elements_put(t, size as nat, values@, i as nat) is Some,
                self.lines() == old(self).lines() + cx.elements_put(
                    t,
                    size as nat,
                    values@,
                    i as nat,
                )->0,
            decreases n - i,
        {
            assert(cx.m.expr_ok(cx.f, values@[i as int]));
            let off = Self::element_offset(base, size, i as u64, Ghost(n as nat));
            if !self.gen_put(off, &values[i]) {
                proof {
                    reveal(Cx::make_array);
                    lemma_elements_put_none(cx, t, size as nat, values@, (i + 1) as nat, n as nat);
                }
                return false;
            }
            assert(self.lines() =~= old(self).lines() + cx.elements_put(
                t,
                size as nat,
                values@,
                (i + 1) as nat,
            )->0);
            i += 1;
        }
        true
    }

    /// The size of an element of the array, which is not empty, that the
    /// register `t` holds.
    fn size_in_frame_of_element(&self, t: RegID, element: Type) -> (size: u64)
        requires
            self.slotted(),
            self.cx().m.reg_in(t, self.cx().f),
            self.cx().reg_type(t) matches Type::Array(id) && self.types_of().arrays()[id.0 as int].0
                == element && self.types_of().arrays()[id.0 as int].1 > 0,
        ensures
            size == self.types_of().size_of(element),
            self.types_of().valid(element),
            size <= frame_limit(),
            -(frame_limit() as int) <= self.cx().reg_off(t),
            ({
                let id = self.cx().reg_type(t)->Array_0;
                self.cx().reg_off(t) + size * self.types_of().arrays()[id.0 as int].1 <= 0
            }),
    {
        proof {
            reveal(Backend::slotted);
            self.cx().lemma_reg_slot(t);
            let id = self.cx().reg_type(t)->Array_0;
            let length = self.types_of().arrays()[id.0 as int].1;
            assert(self.types_of().size_of(element) * (length as nat) >= self.types_of().size_of(
                element,
            )) by (nonlinear_arith)
                requires
                    length >= 1,
            ;
        }
        self.layout(element).unwrap().0
    }

    fn gen_make_short_array(&mut self, t: RegID, value: &Expr, length: u64) -> (done: bool)
        requires
            old(self).slotted(),
            old(self).cx().m.reg_in(t, old(self).cx().f),
            old(self).cx().m.expr_ok(old(self).cx().f, *value),
        ensures
            Self::wrote(
                old(self),
                final(self),
                old(self).cx().make_short_array(t, *value, length),
                done,
            ),
    {
        proof {
            reveal(Cx::make_short_array);
            reveal(Backend::slotted);
        }
        let ghost cx = self.cx();
        let types: &Types = self.types;
        let id = match self.reg_type(t) {
            Type::Array(id) => id,
            _ => {
                return false;
            },
        };
        let element = types.array(id).member();
        if self.type_of(value) != element || types.array(id).length() != length {
            return false;
        }
        if length == 0 {
            assert(self.lines() =~= old(self).lines() + Seq::<Line>::empty());
            return true;
        }
        let size = self.size_in_frame_of_element(t, element);
        let base = self.reg_slot(t);
        let mut i: u64 = 0;
        assert(self.lines() =~= old(self).lines() + Seq::<Line>::empty());
        while i < length
            invariant
                0 <= i <= length,
                self.slotted(),
                self.cx() == cx,
                old(self).cx() == cx,
                Self::kept(old(self), self),
                cx.m.expr_ok(cx.f, *value),
                base == cx.reg_off(t),
                -(frame_limit() as int) <= base,
                base + size * length <= 0,
                size == cx.types.size_of(element),
                cx.reg_type(t) == Type::Array(id),
                cx.types.arrays()[id.0 as int] == (element, length),
                cx.type_of(*value) == element,
                cx.element_put(t, size as nat, *value, i as nat) is Some,
                self.lines() == old(self).lines() + cx.element_put(
                    t,
                    size as nat,
                    *value,
                    i as nat,
                )->0,
            decreases length - i,
        {
            let off = Self::element_offset(base, size, i, Ghost(length as nat));
            if !self.gen_put(off, value) {
                proof {
                    reveal(Cx::make_short_array);
                    lemma_element_put_none(
                        cx,
                        t,
                        size as nat,
                        *value,
                        (i + 1) as nat,
                        length as nat,
                    );
                }
                return false;
            }
            assert(self.lines() =~= old(self).lines() + cx.element_put(
                t,
                size as nat,
                *value,
                (i + 1) as nat,
            )->0);
            i += 1;
        }
        true
    }

    fn gen_element(&mut self, t: RegID, array: &Expr, index: &Expr) -> (done: bool)
        requires
            old(self).slotted(),
            old(self).cx().m.reg_in(t, old(self).cx().f),
            old(self).cx().m.expr_ok(old(self).cx().f, *array),
            old(self).cx().m.expr_ok(old(self).cx().f, *index),
        ensures
            Self::wrote(old(self), final(self), old(self).cx().element(t, *array, *index), done),
    {
        proof {
            reveal(Cx::element);
            reveal(Backend::slotted);
        }
        let types: &Types = self.types;
        let r = match array {
            Expr::Register(r) => *r,
            _ => {
                return false;
            },
        };
        let id = match self.reg_type(r) {
            Type::Array(id) => id,
            _ => {
                return false;
            },
        };
        let element = types.array(id).member();
        let length = types.array(id).length();
        if self.reg_type(t) != element {
            return false;
        }
        match index {
            Expr::Constant(ConstValue::Integer(at_index, _)) => {
                if *at_index < 0 || *at_index >= length as i128 {
                    return false;
                }
                let size = self.size_in_frame_of_element(r, element);
                let base = self.reg_slot(r);
                let to = self.reg_slot(t);
                proof {
                    self.cx().lemma_reg_slot(t);
                }
                let from = Self::element_offset(
                    base,
                    size,
                    *at_index as u64,
                    Ghost(length as nat),
                );
                self.move_bytes(frame_memory(from), frame_memory(to), size);
                true
            },
            Expr::Register(i) => {
                if self.reg_type(*i) != Type::Integer(64) || length == 0 {
                    return false;
                }
                let size = self.size_in_frame_of_element(r, element);
                let base = self.reg_slot(r);
                let at_index = self.reg_slot(*i);
                let to = self.reg_slot(t);
                proof {
                    self.cx().lemma_reg_slot(t);
                }
                self.emit(
                    Line::Op2(
                        Opcode::Lea,
                        reg_arg(RegisterName::C, Size::Quad),
                        Arg::Memory(frame_memory(base)),
                    ),
                );
                self.emit(
                    Line::Op2(
                        Opcode::Mov,
                        reg_arg(RegisterName::D, Size::Quad),
                        slot_arg(at_index, Size::Quad),
                    ),
                );
                self.emit(
                    Line::Op2(
                        Opcode::Mov,
                        reg_arg(RegisterName::A, Size::Quad),
                        Arg::Int(ConstInt::I64(size as i64)),
                    ),
                );
                self.emit(
                    Line::Op2(
                        Opcode::IMul,
                        reg_arg(RegisterName::D, Size::Quad),
                        reg_arg(RegisterName::A, Size::Quad),
                    ),
                );
                self.emit(
                    Line::Op2(
                        Opcode::Add,
                        reg_arg(RegisterName::C, Size::Quad),
                        reg_arg(RegisterName::D, Size::Quad),
                    ),
                );
                self.move_bytes(memory_behind(RegisterName::C), frame_memory(to), size);
                assert(self.lines() =~= old(self).lines() + old(self).cx().element(
                    t,
                    *array,
                    *index,
                )->0);
                true
            },
            _ => false,
        }
    }

    fn gen_select(&mut self, t: RegID, c: &Expr, x: &Expr, y: &Expr) -> (done: bool)
        requires
            old(self).slotted(),
            old(self).cx().m.reg_in(t, old(self).cx().f),
            old(self).cx().m.expr_ok(old(self).cx().f, *c),
            old(self).cx().m.expr_ok(old(self).cx().f, *x),
            old(self).cx().m.expr_ok(old(self).cx().f, *y),
        ensures
            Self::wrote(old(self), final(self), old(self).cx().select(t, *c, *x, *y), done),
    {
        proof {
            reveal(Cx::select);
        }
        let ty = self.reg_type(t);
        let s = match scalar_size(ty) {
            Some(s) => s,
            None => {
                return false;
            },
        };
        if !self.load(RegisterName::A, x) {
            return false;
        }
        if !self.load(RegisterName::C, y) {
            return false;
        }
        if !self.load(RegisterName::D, c) {
            return false;
        }
        if self.type_of(c) != Type::Bool || self.type_of(x) != ty || self.type_of(y) != ty {
            return false;
        }
        let wide = match s {
            Size::Byte => Size::Double,
            _ => s,
        };
        self.emit(
            Line::Op2(
                Opcode::Cmp,
                reg_arg(RegisterName::D, Size::Byte),
                Arg::Int(ConstInt::U8(0)),
            ),
        );
        self.emit(
            Line::Op2(
                Opcode::MovIf(Cond::Equal),
                reg_arg(RegisterName::A, wide),
                reg_arg(RegisterName::C, wide),
            ),
        );
        self.store(t, RegisterName::A, s);
        assert(self.lines() =~= old(self).lines() + old(self).cx().select(t, *c, *x, *y)->0);
        true
    }

    fn gen_divide(&mut self, size: Size, signed: bool, remainder: bool)
        ensures
            Self::kept(old(self), final(self)),
            final(self).lines() == old(self).lines() + divide(size, signed, remainder),
    {
        if signed {
            let opcode = match size {
                Size::Word => Opcode::Cwd,
                Size::Double => Opcode::Cdq,
                _ => Opcode::Cqo,
            };
            self.emit(Line::Op0(opcode));
            self.emit(Line::Op1(Opcode::IDiv, reg_arg(RegisterName::C, size)));
        } else {
            self.emit(
                Line::Op2(
                    Opcode::Xor,
                    reg_arg(RegisterName::D, Size::Double),
                    reg_arg(RegisterName::D, Size::Double),
                ),
            );
            self.emit(Line::Op1(Opcode::Div, reg_arg(RegisterName::C, size)));
        }
        if remainder {
            self.emit(
                Line::Op2(Opcode::Mov, reg_arg(RegisterName::A, size), reg_arg(RegisterName::D, size)),
            );
        }
        assert(self.lines() =~= old(self).lines() + divide(size, signed, remainder));
    }

    fn gen_compute(&mut self, op: BinaryOp, size: Size) -> (done: bool)
        ensures
            Self::wrote(old(self), final(self), compute(op, size), done),
    {
        let a = reg_arg(RegisterName::A, size);
        let c = reg_arg(RegisterName::C, size);
        let count = reg_arg(RegisterName::C, Size::Byte);
        let wide = match size {
            Size::Byte => false,
            _ => true,
        };
        let (first, negate) = match op {
            BinaryOp::Add => (Line::Op2(Opcode::Add, a, c), false),
            BinaryOp::Sub => (Line::Op2(Opcode::Sub, a, c), false),
            BinaryOp::Mul => {
                if !wide {
                    return false;
                }
                (Line::Op2(Opcode::IMul, a, c), false)
            },
            BinaryOp::UDiv | BinaryOp::IDiv | BinaryOp::UMod | BinaryOp::IMod => {
                if !wide {
                    return false;
                }
                let signed = match op {
                    BinaryOp::IDiv | BinaryOp::IMod => true,
                    _ => false,
                };
                let remainder = match op {
                    BinaryOp::UMod | BinaryOp::IMod => true,
                    _ => false,
                };
                self.gen_divide(size, signed, remainder);
                return true;
            },
            BinaryOp::ShiftLeft => (Line::Op2(Opcode::Shl, a, count), false),
            BinaryOp::ShiftLogicalRight => (Line::Op2(Opcode::Shr, a, count), false),
            BinaryOp::ShiftArithmeticRight => (Line::Op2(Opcode::Sar, a, count), false),
            BinaryOp::And => (Line::Op2(Opcode::And, a, c), false),
            BinaryOp::Nand => (Line::Op2(Opcode::And, a, c), true),
            BinaryOp::Or => (Line::Op2(Opcode::Or, a, c), false),
            BinaryOp::Nor => (Line::Op2(Opcode::Or, a, c), true),
            BinaryOp::Xor => (Line::Op2(Opcode::Xor, a, c), false),
            BinaryOp::XNor => (Line::Op2(Opcode::Xor, a, c), true),
        };
        self.emit(first);
        if negate {
            self.emit(Line::Op1(Opcode::Not, a));
        }
        assert(self.lines() =~= old(self).lines() + compute(op, size)->0);
        true
    }

    fn gen_binary(&mut self, t: RegID, op: BinaryOp, a: &Expr, b: &Expr) -> (done: bool)
        requires
            old(self).slotted(),
            old(self).cx().m.reg_in(t, old(self).cx().f),
            old(self).cx().m.expr_ok(old(self).cx().f, *a),
            old(self).cx().m.expr_ok(old(self).cx().f, *b),
        ensures
            Self::wrote(old(self), final(self), old(self).cx().binary(t, op, *a, *b), done),
    {
        proof {
            reveal(Cx::binary);
        }
        let ty = self.reg_type(t);
        let s = match (ty, scalar_size(ty)) {
            (Type::Integer(_), Some(s)) => s,
            _ => {
                return false;
            },
        };
        if self.type_of(a) != ty || self.type_of(b) != ty {
            return false;
        }
        if !self.load(RegisterName::A, a) {
            return false;
        }
        if !self.load(RegisterName::C, b) {
            return false;
        }
        if !self.gen_compute(op, s) {
            return false;
        }
        self.store(t, RegisterName::A, s);
        assert(self.lines() =~= old(self).lines() + old(self).cx().binary(t, op, *a, *b)->0);
        true
    }

    fn gen_unary(&mut self, t: RegID, op: UnaryOp, a: &Expr) -> (done: bool)
        requires
            old(self).slotted(),
            old(self).cx().m.reg_in(t, old(self).cx().f),
            old(self).cx().m.expr_ok(old(self).cx().f, *a),
        ensures
            Self::wrote(old(self), final(self), old(self).cx().unary(t, op, *a), done),
    {
        proof {
            reveal(Cx::unary);
        }
        let ty = self.reg_type(t);
        let from = self.type_of(a);
        match op {
            UnaryOp::Freeze => self.gen_assign(t, a),
            UnaryOp::Not | UnaryOp::Neg => {
                let s = match (ty, scalar_size(ty)) {
                    (Type::Integer(_), Some(s)) => s,
                    _ => {
                        return false;
                    },
                };
                if !self.load(RegisterName::A, a) {
                    return false;
                }
                if from != ty {
                    return false;
                }
                let opcode = match op {
                    UnaryOp::Not => Opcode::Not,
                    _ => Opcode::Neg,
                };
                self.emit(Line::Op1(opcode, reg_arg(RegisterName::A, s)));
                self.store(t, RegisterName::A, s);
                assert(self.lines() =~= old(self).lines() + old(self).cx().unary(t, op, *a)->0);
                true
            },
            UnaryOp::Truncate | UnaryOp::ZeroExtend | UnaryOp::SignExtend => {
                let (st, sf) = match (scalar_size(ty), scalar_size(from)) {
                    (Some(st), Some(sf)) => (st, sf),
                    _ => {
                        return false;
                    },
                };
                if !self.load(RegisterName::A, a) {
                    return false;
                }
                if !(ty.is_integer() && from.is_integer()) {
                    return false;
                }
                match op {
                    UnaryOp::Truncate => {
                        if !st.is_below(sf) {
                            return false;
                        }
                    },
                    _ => {
                        if !sf.is_below(st) {
                            return false;
                        }
                        let zero = match op {
                            UnaryOp::ZeroExtend => true,
                            _ => false,
                        };
                        if !(zero && sf == Size::Double) {
                            let opcode = if zero {
                                Opcode::MovZeroExtend
                            } else {
                                Opcode::MovSignExtend
                            };
                            self.emit(
                                Line::Op2(
                                    opcode,
                                    reg_arg(RegisterName::A, st),
                                    reg_arg(RegisterName::A, sf),
                                ),
                            );
                        }
                    },
                }
                self.store(t, RegisterName::A, st);
                assert(self.lines() =~= old(self).lines() + old(self).cx().unary(t, op, *a)->0);
                true
            },
            UnaryOp::IntToPtr | UnaryOp::PtrToInt => {
                let fits = match op {
                    UnaryOp::IntToPtr => from == Type::Integer(64) && ty == Type::Pointer,
                    _ => from == Type::Pointer && ty == Type::Integer(64),
                };
                if !fits {
                    return false;
                }
                if !self.load(RegisterName::A, a) {
                    return false;
                }
                self.store(t, RegisterName::A, Size::Quad);
                assert(self.lines() =~= old(self).lines() + old(self).cx().unary(t, op, *a)->0);
                true
            },
        }
    }

    fn gen_test(&mut self, t: RegID, op: TestOp, a: &Expr, b: &Expr) -> (done: bool)
        requires
            old(self).slotted(),
            old(self).cx().m.reg_in(t, old(self).cx().f),
            old(self).cx().m.expr_ok(old(self).cx().f, *a),
            old(self).cx().m.expr_ok(old(self).cx().f, *b),
        ensures
            Self::wrote(old(self), final(self), old(self).cx().test(t, op, *a, *b), done),
    {
        proof {
            reveal(Cx::test);
        }
        let ta = self.type_of(a);
        let tb = self.type_of(b);
        let s = match scalar_size(ta) {
            Some(s) => s,
            None => {
                return false;
            },
        };
        if !self.load(RegisterName::A, a) {
            return false;
        }
        if !self.load(RegisterName::C, b) {
            return false;
        }
        if self.reg_type(t) != Type::Bool || ta != tb {
            return false;
        }
        self.emit(Line::Op2(Opcode::Cmp, reg_arg(RegisterName::A, s), reg_arg(RegisterName::C, s)));
        self.emit(
            Line::Op1(Opcode::SetIf(condition_of(op)), reg_arg(RegisterName::A, Size::Byte)),
        );
        self.store(t, RegisterName::A, Size::Byte);
        assert(self.lines() =~= old(self).lines() + old(self).cx().test(t, op, *a, *b)->0);
        true
    }

    fn gen_var_pointer(&mut self, t: RegID, v: VarID) -> (done: bool)
        requires
            old(self).slotted(),
            old(self).cx().m.reg_in(t, old(self).cx().f),
            old(self).cx().m.var_in(v, old(self).cx().f),
        ensures
            Self::wrote(old(self), final(self), old(self).cx().var_pointer(t, v), done),
    {
        proof {
            reveal(Cx::var_pointer);
            reveal(Backend::slotted);
        }
        if self.reg_type(t) != Type::Pointer {
            return false;
        }
        let off = self.ctx.variable_offset(v);
        self.emit(
            Line::Op2(
                Opcode::Lea,
                reg_arg(RegisterName::A, Size::Quad),
                Arg::Memory(frame_memory(off)),
            ),
        );
        self.store(t, RegisterName::A, Size::Quad);
        assert(self.lines() =~= old(self).lines() + old(self).cx().var_pointer(t, v)->0);
        true
    }

    fn gen_function_pointer(&mut self, t: RegID, g: FuncID) -> (done: bool)
        requires
            old(self).slotted(),
            old(self).cx().m.reg_in(t, old(self).cx().f),
        ensures
            Self::wrote(old(self), final(self), old(self).cx().function_pointer(t, g), done),
    {
        proof {
            reveal(Cx::function_pointer);
        }
        if self.reg_type(t) != Type::Pointer {
            return false;
        }
        self.emit(
            Line::Op2(
                Opcode::Lea,
                reg_arg(RegisterName::A, Size::Quad),
                Arg::Memory(Memory::rip().label(Label::Function(g.0))),
            ),
        );
        self.store(t, RegisterName::A, Size::Quad);
        assert(self.lines() =~= old(self).lines() + old(self).cx().function_pointer(t, g)->0);
        true
    }

    fn gen_load_from(&mut self, t: RegID, pointer: RegID) -> (done: bool)
        requires
            old(self).slotted(),
            old(self).cx().m.reg_in(t, old(self).cx().f),
            old(self).cx().m.reg_in(pointer, old(self).cx().f),
        ensures
            Self::wrote(old(self), final(self), old(self).cx().load_from(t, pointer), done),
    {
        proof {
            reveal(Cx::load_from);
        }
        if self.reg_type(pointer) != Type::Pointer {
            return false;
        }
        let address = self.reg_slot(pointer);
        let to = self.reg_slot(t);
        let size = self.size_in_frame(self.reg_type(t), Ghost(t));
        self.emit(
            Line::Op2(
                Opcode::Mov,
                reg_arg(RegisterName::C, Size::Quad),
                slot_arg(address, Size::Quad),
            ),
        );
        self.move_bytes(memory_behind(RegisterName::C), frame_memory(to), size);
        assert(self.lines() =~= old(self).lines() + old(self).cx().load_from(t, pointer)->0);
        true
    }

    fn gen_store_to(&mut self, pointer: RegID, value: &Expr) -> (done: bool)
        requires
            old(self).slotted(),
            old(self).cx().m.reg_in(pointer, old(self).cx().f),
            old(self).cx().m.expr_ok(old(self).cx().f, *value),
        ensures
            Self::wrote(old(self), final(self), old(self).cx().store_to(pointer, *value), done),
    {
        proof {
            reveal(Cx::store_to);
        }
        if self.reg_type(pointer) != Type::Pointer {
            return false;
        }
        let address = self.reg_slot(pointer);
        let fetch = Line::Op2(
            Opcode::Mov,
            reg_arg(RegisterName::C, Size::Quad),
            slot_arg(address, Size::Quad),
        );
        match value {
            Expr::Register(r) => {
                let from = self.reg_slot(*r);
                let size = self.size_in_frame(self.reg_type(*r), Ghost(*r));
                self.emit(fetch);
                self.move_bytes(frame_memory(from), memory_behind(RegisterName::C), size);
                assert(self.lines() =~= old(self).lines() + old(self).cx().store_to(
                    pointer,
                    *value,
                )->0);
                true
            },
            Expr::Constant(_) => {
                let ty = self.type_of(value);
                match scalar_size(ty) {
                    Some(s) => {
                        self.emit(fetch);
                        if !self.load(RegisterName::A, value) {
                            return false;
                        }
                        self.emit(
                            Line::Op2(
                                Opcode::Mov,
                                Arg::Memory(memory_behind(RegisterName::C).size(s)),
                                reg_arg(RegisterName::A, s),
                            ),
                        );
                        assert(self.lines() =~= old(self).lines() + old(self).cx().store_to(
                            pointer,
                            *value,
                        )->0);
                        true
                    },
                    None => {
                        if ty == Type::Unit {
                            assert(self.lines() =~= old(self).lines() + Seq::<Line>::empty());
                            true
                        } else {
                            false
                        }
                    },
                }
            },
        }
    }

    fn gen_member_pointer(
        &mut self,
        t: RegID,
        pointer: RegID,
        member: u32,
        id: crate::types::StructTypeID,
    ) -> (done: bool)
        requires
            old(self).slotted(),
            old(self).cx().m.reg_in(t, old(self).cx().f),
            old(self).cx().m.reg_in(pointer, old(self).cx().f),
        ensures
            Self::wrote(
                old(self),
                final(self),
                old(self).cx().member_pointer(t, pointer, member, id),
                done,
            ),
    {
        proof {
            reveal(Cx::member_pointer);
            reveal(Backend::slotted);
        }
        if self.reg_type(t) != Type::Pointer || self.reg_type(pointer) != Type::Pointer {
            return false;
        }
        if !self.types.is_valid(Type::Struct(id)) {
            return false;
        }
        let layout = match self.struct_layout(id) {
            Some(layout) => layout,
            None => {
                return false;
            },
        };
        if member as usize >= layout.field_offsets.len() || layout.size > 0x7fff_ffff {
            return false;
        }
        proof {
            crate::types::lemma_struct_layout(*self.types, id, member as nat);
        }
        let offset = layout.field_offsets[member as usize] as i32;
        let address = self.reg_slot(pointer);
        self.emit(
            Line::Op2(
                Opcode::Mov,
                reg_arg(RegisterName::A, Size::Quad),
                slot_arg(address, Size::Quad),
            ),
        );
        self.emit(
            Line::Op2(
                Opcode::Add,
                reg_arg(RegisterName::A, Size::Quad),
                Arg::Int(ConstInt::I32(offset)),
            ),
        );
        self.store(t, RegisterName::A, Size::Quad);
        assert(self.lines() =~= old(self).lines() + old(self).cx().member_pointer(
            t,
            pointer,
            member,
            id,
        )->0);
        true
    }

    fn gen_element_pointer(
        &mut self,
        t: RegID,
        pointer: RegID,
        index: &Expr,
        element: Type,
    ) -> (done: bool)
        requires
            old(self).slotted(),
            old(self).cx().m.reg_in(t, old(self).cx().f),
            old(self).cx().m.reg_in(pointer, old(self).cx().f),
            old(self).cx().m.expr_ok(old(self).cx().f, *index),
        ensures
            Self::wrote(
                old(self),
                final(self),
                old(self).cx().element_pointer(t, pointer, *index, element),
                done,
            ),
    {
        proof {
            reveal(Cx::element_pointer);
            reveal(Backend::slotted);
        }
        if self.reg_type(t) != Type::Pointer || self.reg_type(pointer) != Type::Pointer {
            return false;
        }
        if self.type_of(index) != Type::Integer(64) || !self.types.is_valid(element) {
            return false;
        }
        let size = match self.layout(element) {
            Some((size, _)) => size,
            None => {
                return false;
            },
        };
        if size > 0x7fff_ffff {
            return false;
        }
        let address = self.reg_slot(pointer);
        self.emit(
            Line::Op2(
                Opcode::Mov,
                reg_arg(RegisterName::A, Size::Quad),
                slot_arg(address, Size::Quad),
            ),
        );
        if !self.load(RegisterName::C, index) {
            return false;
        }
        self.emit(
            Line::Op2(
                Opcode::Mov,
                reg_arg(RegisterName::D, Size::Quad),
                Arg::Int(ConstInt::I64(size as i64)),
            ),
        );
        self.emit(
            Line::Op2(
                Opcode::IMul,
                reg_arg(RegisterName::C, Size::Quad),
                reg_arg(RegisterName::D, Size::Quad),
            ),
        );
        self.emit(
            Line::Op2(
                Opcode::Add,
                reg_arg(RegisterName::A, Size::Quad),
                reg_arg(RegisterName::C, Size::Quad),
            ),
        );
        self.store(t, RegisterName::A, Size::Quad);
        assert(self.lines() =~= old(self).lines() + old(self).cx().element_pointer(
            t,
            pointer,
            *index,
            element,
        )->0);
        true
    }

    fn gen_member(&mut self, t: RegID, structure: &Expr, member: u32) -> (done: bool)
        requires
            old(self).slotted(),
            old(self).cx().m.reg_in(t, old(self).cx().f),
            old(self).cx().m.expr_ok(old(self).cx().f, *structure),
        ensures
            Self::wrote(old(self), final(self), old(self).cx().member(t, *structure, member), done),
    {
        proof {
            reveal(Cx::member);
            reveal(Backend::slotted);
        }
        let r = match structure {
            Expr::Register(r) => *r,
            _ => {
                return false;
            },
        };
        let id = match self.reg_type(r) {
            Type::Struct(id) => id,
            _ => {
                return false;
            },
        };
        let members = self.types.structure(id).members();
        if member as usize >= members.len() {
            return false;
        }
        let ty = members[member as usize];
        if self.reg_type(t) != ty {
            return false;
        }
        proof {
            self.cx().lemma_reg_slot(r);
            crate::types::lemma_struct_layout(*self.types, id, member as nat);
        }
        let layout = self.struct_layout(id).unwrap();
        let from = self.reg_slot(r);
        let to = self.reg_slot(t);
        let size = self.size_in_frame(ty, Ghost(t));
        let offset = layout.field_offsets[member as usize] as i32;
        self.move_bytes(frame_memory(from + offset), frame_memory(to), size);
        true
    }

    /// Puts the values `args` where they wait on their way to another
    /// block: value `i` lies 8 bytes above value `i + 1`, the last at
    /// `lowest`.
    fn gen_stash(&mut self, args: &Vec<Expr>, lowest: i32) -> (done: bool)
        requires
            old(self).slotted(),
            old(self).cx().m.exprs_ok(old(self).cx().f, args@),
            0 < args@.len() <= 0xffff,
            lowest == -(old(self).cx().frame_size() + 8 * args@.len()),
        ensures
            Self::wrote(old(self), final(self), old(self).cx().stash(args@, args@.len()), done),
    {
        let ghost cx = self.cx();
        let n = args.len();
        let mut i: usize = 0;
        assert(self.lines() =~= old(self).lines() + Seq::<Line>::empty());
        while i < n
            invariant
                0 <= i <= n,
                0 < n <= 0xffff,
                n == args@.len(),
                self.slotted(),
                self.cx() == cx,
                old(self).cx() == cx,
                Self::kept(old(self), self),
                lowest == -(cx.frame_size() + 8 * n),
                cx.m.exprs_ok(cx.f, args@),
                cx.stash(args@, i as nat) is Some,
                self.lines() == old(self).lines() + cx.stash(args@, i as nat)->0,
            decreases n - i,
        {
            assert(cx.m.expr_ok(cx.f, args@[i as int]));
            let s = match scalar_size(self.type_of(&args[i])) {
                Some(s) => s,
                None => {
                    proof {
                        lemma_stash_none(cx, args@, (i + 1) as nat, n as nat);
                    }
                    return false;
                },
            };
            if !self.load(RegisterName::A, &args[i]) {
                proof {
                    lemma_stash_none(cx, args@, (i + 1) as nat, n as nat);
                }
                return false;
            }
            let off = lowest + 8 * ((n - 1 - i) as i32);
            self.emit(Line::Op2(Opcode::Mov, slot_arg(off, s), reg_arg(RegisterName::A, s)));
            assert(self.lines() =~= old(self).lines() + cx.stash(args@, (i + 1) as nat)->0);
            i += 1;
        }
        true
    }

    /// Takes the waiting values to the parameters `params`.
    fn gen_unstash(&mut self, params: &Vec<RegID>, lowest: i32) -> (done: bool)
        requires
            old(self).slotted(),
            forall|k: int|
                0 <= k < params@.len() ==> old(self).cx().m.reg_in(
                    #[trigger] params@[k],
                    old(self).cx().f,
                ),
            0 < params@.len() <= 0xffff,
            lowest == -(old(self).cx().frame_size() + 8 * params@.len()),
        ensures
            Self::wrote(
                old(self),
                final(self),
                old(self).cx().unstash(params@, params@.len()),
                done,
            ),
    {
        let ghost cx = self.cx();
        let n = params.len();
        let mut i: usize = 0;
        assert(self.lines() =~= old(self).lines() + Seq::<Line>::empty());
        while i < n
            invariant
                0 <= i <= n,
                0 < n <= 0xffff,
                n == params@.len(),
                self.slotted(),
                self.cx() == cx,
                old(self).cx() == cx,
                Self::kept(old(self), self),
                lowest == -(cx.frame_size() + 8 * n),
                forall|k: int| 0 <= k < params@.len() ==> cx.m.reg_in(#[trigger] params@[k], cx.f),
                cx.unstash(params@, i as nat) is Some,
                self.lines() == old(self).lines() + cx.unstash(params@, i as nat)->0,
            decreases n - i,
        {
            assert(cx.m.reg_in(params@[i as int], cx.f));
            let s = match scalar_size(self.reg_type(params[i])) {
                Some(s) => s,
                None => {
                    proof {
                        lemma_unstash_none(cx, params@, (i + 1) as nat, n as nat);
                    }
                    return false;
                },
            };
            let off = lowest + 8 * ((n - 1 - i) as i32);
            self.emit(Line::Op2(Opcode::Mov, reg_arg(RegisterName::A, s), slot_arg(off, s)));
            self.store(params[i], RegisterName::A, s);
            assert(self.lines() =~= old(self).lines() + cx.unstash(params@, (i + 1) as nat)->0);
            i += 1;
        }
        true
    }

    /// Whether the values `args` have the types of the parameters
    /// `params`, one by one.
    fn args_match(&self, args: &Vec<Expr>, params: &Vec<RegID>) -> (r: bool)
        requires
            self.slotted(),
            self.cx().m.exprs_ok(self.cx().f, args@),
            forall|k: int|
                0 <= k < params@.len() ==> self.cx().m.reg_in(#[trigger] params@[k], self.cx().f),
        ensures
            r == self.cx().args_match(args@, params@),
    {
        if args.len() != params.len() {
            return false;
        }
        let n = args.len();
        let mut i: usize = 0;
        while i < n
            invariant
                0 <= i <= n,
                n == args@.len(),
                n == params@.len(),
                self.slotted(),
                self.cx().m.exprs_ok(self.cx().f, args@),
                forall|k: int|
                    0 <= k < params@.len() ==> self.cx().m.reg_in(
                        #[trigger] params@[k],
                        self.cx().f,
                    ),
                forall|k: int|
                    0 <= k < i ==> self.cx().type_of(#[trigger] args@[k]) == self.cx().reg_type(
                        params@[k],
                    ),
            decreases n - i,
        {
            assert(self.cx().m.expr_ok(self.cx().f, args@[i as int]));
            assert(self.cx().m.reg_in(params@[i as int], self.cx().f));
            if self.type_of(&args[i]) != self.reg_type(params[i]) {
                return false;
            }
            i += 1;
        }
        true
    }

    /// Hands the values of `target` to the parameters of its block.
    #[verifier::rlimit(100)]
    fn gen_pass(&mut self, target: &BlockTarget) -> (r: Result<(), Fault>)
        requires
            old(self).framed(),
            old(self).cx().m.target_ok(old(self).cx().f, *target),
        ensures
            Self::lowered(old(self), final(self), old(self).cx().pass(*target), r),
    {
        proof {
            reveal(Backend::slotted);
            reveal(Cx::pass);
        }
        let ghost cx = self.cx();
        let module: &Module = self.module;
        assert(cx.m.block_wf(target.block.0 as int));
        let args = &target.parameters;
        let params = module.block(target.block).parameters();
        if !self.args_match(args, params) {
            return Err(Fault::Malformed);
        }
        let n = args.len();
        if n == 0 {
            assert(self.lines() =~= old(self).lines() + Seq::<Line>::empty());
            return Ok(());
        }
        if n > 0xffff {
            return Err(Fault::Unsupported);
        }
        proof {
            lemma_align_up(depth_after(cx.items(), cx.items().len()), 16);
            assert(cx.frame_size() % 16 == 0);
        }
        let lowest = match self.delayed_alloc((8 * n) as u64, 8) {
            Some(lowest) => lowest,
            None => {
                return Err(Fault::Unsupported);
            },
        };
        self.realize_alloc();
        let ghost start = *self;
        assert(start.lines() == old(self).lines() + stack_down(8 * n));
        if !self.gen_stash(args, lowest) {
            return Err(Fault::Unsupported);
        }
        let ghost middle = *self;
        if !self.gen_unstash(params, lowest) {
            return Err(Fault::Unsupported);
        }
        let ghost end = *self;
        self.clear_temps();
        proof {
            let down = cx.stash(args@, n as nat)->0;
            let up = cx.unstash(params@, n as nat)->0;
            assert(middle.lines() == start.lines() + down);
            assert(end.lines() == middle.lines() + up);
            assert(self.lines() == end.lines() + stack_up(8 * n));
            assert(cx.pass(*target) == Lowered::Lines(
                stack_down(8 * n) + down + up + stack_up(8 * n),
            ));
            assert(self.lines() =~= old(self).lines() + (stack_down(8 * n) + down + up + stack_up(
                8 * n,
            )));
        }
        Ok(())
    }

    fn gen_jump(&mut self, target: &BlockTarget) -> (r: Result<(), Fault>)
        requires
            old(self).framed(),
            old(self).cx().m.target_ok(old(self).cx().f, *target),
        ensures
            Self::lowered(old(self), final(self), old(self).cx().jump(*target), r),
    {
        proof {
            reveal(Cx::jump);
        }
        self.gen_pass(target)?;
        self.emit(Line::Op1(Opcode::Jmp, Arg::Label(Label::Block(target.block.0))));
        assert(self.lines() =~= old(self).lines() + old(self).cx().jump(*target)->Lines_0);
        Ok(())
    }

    fn gen_branch(&mut self, b: BlockID, c: &Expr, t: &BlockTarget, f: &BlockTarget) -> (r: Result<
        (),
        Fault,
    >)
        requires
            old(self).framed(),
            old(self).cx().m.expr_ok(old(self).cx().f, *c),
            old(self).cx().m.target_ok(old(self).cx().f, *t),
            old(self).cx().m.target_ok(old(self).cx().f, *f),
        ensures
            Self::lowered(old(self), final(self), old(self).cx().branch(b, *c, *t, *f), r),
    {
        proof {
            reveal(Cx::branch);
        }
        if self.type_of(c) != Type::Bool {
            return Err(Fault::Malformed);
        }
        if !self.load(RegisterName::A, c) {
            return Err(Fault::Unsupported);
        }
        self.emit(
            Line::Op2(
                Opcode::Cmp,
                reg_arg(RegisterName::A, Size::Byte),
                Arg::Int(ConstInt::U8(0)),
            ),
        );
        self.emit(Line::Op1(Opcode::JumpIf(Cond::Equal), Arg::Label(Label::Otherwise(b.0))));
        self.gen_jump(t)?;
        self.emit(Line::Label(Label::Otherwise(b.0)));
        self.gen_jump(f)?;
        assert(self.lines() =~= old(self).lines() + old(self).cx().branch(
            b,
            *c,
            *t,
            *f,
        )->Lines_0);
        Ok(())
    }

    fn gen_ret(&mut self, e: &Expr) -> (r: Result<(), Fault>)
        requires
            old(self).framed(),
            old(self).cx().m.expr_ok(old(self).cx().f, *e),
        ensures
            Self::lowered(old(self), final(self), old(self).cx().ret(*e), r),
    {
        proof {
            reveal(Cx::ret);
            reveal(Backend::slotted);
        }
        let module: &Module = self.module;
        let ty = self.type_of(e);
        let fid = self.ctx.id;
        if ty != module.function(fid).return_type() {
            return Err(Fault::Malformed);
        }
        if ty == Type::Unit {
            self.gen_function_epilogue(fid);
            return Ok(());
        }
        if scalar_size(ty).is_none() {
            return Err(Fault::Unsupported);
        }
        if !self.load(RegisterName::A, e) {
            return Err(Fault::Unsupported);
        }
        self.gen_function_epilogue(fid);
        assert(self.lines() =~= old(self).lines() + old(self).cx().ret(*e)->Lines_0);
        Ok(())
    }

    fn gen_load_args(&mut self, args: &Vec<Expr>, system: bool) -> (done: bool)
        requires
            old(self).slotted(),
            old(self).cx().m.exprs_ok(old(self).cx().f, args@),
            args@.len() <= 6,
        ensures
            Self::wrote(
                old(self),
                final(self),
                old(self).cx().load_args(args@, args@.len(), system),
                done,
            ),
    {
        let ghost cx = self.cx();
        let n = args.len();
        let mut i: usize = 0;
        assert(self.lines() =~= old(self).lines() + Seq::<Line>::empty());
        while i < n
            invariant
                0 <= i <= n,
                n == args@.len(),
                n <= 6,
                self.slotted(),
                self.cx() == cx,
                old(self).cx() == cx,
                Self::kept(old(self), self),
                cx.m.exprs_ok(cx.f, args@),
                cx.load_args(args@, i as nat, system) is Some,
                self.lines() == old(self).lines() + cx.load_args(args@, i as nat, system)->0,
            decreases n - i,
        {
            assert(cx.m.expr_ok(cx.f, args@[i as int]));
            if scalar_size(self.type_of(&args[i])).is_none() {
                proof {
                    lemma_load_args_none(cx, args@, (i + 1) as nat, n as nat, system);
                }
                return false;
            }
            let to = if system {
                syscall_register_of(i)
            } else {
                argument_register_of(i)
            };
            if !self.load(to, &args[i]) {
                proof {
                    lemma_load_args_none(cx, args@, (i + 1) as nat, n as nat, system);
                }
                return false;
            }
            assert(self.lines() =~= old(self).lines() + cx.load_args(
                args@,
                (i + 1) as nat,
                system,
            )->0);
            i += 1;
        }
        true
    }

    /// Whether the arguments `args` are what a function takes that has the
    /// parameters `tys` and returns a value of `ret` into the register `t`.
    fn call_matches(
        &self,
        t: RegID,
        ret: Type,
        tys: &Vec<Type>,
        varargs: bool,
        args: &Vec<Expr>,
    ) -> (r: bool)
        requires
            self.slotted(),
            self.cx().m.reg_in(t, self.cx().f),
            self.cx().m.exprs_ok(self.cx().f, args@),
        ensures
            r == self.cx().call_matches(t, ret, tys@, varargs, args@),
    {
        if self.reg_type(t) != ret {
            return false;
        }
        if !(args.len() == tys.len() || (varargs && args.len() > tys.len())) {
            return false;
        }
        let mut i: usize = 0;
        while i < tys.len()
            invariant
                0 <= i <= tys@.len(),
                tys@.len() <= args@.len(),
                self.slotted(),
                self.cx().m.exprs_ok(self.cx().f, args@),
                forall|k: int| 0 <= k < i ==> self.cx().type_of(#[trigger] args@[k]) == tys@[k],
            decreases tys@.len() - i,
        {
            assert(self.cx().m.expr_ok(self.cx().f, args@[i as int]));
            if self.type_of(&args[i]) != tys[i] {
                return false;
            }
            i += 1;
        }
        true
    }

    /// Makes a call to `target` once its arguments are checked: the
    /// arguments go to their registers, the pointer `through`, if there is
    /// one, goes to `r11`, and the result is taken.
    fn gen_call_lines(
        &mut self,
        t: RegID,
        ret: Type,
        varargs: bool,
        args: &Vec<Expr>,
        through: Option<RegID>,
        target: Arg,
    ) -> (r: Result<(), Fault>)
        requires
            old(self).slotted(),
            old(self).cx().m.reg_in(t, old(self).cx().f),
            old(self).cx().m.exprs_ok(old(self).cx().f, args@),
            through matches Some(p) ==> old(self).cx().m.reg_in(p, old(self).cx().f),
        ensures
            Self::lowered(
                old(self),
                final(self),
                old(self).cx().call_lines(
                    t,
                    ret,
                    varargs,
                    args@,
                    through_lines(old(self).cx(), through),
                    target,
                ),
                r,
            ),
    {
        proof {
            reveal(Cx::call_lines);
        }
        let ghost cx = self.cx();
        let result = scalar_size(ret);
        if args.len() > 6 || !(ret == Type::Unit || result.is_some()) {
            return Err(Fault::Unsupported);
        }
        if !self.gen_load_args(args, false) {
            return Err(Fault::Unsupported);
        }
        match through {
            Some(p) => {
                let address = self.reg_slot(p);
                self.emit(
                    Line::Op2(
                        Opcode::Mov,
                        reg_arg(RegisterName::R11, Size::Quad),
                        slot_arg(address, Size::Quad),
                    ),
                );
            },
            None => {},
        }
        if varargs {
            self.emit(
                Line::Op2(
                    Opcode::Mov,
                    reg_arg(RegisterName::A, Size::Double),
                    Arg::Int(ConstInt::I32(0)),
                ),
            );
        }
        self.emit(Line::Op1(Opcode::Call, target));
        match result {
            Some(s) => {
                self.store(t, RegisterName::A, s);
            },
            None => {},
        }
        assert(self.lines() =~= old(self).lines() + cx.call_lines(
            t,
            ret,
            varargs,
            args@,
            through_lines(cx, through),
            target,
        )->Lines_0);
        Ok(())
    }

    fn gen_call(&mut self, t: RegID, g: FuncID, args: &Vec<Expr>) -> (r: Result<(), Fault>)
        requires
            old(self).framed(),
            old(self).cx().m.reg_in(t, old(self).cx().f),
            g.0 < old(self).cx().m.functions.len(),
            old(self).cx().m.exprs_ok(old(self).cx().f, args@),
        ensures
            Self::lowered(old(self), final(self), old(self).cx().call(t, g, args@), r),
    {
        proof {
            reveal(Cx::call);
        }
        let module: &Module = self.module;
        let callee = module.function(g);
        if !self.call_matches(
            t,
            callee.return_type(),
            callee.parameter_types(),
            callee.is_vararg(),
            args,
        ) {
            return Err(Fault::Malformed);
        }
        self.gen_call_lines(
            t,
            callee.return_type(),
            callee.is_vararg(),
            args,
            None,
            Arg::Label(Label::Function(g.0)),
        )
    }

    fn gen_call_pointer(
        &mut self,
        t: RegID,
        pointer: RegID,
        args: &Vec<Expr>,
        signature: &crate::module::function::FunctionSignature,
    ) -> (r: Result<(), Fault>)
        requires
            old(self).framed(),
            old(self).cx().m.reg_in(t, old(self).cx().f),
            old(self).cx().m.reg_in(pointer, old(self).cx().f),
            old(self).cx().m.exprs_ok(old(self).cx().f, args@),
        ensures
            Self::lowered(
                old(self),
                final(self),
                old(self).cx().call_pointer(t, pointer, args@, *signature),
                r,
            ),
    {
        proof {
            reveal(Cx::call_pointer);
        }
        if self.reg_type(pointer) != Type::Pointer || !self.call_matches(
            t,
            signature.return_type,
            &signature.parameter_types,
            signature.is_varargs,
            args,
        ) {
            return Err(Fault::Malformed);
        }
        self.gen_call_lines(
            t,
            signature.return_type,
            signature.is_varargs,
            args,
            Some(pointer),
            reg_arg(RegisterName::R11, Size::Quad),
        )
    }

    fn gen_syscall(&mut self, t: RegID, number: &Expr, args: &Vec<Expr>) -> (done: bool)
        requires
            old(self).slotted(),
            old(self).cx().m.reg_in(t, old(self).cx().f),
            old(self).cx().m.expr_ok(old(self).cx().f, *number),
            old(self).cx().m.exprs_ok(old(self).cx().f, args@),
        ensures
            Self::wrote(old(self), final(self), old(self).cx().syscall(t, *number, args@), done),
    {
        proof {
            reveal(Cx::syscall);
        }
        let ghost cx = self.cx();
        match self.system {
            System::Linux => {},
            _ => {
                return false;
            },
        }
        if args.len() > 6 {
            return false;
        }
        match (scalar_size(self.reg_type(t)), scalar_size(self.type_of(number))) {
            (Some(Size::Quad), Some(Size::Quad)) => {},
            _ => {
                return false;
            },
        }
        let mut i: usize = 0;
        while i < args.len()
            invariant
                0 <= i <= args@.len(),
                self.slotted(),
                self.cx() == cx,
                Self::kept(old(self), self),
                self.lines() == old(self).lines(),
                cx.m.exprs_ok(cx.f, args@),
                forall|k: int|
                    0 <= k < i ==> scalar(cx.type_of(#[trigger] args@[k])) == Some(Size::Quad),
            decreases args@.len() - i,
        {
            assert(cx.m.expr_ok(cx.f, args@[i as int]));
            match scalar_size(self.type_of(&args[i])) {
                Some(Size::Quad) => {},
                _ => {
                    proof {
                        reveal(Cx::syscall);
                    }
                    return false;
                },
            }
            i += 1;
        }
        if !self.gen_load_args(args, true) {
            return false;
        }
        if !self.load(RegisterName::A, number) {
            return false;
        }
        self.emit(Line::Op0(Opcode::Syscall));
        self.store(t, RegisterName::A, Size::Quad);
        assert(self.lines() =~= old(self).lines() + cx.syscall(t, *number, args@)->0);
        true
    }

    fn lower_assign(&mut self, b: BlockID, t: RegID, e: &Expr) -> (r: Result<(), Fault>)
        requires
            old(self).framed(),
            old(self).cx().m.instr_ok(old(self).cx().f, Instruction::Assign(t, *e)),
        ensures
            Self::lowered(
                old(self),
                final(self),
                old(self).cx().instr_code(b, Instruction::Assign(t, *e)),
                r,
            ),
    {
        proof {
            reveal(Cx::instr_code);
            let cx = self.cx();
            let ops = (Instruction::Assign(t, *e)).operands();
            assert(cx.m.expr_ok(cx.f, ops[0]));
        }
        let done = self.gen_assign(t, e);
        if done {
            Ok(())
        } else {
            Err(Fault::Unsupported)
        }
    }

    fn lower_binary(
        &mut self,
        b: BlockID,
        t: RegID,
        op: BinaryOp,
        x: &Expr,
        y: &Expr,
    ) -> (r: Result<(), Fault>)
        requires
            old(self).framed(),
            old(self).cx().m.instr_ok(old(self).cx().f, Instruction::BinaryOp(t, op, *x, *y)),
        ensures
            Self::lowered(
                old(self),
                final(self),
                old(self).cx().instr_code(b, Instruction::BinaryOp(t, op, *x, *y)),
                r,
            ),
    {
        proof {
            reveal(Cx::instr_code);
            let cx = self.cx();
            let ops = (Instruction::BinaryOp(t, op, *x, *y)).operands();
            assert(cx.m.expr_ok(cx.f, ops[0]));
            assert(cx.m.expr_ok(cx.f, ops[1]));
        }
        let done = self.gen_binary(t, op, x, y);
        if done {
            Ok(())
        } else {
            Err(Fault::Unsupported)
        }
    }

    fn lower_unary(&mut self, b: BlockID, t: RegID, op: UnaryOp, x: &Expr) -> (r: Result<(), Fault>)
        requires
            old(self).framed(),
            old(self).cx().m.instr_ok(old(self).cx().f, Instruction::UnaryOp(t, op, *x)),
        ensures
            Self::lowered(
                old(self),
                final(self),
                old(self).cx().instr_code(b, Instruction::UnaryOp(t, op, *x)),
                r,
            ),
    {
        proof {
            reveal(Cx::instr_code);
            let cx = self.cx();
            let ops = (Instruction::UnaryOp(t, op, *x)).operands();
            assert(cx.m.expr_ok(cx.f, ops[0]));
        }
        let done = self.gen_unary(t, op, x);
        if done {
            Ok(())
        } else {
            Err(Fault::Unsupported)
        }
    }

    fn lower_test(
        &mut self,
        b: BlockID,
        t: RegID,
        op: TestOp,
        x: &Expr,
        y: &Expr,
    ) -> (r: Result<(), Fault>)
        requires
            old(self).framed(),
            old(self).cx().m.instr_ok(old(self).cx().f, Instruction::TestOp(t, op, *x, *y)),
        ensures
            Self::lowered(
                old(self),
                final(self),
                old(self).cx().instr_code(b, Instruction::TestOp(t, op, *x, *y)),
                r,
            ),
    {
        proof {
            reveal(Cx::instr_code);
            let cx = self.cx();
            let ops = (Instruction::TestOp(t, op, *x, *y)).operands();
            assert(cx.m.expr_ok(cx.f, ops[0]));
            assert(cx.m.expr_ok(cx.f, ops[1]));
        }
        let done = self.gen_test(t, op, x, y);
        if done {
            Ok(())
        } else {
            Err(Fault::Unsupported)
        }
    }

    fn lower_member(
        &mut self,
        b: BlockID,
        target: RegID,
        structure: &Expr,
        member: u32,
    ) -> (r: Result<(), Fault>)
        requires
            old(self).framed(),
            old(self).cx().m.instr_ok(old(self).cx().f, (Instruction::GetMember { target, structure: *structure, member })),
        ensures
            Self::lowered(
                old(self),
                final(self),
                old(self).cx().instr_code(b, (Instruction::GetMember { target, structure: *structure, member })),
                r,
            ),
    {
        proof {
            reveal(Cx::instr_code);
            let cx = self.cx();
            let ops = ((Instruction::GetMember { target, structure: *structure, member })).operands();
            assert(cx.m.expr_ok(cx.f, ops[0]));
        }
        let done = self.gen_member(target, structure, member);
        if done {
            Ok(())
        } else {
            Err(Fault::Unsupported)
        }
    }

    fn lower_member_pointer(
        &mut self,
        b: BlockID,
        target: RegID,
        struct_pointer: RegID,
        member: u32,
        struct_type: crate::types::StructTypeID,
    ) -> (r: Result<(), Fault>)
        requires
            old(self).framed(),
            old(self).cx().m.instr_ok(old(self).cx().f, (Instruction::GetMemberPtr { target, struct_pointer, member, struct_type })),
        ensures
            Self::lowered(
                old(self),
                final(self),
                old(self).cx().instr_code(b, (Instruction::GetMemberPtr { target, struct_pointer, member, struct_type })),
                r,
            ),
    {
        proof {
            reveal(Cx::instr_code);
            let cx = self.cx();
            let ops = ((Instruction::GetMemberPtr { target, struct_pointer, member, struct_type })).operands();
            assert(cx.m.expr_ok(cx.f, ops[0]));
        }
        let done = self.gen_member_pointer(target, struct_pointer, member, struct_type);
        if done {
            Ok(())
        } else {
            Err(Fault::Unsupported)
        }
    }

    fn lower_var_pointer(&mut self, b: BlockID, t: RegID, v: VarID) -> (r: Result<(), Fault>)
        requires
            old(self).framed(),
            old(self).cx().m.instr_ok(old(self).cx().f, Instruction::GetVarPointer(t, v)),
        ensures
            Self::lowered(
                old(self),
                final(self),
                old(self).cx().instr_code(b, Instruction::GetVarPointer(t, v)),
                r,
            ),
    {
        proof {
            reveal(Cx::instr_code);
            let cx = self.cx();
            let ops = (Instruction::GetVarPointer(t, v)).operands();
        }
        let done = self.gen_var_pointer(t, v);
        if done {
            Ok(())
        } else {
            Err(Fault::Unsupported)
        }
    }

    fn lower_function_pointer(&mut self, b: BlockID, t: RegID, g: FuncID) -> (r: Result<(), Fault>)
        requires
            old(self).framed(),
            old(self).cx().m.instr_ok(old(self).cx().f, Instruction::GetFunctionPointer(t, g)),
        ensures
            Self::lowered(
                old(self),
                final(self),
                old(self).cx().instr_code(b, Instruction::GetFunctionPointer(t, g)),
                r,
            ),
    {
        proof {
            reveal(Cx::instr_code);
            let cx = self.cx();
            let ops = (Instruction::GetFunctionPointer(t, g)).operands();
        }
        let done = self.gen_function_pointer(t, g);
        if done {
            Ok(())
        } else {
            Err(Fault::Unsupported)
        }
    }

    fn lower_load_from(
        &mut self,
        b: BlockID,
        target: RegID,
        pointer: RegID,
        volatile: bool,
    ) -> (r: Result<(), Fault>)
        requires
            old(self).framed(),
            old(self).cx().m.instr_ok(old(self).cx().f, (Instruction::Load { target, pointer, volatile })),
        ensures
            Self::lowered(
                old(self),
                final(self),
                old(self).cx().instr_code(b, (Instruction::Load { target, pointer, volatile })),
                r,
            ),
    {
        proof {
            reveal(Cx::instr_code);
            let cx = self.cx();
            let ops = ((Instruction::Load { target, pointer, volatile })).operands();
            assert(cx.m.expr_ok(cx.f, ops[0]));
        }
        let done = self.gen_load_from(target, pointer);
        if done {
            Ok(())
        } else {
            Err(Fault::Unsupported)
        }
    }

    fn lower_store_to(
        &mut self,
        b: BlockID,
        pointer: RegID,
        value: &Expr,
        volatile: bool,
    ) -> (r: Result<(), Fault>)
        requires
            old(self).framed(),
            old(self).cx().m.instr_ok(old(self).cx().f, (Instruction::Store { pointer, value: *value, volatile })),
        ensures
            Self::lowered(
                old(self),
                final(self),
                old(self).cx().instr_code(b, (Instruction::Store { pointer, value: *value, volatile })),
                r,
            ),
    {
        proof {
            reveal(Cx::instr_code);
            let cx = self.cx();
            let ops = ((Instruction::Store { pointer, value: *value, volatile })).operands();
            assert(cx.m.expr_ok(cx.f, ops[0]));
            assert(cx.m.expr_ok(cx.f, ops[1]));
        }
        let done = self.gen_store_to(pointer, value);
        if done {
            Ok(())
        } else {
            Err(Fault::Unsupported)
        }
    }

    fn lower_jump(&mut self, b: BlockID, target: &BlockTarget) -> (r: Result<(), Fault>)
        requires
            old(self).framed(),
            old(self).cx().m.instr_ok(old(self).cx().f, Instruction::Jump(*target)),
        ensures
            Self::lowered(
                old(self),
                final(self),
                old(self).cx().instr_code(b, Instruction::Jump(*target)),
                r,
            ),
    {
        proof {
            reveal(Cx::instr_code);
            let cx = self.cx();
            let ops = (Instruction::Jump(*target)).operands();
            assert(cx.m.target_ok(cx.f, Instruction::Jump(*target).successors()[0]));
        }
        self.gen_jump(target)
    }

    fn lower_branch(
        &mut self,
        b: BlockID,
        c: &Expr,
        t: &BlockTarget,
        f: &BlockTarget,
    ) -> (r: Result<(), Fault>)
        requires
            old(self).framed(),
            old(self).cx().m.instr_ok(old(self).cx().f, Instruction::Branch(*c, *t, *f)),
        ensures
            Self::lowered(
                old(self),
                final(self),
                old(self).cx().instr_code(b, Instruction::Branch(*c, *t, *f)),
                r,
            ),
    {
        proof {
            reveal(Cx::instr_code);
            let cx = self.cx();
            let ops = (Instruction::Branch(*c, *t, *f)).operands();
            assert(cx.m.expr_ok(cx.f, ops[0]));
            assert(cx.m.target_ok(cx.f, Instruction::Branch(*c, *t, *f).successors()[0]));
            assert(cx.m.target_ok(cx.f, Instruction::Branch(*c, *t, *f).successors()[1]));
        }
        self.gen_branch(b, c, t, f)
    }

    fn lower_call(
        &mut self,
        b: BlockID,
        target: RegID,
        function: FuncID,
        args: &Vec<Expr>,
    ) -> (r: Result<(), Fault>)
        requires
            old(self).framed(),
            old(self).cx().m.instr_ok(old(self).cx().f, (Instruction::Call { target, function, args: *args })),
        ensures
            Self::lowered(
                old(self),
                final(self),
                old(self).cx().instr_code(b, (Instruction::Call { target, function, args: *args })),
                r,
            ),
    {
        proof {
            reveal(Cx::instr_code);
            let cx = self.cx();
            let ops = ((Instruction::Call { target, function, args: *args })).operands();
        }
        self.gen_call(target, function, args)
    }

    fn lower_syscall(
        &mut self,
        b: BlockID,
        target: RegID,
        number: &Expr,
        args: &Vec<Expr>,
    ) -> (r: Result<(), Fault>)
        requires
            old(self).framed(),
            old(self).cx().m.instr_ok(old(self).cx().f, (Instruction::Syscall { target, number: *number, args: *args })),
        ensures
            Self::lowered(
                old(self),
                final(self),
                old(self).cx().instr_code(b, (Instruction::Syscall { target, number: *number, args: *args })),
                r,
            ),
    {
        proof {
            reveal(Cx::instr_code);
            let cx = self.cx();
            let ops = ((Instruction::Syscall { target, number: *number, args: *args })).operands();
            assert(cx.m.expr_ok(cx.f, ops[0]));
            assert forall|i: int| 0 <= i < args@.len() implies cx.m.expr_ok(
                cx.f,
                #[trigger] args@[i],
            ) by {
                assert(cx.m.expr_ok(cx.f, ops[i + 1]));
            }
        }
        let done = self.gen_syscall(target, number, args);
        if done {
            Ok(())
        } else {
            Err(Fault::Unsupported)
        }
    }

    fn lower_ret(&mut self, b: BlockID, e: &Expr) -> (r: Result<(), Fault>)
        requires
            old(self).framed(),
            old(self).cx().m.instr_ok(old(self).cx().f, Instruction::Return(*e)),
        ensures
            Self::lowered(
                old(self),
                final(self),
                old(self).cx().instr_code(b, Instruction::Return(*e)),
                r,
            ),
    {
        proof {
            reveal(Cx::instr_code);
            let cx = self.cx();
            let ops = (Instruction::Return(*e)).operands();
            assert(cx.m.expr_ok(cx.f, ops[0]));
        }
        self.gen_ret(e)
    }

    fn lower_make_struct(&mut self, b: BlockID, t: RegID, values: &Vec<Expr>) -> (r: Result<
        (),
        Fault,
    >)
        requires
            old(self).framed(),
            old(self).cx().m.instr_ok(old(self).cx().f, Instruction::MakeStruct(t, *values)),
        ensures
            Self::lowered(
                old(self),
                final(self),
                old(self).cx().instr_code(b, Instruction::MakeStruct(t, *values)),
                r,
            ),
    {
        proof {
            reveal(Cx::instr_code);
        }
        let done = self.gen_make_struct(t, values);
        if done {
            Ok(())
        } else {
            Err(Fault::Unsupported)
        }
    }

    fn lower_make_array(&mut self, b: BlockID, t: RegID, values: &Vec<Expr>) -> (r: Result<
        (),
        Fault,
    >)
        requires
            old(self).framed(),
            old(self).cx().m.instr_ok(old(self).cx().f, Instruction::MakeArray(t, *values)),
        ensures
            Self::lowered(
                old(self),
                final(self),
                old(self).cx().instr_code(b, Instruction::MakeArray(t, *values)),
                r,
            ),
    {
        proof {
            reveal(Cx::instr_code);
        }
        let done = self.gen_make_array(t, values);
        if done {
            Ok(())
        } else {
            Err(Fault::Unsupported)
        }
    }

    fn lower_make_short_array(&mut self, b: BlockID, t: RegID, value: &Expr, length: u64) -> (r:
        Result<(), Fault>)
        requires
            old(self).framed(),
            old(self).cx().m.instr_ok(
                old(self).cx().f,
                Instruction::MakeShortArray(t, *value, length),
            ),
        ensures
            Self::lowered(
                old(self),
                final(self),
                old(self).cx().instr_code(b, Instruction::MakeShortArray(t, *value, length)),
                r,
            ),
    {
        proof {
            reveal(Cx::instr_code);
            let cx = self.cx();
            let ops = Instruction::MakeShortArray(t, *value, length).operands();
            assert(cx.m.expr_ok(cx.f, ops[0]));
        }
        let done = self.gen_make_short_array(t, value, length);
        if done {
            Ok(())
        } else {
            Err(Fault::Unsupported)
        }
    }

    fn lower_element(&mut self, b: BlockID, target: RegID, array: &Expr, index: &Expr) -> (r:
        Result<(), Fault>)
        requires
            old(self).framed(),
            old(self).cx().m.instr_ok(
                old(self).cx().f,
                (Instruction::GetElement { target, array: *array, index: *index }),
            ),
        ensures
            Self::lowered(
                old(self),
                final(self),
                old(self).cx().instr_code(
                    b,
                    (Instruction::GetElement { target, array: *array, index: *index }),
                ),
                r,
            ),
    {
        proof {
            reveal(Cx::instr_code);
            let cx = self.cx();
            let ops = (Instruction::GetElement { target, array: *array, index: *index }).operands();
            assert(cx.m.expr_ok(cx.f, ops[0]));
            assert(cx.m.expr_ok(cx.f, ops[1]));
        }
        let done = self.gen_element(target, array, index);
        if done {
            Ok(())
        } else {
            Err(Fault::Unsupported)
        }
    }

    fn lower_select(
        &mut self,
        b: BlockID,
        target: RegID,
        condition: &Expr,
        true_value: &Expr,
        false_value: &Expr,
    ) -> (r: Result<(), Fault>)
        requires
            old(self).framed(),
            old(self).cx().m.instr_ok(
                old(self).cx().f,
                (Instruction::Select {
                    target,
                    condition: *condition,
                    true_value: *true_value,
                    false_value: *false_value,
                }),
            ),
        ensures
            Self::lowered(
                old(self),
                final(self),
                old(self).cx().instr_code(
                    b,
                    (Instruction::Select {
                        target,
                        condition: *condition,
                        true_value: *true_value,
                        false_value: *false_value,
                    }),
                ),
                r,
            ),
    {
        proof {
            reveal(Cx::instr_code);
            let cx = self.cx();
            let ops = (Instruction::Select {
                target,
                condition: *condition,
                true_value: *true_value,
                false_value: *false_value,
            }).operands();
            assert(cx.m.expr_ok(cx.f, ops[0]));
            assert(cx.m.expr_ok(cx.f, ops[1]));
            assert(cx.m.expr_ok(cx.f, ops[2]));
        }
        let done = self.gen_select(target, condition, true_value, false_value);
        if done {
            Ok(())
        } else {
            Err(Fault::Unsupported)
        }
    }

    fn lower_element_pointer(
        &mut self,
        b: BlockID,
        target: RegID,
        array_pointer: RegID,
        index: &Expr,
        element_type: Type,
    ) -> (r: Result<(), Fault>)
        requires
            old(self).framed(),
            old(self).cx().m.instr_ok(
                old(self).cx().f,
                (Instruction::GetElementPtr { target, array_pointer, index: *index, element_type }),
            ),
        ensures
            Self::lowered(
                old(self),
                final(self),
                old(self).cx().instr_code(
                    b,
                    (Instruction::GetElementPtr {
                        target,
                        array_pointer,
                        index: *index,
                        element_type,
                    }),
                ),
                r,
            ),
    {
        proof {
            reveal(Cx::instr_code);
            let cx = self.cx();
            let ops = (Instruction::GetElementPtr {
                target,
                array_pointer,
                index: *index,
                element_type,
            }).operands();
            assert(cx.m.expr_ok(cx.f, ops[0]));
            assert(cx.m.expr_ok(cx.f, ops[1]));
        }
        let done = self.gen_element_pointer(target, array_pointer, index, element_type);
        if done {
            Ok(())
        } else {
            Err(Fault::Unsupported)
        }
    }

    fn lower_call_pointer(
        &mut self,
        b: BlockID,
        target: RegID,
        function_ptr: RegID,
        args: &Vec<Expr>,
        signature: &crate::module::function::FunctionSignature,
    ) -> (r: Result<(), Fault>)
        requires
            old(self).framed(),
            old(self).cx().m.instr_ok(
                old(self).cx().f,
                (Instruction::CallPtr { target, function_ptr, args: *args, signature: *signature }),
            ),
        ensures
            Self::lowered(
                old(self),
                final(self),
                old(self).cx().instr_code(
                    b,
                    (Instruction::CallPtr {
                        target,
                        function_ptr,
                        args: *args,
                        signature: *signature,
                    }),
                ),
                r,
            ),
    {
        proof {
            reveal(Cx::instr_code);
            let cx = self.cx();
            let ops = (Instruction::CallPtr {
                target,
                function_ptr,
                args: *args,
                signature: *signature,
            }).operands();
            assert(cx.m.expr_ok(cx.f, ops[0]));
            assert forall|i: int| 0 <= i < args@.len() implies cx.m.expr_ok(
                cx.f,
                #[trigger] args@[i],
            ) by {
                assert(cx.m.expr_ok(cx.f, ops[i + 1]));
            }
        }
        self.gen_call_pointer(target, function_ptr, args, signature)
    }

    /// Lowers one instruction of the block `b`.
    fn gen_instruction(&mut self, b: BlockID, instr: &Instruction) -> (r: Result<(), Fault>)
        requires
            old(self).framed(),
            old(self).cx().m.instr_ok(old(self).cx().f, *instr),
        ensures
            Self::lowered(old(self), final(self), old(self).cx().instr_code(b, *instr), r),
    {
        match instr {
            Instruction::Assign(t, e) => self.lower_assign(b, *t, e),
            Instruction::BinaryOp(t, op, x, y) => self.lower_binary(b, *t, *op, x, y),
            Instruction::UnaryOp(t, op, x) => self.lower_unary(b, *t, *op, x),
            Instruction::TestOp(t, op, x, y) => self.lower_test(b, *t, *op, x, y),
            Instruction::MakeStruct(t, values) => self.lower_make_struct(b, *t, values),
            Instruction::MakeArray(t, values) => self.lower_make_array(b, *t, values),
            Instruction::MakeShortArray(t, value, length) => self.lower_make_short_array(
                b,
                *t,
                value,
                *length,
            ),
            Instruction::Select {
                target,
                condition,
                true_value,
                false_value,
            } => self.lower_select(b, *target, condition, true_value, false_value),
            Instruction::GetElement { target, array, index } => self.lower_element(
                b,
                *target,
                array,
                index,
            ),
            Instruction::GetMember { target, structure, member } => self.lower_member(
                b,
                *target,
                structure,
                *member,
            ),
            Instruction::GetMemberPtr {
                target,
                struct_pointer,
                member,
                struct_type,
            } => self.lower_member_pointer(b, *target, *struct_pointer, *member, *struct_type),
            Instruction::GetVarPointer(t, v) => self.lower_var_pointer(b, *t, *v),
            Instruction::GetFunctionPointer(t, g) => self.lower_function_pointer(b, *t, *g),
            Instruction::Load { target, pointer, volatile } => self.lower_load_from(
                b,
                *target,
                *pointer,
                *volatile,
            ),
            Instruction::Store { pointer, value, volatile } => self.lower_store_to(
                b,
                *pointer,
                value,
                *volatile,
            ),
            Instruction::Jump(target) => self.lower_jump(b, target),
            Instruction::Branch(c, t, f) => self.lower_branch(b, c, t, f),
            Instruction::GetElementPtr {
                target,
                array_pointer,
                index,
                element_type,
            } => self.lower_element_pointer(b, *target, *array_pointer, index, *element_type),
            Instruction::Call { target, function, args } => self.lower_call(
                b,
                *target,
                *function,
                args,
            ),
            Instruction::CallPtr { target, function_ptr, args, signature } => self.lower_call_pointer(
                b,
                *target,
                *function_ptr,
                args,
                signature,
            ),
            Instruction::Syscall { target, number, args } => self.lower_syscall(
                b,
                *target,
                number,
                args,
            ),
            Instruction::Return(e) => self.lower_ret(b, e),
            Instruction::Nop => {
                proof {
                    reveal(Cx::instr_code);
                }
                assert(self.lines() =~= old(self).lines() + Seq::<Line>::empty());
                Ok(())
            },
            _ => {
                proof {
                    reveal(Cx::instr_code);
                }
                Err(Fault::Unsupported)
            },
        }
    }

    /// Lowers one instruction of the block `b` and gives up the
    /// temporaries that it used.
    fn gen_step(&mut self, b: BlockID, instr: &Instruction) -> (r: Result<(), Fault>)
        requires
            old(self).framed(),
            old(self).cx().m.instr_ok(old(self).cx().f, *instr),
        ensures
            Self::lowered(old(self), final(self), old(self).cx().instr_code(b, *instr), r),
    {
        proof {
            reveal(Backend::slotted);
        }
        self.gen_instruction(b, instr)?;
        let ghost after = self.lines();
        self.clear_temps();
        assert(self.lines() =~= after + Seq::<Line>::empty());
        Ok(())
    }

    /// Lowers the instructions `body` of the block `bid`.
    fn gen_body(&mut self, bid: BlockID, body: &Vec<Instruction>) -> (r: Result<(), LowerError>)
        requires
            old(self).framed(),
            old(self).cx().m.block_in(bid, old(self).cx().f),
            body@ == old(self).cx().m.blocks[bid.0 as int].body@,
        ensures
            match r {
                Ok(()) => {
                    &&& Self::kept(old(self), final(self))
                    &&& old(self).cx().body_code(bid, body@.len()) is Lines
                    &&& final(self).lines() == old(self).lines() + old(self).cx().body_code(
                        bid,
                        body@.len(),
                    )->Lines_0
                },
                Err(LowerError::Unsupported(Construct::Instruction(b, i))) => {
                    &&& b == bid
                    &&& i < body@.len()
                    &&& old(self).cx().instr_code(bid, body@[i as int]) is Unsupported
                    &&& old(self).cx().body_code(bid, body@.len()) is Unsupported
                },
                Err(LowerError::Malformed(b)) => b == bid && old(self).cx().body_code(
                    bid,
                    body@.len(),
                ) is Malformed,
                Err(_) => false,
            },
    {
        let ghost cx = self.cx();
        proof {
            reveal_with_fuel(Cx::body_code, 2);
        }
        assert(cx.m.block_wf(bid.0 as int)) by {
            reveal(Backend::slotted);
        }
        assert(self.lines() =~= old(self).lines() + Seq::<Line>::empty());
        let mut i: usize = 0;
        while i < body.len()
            invariant
                0 <= i <= body@.len(),
                body@ == cx.m.blocks[bid.0 as int].body@,
                cx.m.block_wf(bid.0 as int),
                self.framed(),
                self.cx() == cx,
                old(self).cx() == cx,
                cx.m.blocks[bid.0 as int].function == cx.f,
                Self::kept(old(self), self),
                cx.body_code(bid, i as nat) is Lines,
                self.lines() == old(self).lines() + cx.body_code(bid, i as nat)->Lines_0,
            decreases body@.len() - i,
        {
            assert(cx.m.instr_ok(cx.f, body@[i as int]));
            let ghost before = cx.body_code(bid, i as nat)->Lines_0;
            proof {
                reveal_with_fuel(Cx::body_code, 2);
            }
            match self.gen_step(bid, &body[i]) {
                Ok(()) => {},
                Err(Fault::Unsupported) => {
                    proof {
                        lemma_body_code_fails(cx, bid, (i + 1) as nat, body@.len());
                    }
                    return Err(LowerError::Unsupported(Construct::Instruction(bid, i)));
                },
                Err(Fault::Malformed) => {
                    proof {
                        lemma_body_code_fails(cx, bid, (i + 1) as nat, body@.len());
                    }
                    return Err(LowerError::Malformed(bid));
                },
            }
            proof {
                let this = cx.instr_code(bid, body@[i as int])->Lines_0;
                assert(cx.body_code(bid, (i + 1) as nat) == Lowered::Lines(before + this));
                assert(self.lines() =~= old(self).lines() + (before + this));
            }
            i += 1;
        }
        Ok(())
    }

    /// Lowers the block `bid` of the function that the engine is in: its
    /// label, then its instructions.
    fn gen_block(&mut self, bid: BlockID) -> (r: Result<(), LowerError>)
        requires
            old(self).framed(),
            old(self).cx().m.block_in(bid, old(self).cx().f),
        ensures
            match r {
                Ok(()) => {
                    &&& Self::kept(old(self), final(self))
                    &&& old(self).cx().block_code(bid) is Lines
                    &&& final(self).lines() == old(self).lines() + old(self).cx().block_code(
                        bid,
                    )->Lines_0
                },
                Err(e) => block_fault(old(self).cx(), bid, e),
            },
    {
        let ghost cx = self.cx();
        proof {
            reveal(Cx::block_code);
        }
        let module: &Module = self.module;
        let body = module.block(bid).body();
        if !block_ends_well(body) {
            return Err(LowerError::Malformed(bid));
        }
        self.emit(Line::Label(Label::Block(bid.0)));
        self.gen_body(bid, body)?;
        assert(self.lines() =~= old(self).lines() + cx.block_code(bid)->Lines_0);
        Ok(())
    }

    /// Takes the arguments of the function from the argument registers to
    /// the slots of its parameters.
    fn init_systemv_arguments(&mut self, fid: FuncID) -> (r: Result<(), LowerError>)
        requires
            old(self).framed(),
            old(self).cx().f == fid,
        ensures
            match r {
                Ok(()) => Self::kept(old(self), final(self)) && old(self).cx().params_fit()
                    && final(self).lines() == old(self).lines() + old(self).cx().take_params(
                    old(self).cx().function().parameter_registers@.len(),
                )->0,
                Err(e) => e == LowerError::Unsupported(Construct::Parameters(fid)) && !old(
                    self,
                ).cx().params_fit(),
            },
    {
        let ghost cx = self.cx();
        let module: &Module = self.module;
        assert(fid.0 < cx.m.functions.len()) by {
            reveal(Backend::slotted);
        }
        let params = module.function(fid).parameter_registers();
        if params.len() > 6 {
            return Err(LowerError::Unsupported(Construct::Parameters(fid)));
        }
        assert(cx.m.function_wf(fid.0 as int) && fid.0 < cx.m.functions.len()) by {
            reveal(Backend::slotted);
        }
        assert(self.lines() =~= old(self).lines() + Seq::<Line>::empty());
        let mut i: usize = 0;
        while i < params.len()
            invariant
                0 <= i <= params@.len(),
                params@.len() <= 6,
                params@ == cx.function().parameter_registers@,
                cx.m.function_wf(fid.0 as int),
                cx.f == fid,
                self.framed(),
                self.cx() == cx,
                Self::kept(old(self), self),
                cx.take_params(i as nat) is Some,
                self.lines() == old(self).lines() + cx.take_params(i as nat)->0,
            decreases params@.len() - i,
        {
            assert(cx.m.reg_in(params@[i as int], cx.function().id));
            let s = match scalar_size(self.reg_type(params[i])) {
                Some(s) => s,
                None => {
                    proof {
                        cx.lemma_take_params_none((i + 1) as nat, params@.len());
                    }
                    return Err(LowerError::Unsupported(Construct::Parameters(fid)));
                },
            };
            self.store(params[i], argument_register_of(i), s);
            assert(self.lines() =~= old(self).lines() + cx.take_params((i + 1) as nat)->0);
            i += 1;
        }
        Ok(())
    }

    /// Gives each variable and each register of the function `fid` its
    /// slot: first the variables, then the registers, each below the one
    /// before it, and rounds the frame up to a multiple of 16. Tells
    /// whether the frame is small enough.
    #[verifier::rlimit(100)]
    fn lay_out_frame(&mut self, fid: FuncID) -> (fits: bool)
        requires
            old(self).wf(),
            fid.0 < old(self).module_of()@.functions.len(),
            old(self).module_of()@.functions[fid.0 as int].definition is Some,
        ensures
            final(self).wf(),
            final(self).module_of() == old(self).module_of(),
            final(self).types_of() == old(self).types_of(),
            final(self).system_of() == old(self).system_of(),
            final(self).lines() == old(self).lines(),
            final(self).ctx_of().function() == fid,
            fits == final(self).cx().frame_fits(),
            fits ==> {
                let cx = final(self).cx();
                let ctx = final(self).ctx_of();
                &&& ctx.realized() == 0
                &&& ctx.temps() == 0
                &&& ctx.depth() == cx.frame_size()
                &&& forall|r: RegID|
                    cx.m.reg_in(r, cx.f) ==> (#[trigger] ctx.registers()[r.0 as int]) as int
                        == cx.reg_off(r)
                &&& forall|v: VarID|
                    cx.m.var_in(v, cx.f) ==> (#[trigger] ctx.variables()[v.0 as int]) as int
                        == cx.var_off(v)
            },
    {
        self.ctx.restart(fid);
        let ghost cx = self.cx();
        let ghost items = cx.items();
        let module: &Module = self.module;
        let function = module.function(fid);
        let vars = match function.variables() {
            Some(vars) => vars,
            None => {
                return false;
            },
        };
        let regs = function.registers();
        let ghost nvars = vars@.len();
        assert(cx.m.function_wf(fid.0 as int));
        assert(vars@ == cx.function().variable_ids());
        assert(items.len() == nvars + regs@.len());
        let mut i: usize = 0;
        while i < vars.len()
            invariant
                0 <= i <= vars@.len(),
                self.wf(),
                self.cx() == cx,
                module@ == cx.m,
                items == cx.items(),
                items.len() == nvars + regs@.len(),
                nvars == vars@.len(),
                vars@ == cx.function().variable_ids(),
                cx.m.function_wf(fid.0 as int),
                cx.f == fid,
                cx.wf(),
                self.module_of() == old(self).module_of(),
                self.types_of() == old(self).types_of(),
                self.system_of() == old(self).system_of(),
                self.lines() == old(self).lines(),
                self.ctx_of().realized() == 0,
                self.ctx_of().temps() == 0,
                self.ctx_of().depth() == depth_after(items, i as nat),
                forall|k: int|
                    0 <= k < i ==> (#[trigger] self.ctx_of().variables()[vars@[k].0 as int]) as int
                        == slot_offset(items, k),
            decreases vars@.len() - i,
        {
            let var = vars[i];
            assert(cx.m.var_in(vars@[i as int], cx.function().id));
            let ty = module.variable(var).var_type();
            proof {
                cx.lemma_items(i as int);
            }
            match self.delayed_alloc_type(ty) {
                Some(off) => {
                    let ghost before = self.ctx_of().variables();
                    self.ctx.set_variable(var, off);
                    proof {
                        let ids = vars@.map_values(|v: VarID| v.0 as int);
                        assert forall|k: int| 0 <= k < i + 1 implies (#[trigger] self.ctx_of().variables()[vars@[k].0 as int]) as int
                            == slot_offset(items, k) by {
                            if k < i {
                                assert(ids[k] < ids[i as int]);
                                assert(before[vars@[k].0 as int] as int == slot_offset(items, k));
                            }
                        }
                    }
                },
                None => {
                    proof {
                        lemma_depth_grows(items, (i + 1) as nat, items.len());
                        lemma_align_up(depth_after(items, items.len()), 16);
                    }
                    return false;
                },
            }
            i += 1;
        }
        let mut i: usize = 0;
        while i < regs.len()
            invariant
                0 <= i <= regs@.len(),
                self.wf(),
                self.cx() == cx,
                module@ == cx.m,
                items == cx.items(),
                items.len() == nvars + regs@.len(),
                nvars == vars@.len(),
                vars@ == cx.function().variable_ids(),
                regs@ == cx.function().registers@,
                cx.m.function_wf(fid.0 as int),
                cx.f == fid,
                cx.wf(),
                self.module_of() == old(self).module_of(),
                self.types_of() == old(self).types_of(),
                self.system_of() == old(self).system_of(),
                self.lines() == old(self).lines(),
                self.ctx_of().realized() == 0,
                self.ctx_of().temps() == 0,
                self.ctx_of().depth() == depth_after(items, nvars + i as nat),
                forall|k: int|
                    0 <= k < nvars ==> (#[trigger] self.ctx_of().variables()[vars@[k].0 as int]) as int
                        == slot_offset(items, k),
                forall|k: int|
                    0 <= k < i ==> (#[trigger] self.ctx_of().registers()[regs@[k].0 as int]) as int
                        == slot_offset(items, nvars + k),
            decreases regs@.len() - i,
        {
            let reg = regs[i];
            assert(cx.m.reg_in(regs@[i as int], cx.function().id));
            let ty = module.register(reg).reg_type();
            proof {
                cx.lemma_items(nvars + i);
            }
            match self.delayed_alloc_type(ty) {
                Some(off) => {
                    let ghost before = self.ctx_of().registers();
                    self.ctx.set_register(reg, off);
                    proof {
                        let ids = regs@.map_values(|r: RegID| r.0 as int);
                        assert forall|k: int| 0 <= k < i + 1 implies (#[trigger] self.ctx_of().registers()[regs@[k].0 as int]) as int
                            == slot_offset(items, nvars + k) by {
                            if k < i {
                                assert(ids[k] < ids[i as int]);
                                assert(before[regs@[k].0 as int] as int == slot_offset(
                                    items,
                                    nvars + k,
                                ));
                            }
                        }
                    }
                },
                None => {
                    proof {
                        lemma_depth_grows(items, (nvars + i + 1) as nat, items.len());
                        lemma_align_up(depth_after(items, items.len()), 16);
                    }
                    return false;
                },
            }
            i += 1;
        }
        let lowest = match self.delayed_alloc(0, 16) {
            Some(lowest) => lowest,
            None => {
                return false;
            },
        };
        if lowest < -0x4000_0000 {
            return false;
        }
        proof {
            assert forall|r: RegID| cx.m.reg_in(r, cx.f) implies (#[trigger] self.ctx_of().registers()[r.0 as int]) as int
                == cx.reg_off(r) by {
                assert(cx.m.register_wf(r.0 as int));
                let k = position(regs@, r);
                assert(regs@[k] == r);
            }
            assert forall|v: VarID| cx.m.var_in(v, cx.f) implies (#[trigger] self.ctx_of().variables()[v.0 as int]) as int
                == cx.var_off(v) by {
                assert(cx.m.variable_wf(v.0 as int));
                let k = position(vars@, v);
                assert(vars@[k] == v);
            }
        }
        true
    }

    /// Starts the function `fid` as the System V calling convention asks.
    #[verifier::rlimit(100)]
    fn gen_systemv_prologue(&mut self, fid: FuncID) -> (r: Result<(), LowerError>)
        requires
            old(self).wf(),
            fid.0 < old(self).module_of()@.functions.len(),
            old(self).module_of()@.functions[fid.0 as int].definition is Some,
        ensures
            match r {
                Ok(()) => {
                    &&& final(self).framed()
                    &&& final(self).module_of() == old(self).module_of()
                    &&& final(self).types_of() == old(self).types_of()
                    &&& final(self).system_of() == old(self).system_of()
                    &&& final(self).ctx_of().function() == fid
                    &&& final(self).cx().params_fit()
                    &&& final(self).lines() == old(self).lines() + final(self).cx().prologue()
                },
                Err(e) => prologue_fault(
                    (Cx {
                    m: old(self).module_of()@,
                    types: old(self).types_of(),
                    system: old(self).system_of(),
                    f: fid,
                }),
                    e,
                ),
            },
    {
        proof {
            reveal(Backend::slotted);
        }
        self.emit(Line::Op1(Opcode::Push, reg_arg(RegisterName::BP, Size::Quad)));
        self.emit(
            Line::Op2(
                Opcode::Mov,
                reg_arg(RegisterName::BP, Size::Quad),
                reg_arg(RegisterName::SP, Size::Quad),
            ),
        );
        if !self.lay_out_frame(fid) {
            return Err(LowerError::Unsupported(Construct::Frame(fid)));
        }
        self.realize_alloc();
        self.start_temps();
        let ghost cx = self.cx();
        let ghost framed = self.lines();
        self.init_systemv_arguments(fid)?;
        proof {
            assert(framed =~= old(self).lines() + seq![
                Line::Op1(Opcode::Push, reg(RegisterName::BP, Size::Quad)),
                Line::Op2(
                    Opcode::Mov,
                    reg(RegisterName::BP, Size::Quad),
                    reg(RegisterName::SP, Size::Quad),
                ),
            ] + stack_down(cx.frame_size() as int));
            assert(self.lines() =~= old(self).lines() + cx.prologue());
        }
        Ok(())
    }

    /// Lets the temporaries start where the stack pointer is.
    fn start_temps(&mut self)
        requires
            old(self).wf(),
        ensures
            final(self).wf(),
            final(self).module_of() == old(self).module_of(),
            final(self).types_of() == old(self).types_of(),
            final(self).system_of() == old(self).system_of(),
            final(self).lines() == old(self).lines(),
            final(self).ctx_of().function() == old(self).ctx_of().function(),
            final(self).ctx_of().variables() == old(self).ctx_of().variables(),
            final(self).ctx_of().registers() == old(self).ctx_of().registers(),
            final(self).ctx_of().temps() == old(self).ctx_of().realized(),
            final(self).ctx_of().realized() == old(self).ctx_of().realized(),
            final(self).ctx_of().depth() == old(self).ctx_of().depth(),
    {
        self.ctx.start_temps();
    }

    /// Starts the function `fid` as its calling convention asks: on this
    /// machine each convention is that of System V.
    fn gen_function_prologue(&mut self, fid: FuncID) -> (r: Result<(), LowerError>)
        requires
            old(self).wf(),
            fid.0 < old(self).module_of()@.functions.len(),
            old(self).module_of()@.functions[fid.0 as int].definition is Some,
        ensures
            match r {
                Ok(()) => {
                    &&& final(self).framed()
                    &&& final(self).module_of() == old(self).module_of()
                    &&& final(self).types_of() == old(self).types_of()
                    &&& final(self).system_of() == old(self).system_of()
                    &&& final(self).ctx_of().function() == fid
                    &&& final(self).cx().params_fit()
                    &&& final(self).lines() == old(self).lines() + final(self).cx().prologue()
                },
                Err(e) => prologue_fault(
                    (Cx {
                    m: old(self).module_of()@,
                    types: old(self).types_of(),
                    system: old(self).system_of(),
                    f: fid,
                }),
                    e,
                ),
            },
    {
        self.gen_systemv_prologue(fid)
    }

    /// Lowers the blocks of the function that the engine is in: those
    /// that can be reached from the entry, each once.
    #[verifier::rlimit(100)]
    fn gen_function_body(&mut self, fid: FuncID) -> (r: Result<Ghost<Seq<BlockID>>, LowerError>)
        requires
            old(self).framed(),
            old(self).cx().f == fid,
        ensures
            match r {
                Ok(order) => {
                    &&& final(self).wf()
                    &&& final(self).module_of() == old(self).module_of()
                    &&& final(self).types_of() == old(self).types_of()
                    &&& final(self).system_of() == old(self).system_of()
                    &&& is_schedule(
                        old(self).cx().m,
                        crate::backend::schedule::entry_of(old(self).cx().m, fid.0 as int),
                        order@,
                    )
                    &&& old(self).cx().blocks_code(order@, order@.len()) is Lines
                    &&& final(self).lines() == old(self).lines() + old(self).cx().blocks_code(
                        order@,
                        order@.len(),
                    )->Lines_0
                },
                Err(e) => body_fault(old(self).cx(), e),
            },
    {
        let ghost cx = self.cx();
        let module: &Module = self.module;
        assert(cx.m.function_wf(fid.0 as int) && cx.wf() && self.wf()) by {
            reveal(Backend::slotted);
        }
        let entry = module.function(fid).entry_block().unwrap();
        let order = reachable_blocks(module, entry);
        proof {
            reveal_with_fuel(Cx::blocks_code, 2);
        }
        assert(self.lines() =~= old(self).lines() + Seq::<Line>::empty());
        let mut i: usize = 0;
        while i < order.len()
            invariant
                0 <= i <= order@.len(),
                self.framed(),
                self.cx() == cx,
                old(self).cx() == cx,
                cx.f == fid,
                Self::kept(old(self), self),
                entry == crate::backend::schedule::entry_of(cx.m, fid.0 as int),
                cx.m.block_in(entry, fid),
                is_schedule(cx.m, entry, order@),
                forall|k: int|
                    0 <= k < order@.len() ==> (#[trigger] order@[k]).0 < cx.m.blocks.len()
                        && cx.m.blocks[order@[k].0 as int].function
                        == cx.m.blocks[entry.0 as int].function,
                cx.blocks_code(order@, i as nat) is Lines,
                self.lines() == old(self).lines() + cx.blocks_code(order@, i as nat)->Lines_0,
            decreases order@.len() - i,
        {
            let bid = order[i];
            let ghost before = cx.blocks_code(order@, i as nat)->Lines_0;
            proof {
                reveal_with_fuel(Cx::blocks_code, 2);
            }
            assert(order@.contains(order@[i as int]));
            match self.gen_block(bid) {
                Ok(()) => {},
                Err(e) => {
                    proof {
                        reveal(is_schedule);
                    }
                    return Err(e);
                },
            }
            proof {
                let this = cx.block_code(bid)->Lines_0;
                assert(cx.blocks_code(order@, (i + 1) as nat) == Lowered::Lines(before + this));
                assert(self.lines() =~= old(self).lines() + (before + this));
            }
            i += 1;
        }
        proof {
            assert(self.wf()) by {
                reveal(Backend::slotted);
            }
        }
        Ok(Ghost(order@))
    }

    /// Lowers the function `fid`: nothing for a function without a body;
    /// else its name, its start and its blocks.
    #[verifier::rlimit(100)]
    fn gen_function(&mut self, fid: FuncID) -> (r: Result<Ghost<Seq<BlockID>>, LowerError>)
        requires
            old(self).wf(),
            fid.0 < old(self).module_of()@.functions.len(),
        ensures
            r is Ok ==> {
                &&& final(self).wf()
                &&& final(self).module_of() == old(self).module_of()
                &&& final(self).types_of() == old(self).types_of()
                &&& final(self).system_of() == old(self).system_of()
            },
            match r {
                Ok(order) => if old(self).module_of()@.functions[fid.0 as int].definition is Some {
                    let cx = Cx {
                        m: old(self).module_of()@,
                        types: old(self).types_of(),
                        system: old(self).system_of(),
                        f: fid,
                    };
                    &&& is_schedule(
                        cx.m,
                        crate::backend::schedule::entry_of(cx.m, fid.0 as int),
                        order@,
                    )
                    &&& cx.function_code(order@) is Lines
                    &&& final(self).lines() == old(self).lines() + cx.function_code(
                        order@,
                    )->Lines_0
                } else {
                    final(self).lines() == old(self).lines()
                },
                Err(e) => fault(
                    old(self).module_of()@,
                    old(self).types_of(),
                    old(self).system_of(),
                    e,
                ) && old(self).module_of()@.functions[fid.0 as int].definition is Some,
            },
    {
        proof {
            reveal(Cx::function_code);
            reveal(Backend::slotted);
        }
        let module: &Module = self.module;
        if module.function(fid).definition().is_none() {
            return Ok(Ghost(Seq::empty()));
        }
        self.emit(Line::Global(Label::Function(fid.0)));
        self.emit(Line::Label(Label::Function(fid.0)));
        self.gen_function_prologue(fid)?;
        let ghost cx = self.cx();
        let ghost headed = self.lines();
        assert(headed =~= old(self).lines() + cx.head());
        let order = self.gen_function_body(fid)?;
        proof {
            assert(self.lines() =~= old(self).lines() + (cx.head() + cx.blocks_code(
                order@,
                order@.len(),
            )->Lines_0));
        }
        Ok(order)
    }

    /// Lowers the module: the line that starts the code section, then
    /// each function that has a body, in the order of the functions.
    ///
    /// The blocks of a function come in some order in which each block that
    /// can be reached from the entry stands once and no other block does.
    /// Where a construct has no lowering, or a block breaks a rule, no
    /// lines are handed out, and the error names what it was.
    #[verifier::rlimit(100)]
    pub fn gen_code(self) -> (r: Result<Vec<Line>, LowerError>)
        requires
            self.wf(),
            self.lines().len() == 0,
        ensures
            match r {
                Ok(lines) => exists|orders: Seq<Seq<BlockID>>|
                    crate::backend::schedule::schedules(self.module_of()@, orders)
                        && #[trigger] crate::backend::lowering::program_code(
                        self.module_of()@,
                        self.types_of(),
                        self.system_of(),
                        orders,
                        self.module_of()@.functions.len(),
                    ) == Lowered::Lines(lines@),
                Err(e) => fault(
                    self.module_of()@,
                    self.types_of(),
                    self.system_of(),
                    e,
                ),
            },
    {
        let mut engine = self;
        proof {
            reveal_with_fuel(crate::backend::lowering::program_code, 2);
        }
        let ghost m = self.module_of()@;
        let ghost types = self.types_of();
        let ghost system = self.system_of();
        let module: &Module = engine.module;
        engine.emit(Line::Text);
        let ghost mut orders: Seq<Seq<BlockID>> = Seq::empty();
        let n = module.function_count();
        let mut f: usize = 0;
        assert(engine.lines() =~= seq![Line::Text]);
        while f < n
            invariant
                0 <= f <= n,
                n == m.functions.len(),
                engine.wf(),
                engine.module_of() == self.module_of(),
                engine.types_of() == self.types_of(),
                engine.system_of() == self.system_of(),
                m == engine.module_of()@,
                types == engine.types_of(),
                system == engine.system_of(),
                orders.len() == f,
                forall|g: int|
                    0 <= g < f && m.functions[g].definition is Some ==> is_schedule(
                        m,
                        crate::backend::schedule::entry_of(m, g),
                        #[trigger] orders[g],
                    ),
                crate::backend::lowering::program_code(m, types, system, orders, f as nat)
                    == Lowered::Lines(engine.lines()),
            decreases n - f,
        {
            let ghost old_orders = orders;
            proof {
                reveal_with_fuel(crate::backend::lowering::program_code, 2);
            }
            let order = match engine.gen_function(FuncID(f)) {
                Ok(order) => order,
                Err(e) => {
                    return Err(e);
                },
            };
            proof {
                orders = orders.push(order@);
                crate::backend::lowering::lemma_program_code_orders(
                    m,
                    types,
                    system,
                    old_orders,
                    orders,
                    f as nat,
                );
                assert(orders[f as int] == order@);
            }
            f += 1;
        }
        proof {
            assert(crate::backend::schedule::schedules(m, orders));
        }
        Ok(engine.writer.finish())
    }
}

/// The function that the error `e` is about: the one that it names, or the
/// one of the block that it names.
pub open spec fn fault_function(m: ModuleView, e: LowerError) -> FuncID {
    match e {
        LowerError::Unsupported(Construct::Frame(g)) => g,
        LowerError::Unsupported(Construct::Parameters(g)) => g,
        _ => m.blocks[fault_block(e).0 as int].function,
    }
}

/// Whether `e` tells truly why the module was not lowered: the function
/// that it is about has a body; its frame is too large; or its frame is
/// small enough and its parameters cannot be taken; or both are in order
/// and the block that `e` names can be reached from the entry of the
/// function and has no lowering, or breaks a rule, as `e` says.
pub open spec fn fault(m: ModuleView, types: Types, system: System, e: LowerError) -> bool {
    let f = fault_function(m, e);
    let cx = Cx { m, types, system, f };
    &&& f.0 < m.functions.len()
    &&& m.functions[f.0 as int].definition is Some
    &&& match e {
        LowerError::Unsupported(Construct::Frame(_)) => prologue_fault(cx, e),
        LowerError::Unsupported(Construct::Parameters(_)) => prologue_fault(cx, e),
        _ => cx.frame_fits() && cx.params_fit() && body_fault(cx, e),
    }
}

/// Whether `e` tells truly why the start of the function was not lowered:
/// the frame is too large, or the frame is small enough and the
/// parameters cannot be taken.
pub open spec fn prologue_fault(cx: Cx, e: LowerError) -> bool {
    match e {
        LowerError::Unsupported(Construct::Frame(g)) => g == cx.f && !cx.frame_fits(),
        LowerError::Unsupported(Construct::Parameters(g)) => g == cx.f && cx.frame_fits()
            && !cx.params_fit(),
        _ => false,
    }
}

/// The block that the error `e` is about.
pub open spec fn fault_block(e: LowerError) -> BlockID {
    match e {
        LowerError::Unsupported(Construct::Instruction(b, _)) => b,
        LowerError::Malformed(b) => b,
        _ => BlockID(0),
    }
}

/// Whether `e` tells truly why the blocks of the function were not
/// lowered: the block that it names is one of the function, can be
/// reached from the entry, and has no lowering or breaks a rule, as `e`
/// says.
pub open spec fn body_fault(cx: Cx, e: LowerError) -> bool {
    let b = fault_block(e);
    &&& cx.m.block_in(b, cx.f)
    &&& reachable(cx.m, crate::backend::schedule::entry_of(cx.m, cx.f.0 as int), b)
    &&& block_fault(cx, b, e)
}

/// Whether `e` tells truly why the block `bid` was not lowered.
pub open spec fn block_fault(cx: Cx, bid: BlockID, e: LowerError) -> bool {
    match e {
        LowerError::Unsupported(Construct::Instruction(b, i)) => {
            &&& b == bid
            &&& i < cx.m.blocks[bid.0 as int].body@.len()
            &&& cx.instr_code(bid, cx.m.blocks[bid.0 as int].body@[i as int]) is Unsupported
            &&& cx.block_code(bid) is Unsupported
        },
        LowerError::Malformed(b) => b == bid && cx.block_code(bid) is Malformed,
        _ => false,
    }
}

proof fn lemma_members_put_none(
    cx: Cx,
    t: RegID,
    id: crate::types::StructTypeID,
    values: Seq<Expr>,
    n: nat,
    k: nat,
)
    requires
        n <= k <= values.len(),
        cx.members_put(t, id, values, n) is None,
    ensures
        cx.members_put(t, id, values, k) is None,
    decreases k,
{
    if n < k {
        lemma_members_put_none(cx, t, id, values, n, (k - 1) as nat);
    }
}

proof fn lemma_elements_put_none(cx: Cx, t: RegID, size: nat, values: Seq<Expr>, n: nat, k: nat)
    requires
        n <= k <= values.len(),
        cx.elements_put(t, size, values, n) is None,
    ensures
        cx.elements_put(t, size, values, k) is None,
    decreases k,
{
    if n < k {
        lemma_elements_put_none(cx, t, size, values, n, (k - 1) as nat);
    }
}

proof fn lemma_element_put_none(cx: Cx, t: RegID, size: nat, value: Expr, n: nat, k: nat)
    requires
        n <= k,
        cx.element_put(t, size, value, n) is None,
    ensures
        cx.element_put(t, size, value, k) is None,
    decreases k,
{
    if n < k {
        lemma_element_put_none(cx, t, size, value, n, (k - 1) as nat);
    }
}

proof fn lemma_stash_none(cx: Cx, args: Seq<Expr>, n: nat, k: nat)
    requires
        n <= k <= args.len(),
        cx.stash(args, n) is None,
    ensures
        cx.stash(args, k) is None,
    decreases k,
{
    if n < k {
        lemma_stash_none(cx, args, n, (k - 1) as nat);
    }
}

proof fn lemma_unstash_none(cx: Cx, params: Seq<RegID>, n: nat, k: nat)
    requires
        n <= k <= params.len(),
        cx.unstash(params, n) is None,
    ensures
        cx.unstash(params, k) is None,
    decreases k,
{
    if n < k {
        lemma_unstash_none(cx, params, n, (k - 1) as nat);
    }
}

proof fn lemma_load_args_none(cx: Cx, args: Seq<Expr>, n: nat, k: nat, system: bool)
    requires
        n <= k <= args.len(),
        cx.load_args(args, n, system) is None,
    ensures
        cx.load_args(args, k, system) is None,
    decreases k,
{
    if n < k {
        lemma_load_args_none(cx, args, n, (k - 1) as nat, system);
    }
}

proof fn lemma_body_code_fails(cx: Cx, b: BlockID, n: nat, k: nat)
    requires
        n <= k <= cx.m.blocks[b.0 as int].body@.len(),
        !(cx.body_code(b, n) is Lines),
    ensures
        cx.body_code(b, k) == cx.body_code(b, n),
    decreases k,
{
    reveal_with_fuel(Cx::body_code, 2);
    if n < k {
        lemma_body_code_fails(cx, b, n, (k - 1) as nat);
    }
}

/// Whether the block ends as a block must: its last instruction is a jump,
/// a branch or a return, and no other instruction is.
pub fn block_ends_well(body: &Vec<Instruction>) -> (r: bool)
    ensures
        r == Cx::ends_well(body@),
{
    if body.len() == 0 {
        return false;
    }
    let last = body.len() - 1;
    if !body[last].is_terminator() {
        return false;
    }
    let mut i: usize = 0;
    while i < last
        invariant
            0 <= i <= last,
            last == body@.len() - 1,
            forall|k: int| 0 <= k < i ==> !(#[trigger] body@[k]).spec_is_terminator(),
        decreases last - i,
    {
        if body[i].is_terminator() {
            return false;
        }
        i += 1;
    }
    true
}

/// The line that takes the pointer of an indirect call to `r11`: none for
/// a call by name.
pub open spec fn through_lines(cx: Cx, through: Option<RegID>) -> Seq<Line> {
    match through {
        Some(p) => seq![
            Line::Op2(
                Opcode::Mov,
                reg(RegisterName::R11, Size::Quad),
                slot(cx.reg_off(p), Size::Quad),
            ),
        ],
        None => Seq::empty(),
    }
}

/// The line that moves the stack pointer down by `n` bytes: none where
/// `n` is zero.
pub open spec fn stack_down(n: int) -> Seq<Line> {
    if n > 0 {
        seq![
            Line::Op2(
                Opcode::Sub,
                reg(RegisterName::SP, Size::Quad),
                Arg::Int(ConstInt::I32(n as i32)),
            ),
        ]
    } else {
        Seq::empty()
    }
}

/// The line that moves the stack pointer up by `n` bytes: none where `n`
/// is zero.
pub open spec fn stack_up(n: int) -> Seq<Line> {
    if n > 0 {
        seq![
            Line::Op2(
                Opcode::Add,
                reg(RegisterName::SP, Size::Quad),
                Arg::Int(ConstInt::I32(n as i32)),
            ),
        ]
    } else {
        Seq::empty()
    }
}


proof fn lemma_program_functions(
    m: ModuleView,
    types: Types,
    system: System,
    orders: Seq<Seq<BlockID>>,
    n: nat,
    f: int,
)
    requires
        n <= m.functions.len(),
        0 <= f < n,
        m.functions[f].definition is Some,
        crate::backend::lowering::program_code(m, types, system, orders, n) is Lines,
    ensures
        (Cx { m, types, system, f: FuncID(f as usize) }).function_code(orders[f]) is Lines,
    decreases n,
{
    reveal_with_fuel(crate::backend::lowering::program_code, 2);
    if f < n - 1 {
        lemma_program_functions(m, types, system, orders, (n - 1) as nat, f);
    }
}

proof fn lemma_blocks_code_each(cx: Cx, order: Seq<BlockID>, n: nat, k: int)
    requires
        n <= order.len(),
        0 <= k < n,
        cx.blocks_code(order, n) is Lines,
    ensures
        cx.block_code(order[k]) is Lines,
    decreases n,
{
    reveal_with_fuel(Cx::blocks_code, 2);
    if k < n - 1 {
        lemma_blocks_code_each(cx, order, (n - 1) as nat, k);
    }
}

/// A module that is lowered has no fault: lines are handed out exactly if
/// every function with a body has a frame that is small enough and
/// parameters that can be taken, and each of its blocks that can be
/// reached has a lowering.
pub proof fn lemma_lowered_without_fault(
    m: ModuleView,
    types: Types,
    system: System,
    orders: Seq<Seq<BlockID>>,
    e: LowerError,
)
    requires
        crate::backend::schedule::schedules(m, orders),
        crate::backend::lowering::program_code(m, types, system, orders, m.functions.len()) is Lines,
    ensures
        !fault(m, types, system, e),
{
    if fault(m, types, system, e) {
        let f = fault_function(m, e);
        let cx = Cx { m, types, system, f };
        let order = orders[f.0 as int];
        lemma_program_functions(m, types, system, orders, m.functions.len(), f.0 as int);
        assert(cx.function_code(order) is Lines);
        reveal(Cx::function_code);
        assert(cx.frame_fits() && cx.params_fit());
        assert(cx.blocks_code(order, order.len()) is Lines);
        let b = fault_block(e);
        assert(body_fault(cx, e));
        let entry = crate::backend::schedule::entry_of(m, f.0 as int);
        assert(is_schedule(m, entry, order));
        crate::backend::schedule::lemma_schedule(m, entry, order, b);
        let k = choose|k: int| 0 <= k < order.len() && order[k] == b;
        lemma_blocks_code_each(cx, order, order.len(), k);
    }
}

} // verus!
