//! What each construct of the code becomes on x86-64 with the System V
//! calling convention: the lines are given here as functions of the module.
//!
//! Every value lives in memory: each register and each variable of a
//! function has a slot in the frame of the function. An instruction loads
//! its operands into machine registers, computes, and stores the result in
//! the slot of its target.

use crate::backend::frame::{depth_after, lemma_slot, slot_offset};
use crate::module::block::BlockID;
use crate::module::function::FuncID;
use crate::module::instruction::{
    BinaryOp, BlockTarget, ConstValue, Expr, Instruction, TestOp, UnaryOp,
};
use crate::module::register::RegID;
use crate::module::variable::VarID;
use crate::module::ModuleView;
use crate::target::System;
use crate::types::{IntSize, Type, Types};
use crate::x64::args::{Arg, ConstInt, Memory};
use crate::x64::label::Label;
use crate::x64::register::{Register, RegisterName};
use crate::x64::size::Size;
use crate::x64::writer::{Cond, Line, Opcode};
use vstd::prelude::*;

verus! {

/// The largest frame, in bytes, that is lowered. Below it every offset in
/// a frame, and every offset in a value that lies in a frame, fits the
/// displacement of a memory operand.
pub open spec fn frame_limit() -> nat {
    0x4000_0000
}

/// What is lowered: the function `f` of the module `m`, whose types are
/// those of `types`, for the system `system`.
pub struct Cx {
    pub m: ModuleView,
    pub types: Types,
    pub system: System,
    pub f: FuncID,
}

/// The outcome of lowering a construct.
pub enum Lowered {
    /// The lines that the construct becomes.
    Lines(Seq<Line>),
    /// There is no lowering for the construct on this target.
    Unsupported,
    /// The construct breaks a rule of the code.
    Malformed,
}

/// The position of `x` in `s`, where `s` holds it.
pub open spec fn position<T>(s: Seq<T>, x: T) -> int {
    choose|k: int| 0 <= k < s.len() && s[k] == x
}

/// The size of a value that fits a machine register: one byte for a truth
/// value, 1, 2, 4 or 8 bytes for an integer of 8, 16, 32 or 64 bits, 8
/// bytes for a pointer. Other values have none.
pub open spec fn scalar(ty: Type) -> Option<Size> {
    match ty {
        Type::Bool => Some(Size::Byte),
        Type::Pointer => Some(Size::Quad),
        Type::Integer(bits) => if bits == 8 {
            Some(Size::Byte)
        } else if bits == 16 {
            Some(Size::Word)
        } else if bits == 32 {
            Some(Size::Double)
        } else if bits == 64 {
            Some(Size::Quad)
        } else {
            None
        },
        _ => None,
    }
}

/// The operand size of an integer of a native size.
pub open spec fn native(size: IntSize) -> Size {
    match size {
        IntSize::Byte => Size::Byte,
        IntSize::Short => Size::Word,
        IntSize::Int => Size::Double,
        IntSize::Long => Size::Quad,
    }
}

/// The number `v` as a constant of the size `size`: signed where it fits,
/// else unsigned where it fits, else none.
pub open spec fn immediate(v: int, size: Size) -> Option<ConstInt> {
    match size {
        Size::Byte => if i8::MIN <= v <= i8::MAX {
            Some(ConstInt::I8(v as i8))
        } else if 0 <= v <= u8::MAX {
            Some(ConstInt::U8(v as u8))
        } else {
            None
        },
        Size::Word => if i16::MIN <= v <= i16::MAX {
            Some(ConstInt::I16(v as i16))
        } else if 0 <= v <= u16::MAX {
            Some(ConstInt::U16(v as u16))
        } else {
            None
        },
        Size::Double => if i32::MIN <= v <= i32::MAX {
            Some(ConstInt::I32(v as i32))
        } else if 0 <= v <= u32::MAX {
            Some(ConstInt::U32(v as u32))
        } else {
            None
        },
        Size::Quad => if i64::MIN <= v <= i64::MAX {
            Some(ConstInt::I64(v as i64))
        } else if 0 <= v <= u64::MAX {
            Some(ConstInt::U64(v as u64))
        } else {
            None
        },
    }
}

/// The machine register `name` in the size `size`, as an operand.
pub open spec fn reg(name: RegisterName, size: Size) -> Arg {
    Arg::Register(Register(name, size))
}

/// The memory `off` bytes from the frame base.
pub open spec fn at(off: int) -> Memory {
    Memory::spec_sib().spec_base(Register(RegisterName::BP, Size::Quad)).spec_offset(
        ConstInt::I32(off as i32),
    )
}

/// The memory that the machine register `name` points to.
pub open spec fn behind(name: RegisterName) -> Memory {
    Memory::spec_sib().spec_base(Register(name, Size::Quad)).spec_offset(ConstInt::I32(0))
}

/// The value of size `size` that lies `off` bytes from the frame base, as
/// an operand.
pub open spec fn slot(off: int, size: Size) -> Arg {
    Arg::Memory(at(off).spec_sized(size))
}

impl Cx {
    /// The function that is lowered.
    pub open spec fn function(self) -> crate::module::function::Function {
        self.m.functions[self.f.0 as int]
    }

    /// Size and alignment of what has a slot in the frame: first the
    /// variables of the function, then its registers, each in the order of
    /// creation.
    pub open spec fn items(self) -> Seq<(nat, nat)> {
        Seq::new(
            self.function().variable_ids().len(),
            |i: int|
                self.types.layout_of(
                    self.m.variables[self.function().variable_ids()[i].0 as int].var_type,
                ),
        ) + Seq::new(
            self.function().registers@.len(),
            |i: int|
                self.types.layout_of(
                    self.m.registers[self.function().registers@[i].0 as int].reg_type,
                ),
        )
    }

    /// The offset of the slot of the variable `v` from the frame base.
    pub open spec fn var_off(self, v: VarID) -> int {
        slot_offset(self.items(), position(self.function().variable_ids(), v))
    }

    /// The offset of the slot of the register `r` from the frame base.
    pub open spec fn reg_off(self, r: RegID) -> int {
        slot_offset(
            self.items(),
            self.function().variable_ids().len() + position(self.function().registers@, r),
        )
    }

    /// The size of the frame: how far below the frame base the slots
    /// reach, rounded up to a multiple of 16, so that the stack pointer is
    /// as the calling convention asks at every call.
    pub open spec fn frame_size(self) -> nat {
        crate::types::align_up(depth_after(self.items(), self.items().len()), 16)
    }

    /// The type of the register `r`.
    pub open spec fn reg_type(self, r: RegID) -> Type {
        self.m.registers[r.0 as int].reg_type
    }

    /// The type of the operand `e`.
    pub open spec fn type_of(self, e: Expr) -> Type {
        match e {
            Expr::Register(r) => self.reg_type(r),
            Expr::Constant(c) => c.spec_expr_type(),
        }
    }

    /// The lines that load the operand `e`, which fits a machine register,
    /// into the machine register `to`. A value that must not be relied on
    /// takes no line.
    #[verifier::opaque]
    pub open spec fn load(self, to: RegisterName, e: Expr) -> Option<Seq<Line>> {
        match e {
            Expr::Register(r) => match scalar(self.reg_type(r)) {
                Some(s) => Some(seq![Line::Op2(Opcode::Mov, reg(to, s), slot(self.reg_off(r), s))]),
                None => None,
            },
            Expr::Constant(ConstValue::Integer(v, size)) => match immediate(
                v as int,
                native(size),
            ) {
                Some(i) => Some(seq![Line::Op2(Opcode::Mov, reg(to, native(size)), Arg::Int(i))]),
                None => None,
            },
            Expr::Constant(ConstValue::Bool(b)) => Some(
                seq![
                    Line::Op2(
                        Opcode::Mov,
                        reg(to, Size::Byte),
                        Arg::Int(
                            ConstInt::U8(
                                if b {
                                    1
                                } else {
                                    0
                                },
                            ),
                        ),
                    ),
                ],
            ),
            Expr::Constant(ConstValue::NullPtr) => Some(
                seq![Line::Op2(Opcode::Mov, reg(to, Size::Quad), Arg::Int(ConstInt::I64(0)))],
            ),
            Expr::Constant(ConstValue::SizeOf(ty, size)) => if self.types.valid(ty) {
                match immediate(self.types.size_of(ty) as int, native(size)) {
                    Some(i) => Some(
                        seq![Line::Op2(Opcode::Mov, reg(to, native(size)), Arg::Int(i))],
                    ),
                    None => None,
                }
            } else {
                None
            },
            Expr::Constant(ConstValue::Poison(ty)) => if scalar(ty) is Some {
                Some(Seq::empty())
            } else {
                None
            },
            Expr::Constant(ConstValue::Unit) => None,
        }
    }

    /// The line that stores the machine register `from`, in the size
    /// `size`, in the slot of the register `t`.
    pub open spec fn store(self, t: RegID, from: RegisterName, size: Size) -> Seq<Line> {
        seq![Line::Op2(Opcode::Mov, slot(self.reg_off(t), size), reg(from, size))]
    }
}

/// The lines that copy `n` bytes from `from` to `to`, one byte after the
/// other through the lowest byte of `a`.
pub open spec fn move_bytes(from: Memory, to: Memory, n: nat) -> Seq<Line> {
    Seq::new(
        2 * n,
        |k: int|
            if k % 2 == 0 {
                Line::Op2(
                    Opcode::Mov,
                    reg(RegisterName::A, Size::Byte),
                    Arg::Memory(from.spec_offset(ConstInt::I32((k / 2) as i32)).spec_sized(Size::Byte)),
                )
            } else {
                Line::Op2(
                    Opcode::Mov,
                    Arg::Memory(to.spec_offset(ConstInt::I32((k / 2) as i32)).spec_sized(Size::Byte)),
                    reg(RegisterName::A, Size::Byte),
                )
            },
    )
}

/// The lines that end a function: the stack pointer goes back to the
/// frame base, the frame base of the caller is restored, and control
/// returns.
pub open spec fn epilogue() -> Seq<Line> {
    seq![
        Line::Op2(
            Opcode::Mov,
            reg(RegisterName::SP, Size::Quad),
            reg(RegisterName::BP, Size::Quad),
        ),
        Line::Op1(Opcode::Pop, reg(RegisterName::BP, Size::Quad)),
        Line::Op0(Opcode::Ret),
    ]
}

/// The machine register that holds argument number `i` of a call, for the
/// first six arguments.
pub open spec fn argument_register(i: int) -> RegisterName {
    if i == 0 {
        RegisterName::DI
    } else if i == 1 {
        RegisterName::SI
    } else if i == 2 {
        RegisterName::D
    } else if i == 3 {
        RegisterName::C
    } else if i == 4 {
        RegisterName::R8
    } else {
        RegisterName::R9
    }
}

/// The machine register that holds argument number `i` of a request to
/// the operating system, for the first six arguments.
pub open spec fn syscall_register(i: int) -> RegisterName {
    if i == 3 {
        RegisterName::R10
    } else {
        argument_register(i)
    }
}

/// The condition that a comparison of the code asks the machine for.
pub open spec fn condition(op: TestOp) -> Cond {
    match op {
        TestOp::Equal => Cond::Equal,
        TestOp::NotEqual => Cond::NotEqual,
        TestOp::Greater => Cond::Greater,
        TestOp::Less => Cond::Less,
        TestOp::GreaterEqual => Cond::GreaterEqual,
        TestOp::LessEqual => Cond::LessEqual,
        TestOp::Above => Cond::Above,
        TestOp::Below => Cond::Below,
        TestOp::AboveEqual => Cond::AboveEqual,
        TestOp::BelowEqual => Cond::BelowEqual,
    }
}

/// The line that fills `d` with the sign of `a`, both of the size `size`.
pub open spec fn widen(size: Size) -> Line {
    Line::Op0(
        if size == Size::Word {
            Opcode::Cwd
        } else if size == Size::Double {
            Opcode::Cdq
        } else {
            Opcode::Cqo
        },
    )
}

/// The lines that divide `a` by `c` in the size `size`, as signed numbers
/// where `signed` holds, and leave the quotient in `a`, or the remainder
/// where `remainder` holds.
pub open spec fn divide(size: Size, signed: bool, remainder: bool) -> Seq<Line> {
    seq![
        if signed {
            widen(size)
        } else {
            Line::Op2(
                Opcode::Xor,
                reg(RegisterName::D, Size::Double),
                reg(RegisterName::D, Size::Double),
            )
        },
        Line::Op1(
            if signed {
                Opcode::IDiv
            } else {
                Opcode::Div
            },
            reg(RegisterName::C, size),
        ),
    ] + (if remainder {
        seq![Line::Op2(Opcode::Mov, reg(RegisterName::A, size), reg(RegisterName::D, size))]
    } else {
        Seq::empty()
    })
}

/// The lines that compute `op` on `a` and `c` in the size `size` and leave
/// the result in `a`. Bytes have no product, quotient or remainder.
pub open spec fn compute(op: BinaryOp, size: Size) -> Option<Seq<Line>> {
    let a = reg(RegisterName::A, size);
    let c = reg(RegisterName::C, size);
    let count = reg(RegisterName::C, Size::Byte);
    match op {
        BinaryOp::Add => Some(seq![Line::Op2(Opcode::Add, a, c)]),
        BinaryOp::Sub => Some(seq![Line::Op2(Opcode::Sub, a, c)]),
        BinaryOp::Mul => if size == Size::Byte {
            None
        } else {
            Some(seq![Line::Op2(Opcode::IMul, a, c)])
        },
        BinaryOp::UDiv => if size == Size::Byte {
            None
        } else {
            Some(divide(size, false, false))
        },
        BinaryOp::IDiv => if size == Size::Byte {
            None
        } else {
            Some(divide(size, true, false))
        },
        BinaryOp::UMod => if size == Size::Byte {
            None
        } else {
            Some(divide(size, false, true))
        },
        BinaryOp::IMod => if size == Size::Byte {
            None
        } else {
            Some(divide(size, true, true))
        },
        BinaryOp::ShiftLeft => Some(seq![Line::Op2(Opcode::Shl, a, count)]),
        BinaryOp::ShiftLogicalRight => Some(seq![Line::Op2(Opcode::Shr, a, count)]),
        BinaryOp::ShiftArithmeticRight => Some(seq![Line::Op2(Opcode::Sar, a, count)]),
        BinaryOp::And => Some(seq![Line::Op2(Opcode::And, a, c)]),
        BinaryOp::Nand => Some(seq![Line::Op2(Opcode::And, a, c), Line::Op1(Opcode::Not, a)]),
        BinaryOp::Or => Some(seq![Line::Op2(Opcode::Or, a, c)]),
        BinaryOp::Nor => Some(seq![Line::Op2(Opcode::Or, a, c), Line::Op1(Opcode::Not, a)]),
        BinaryOp::Xor => Some(seq![Line::Op2(Opcode::Xor, a, c)]),
        BinaryOp::XNor => Some(seq![Line::Op2(Opcode::Xor, a, c), Line::Op1(Opcode::Not, a)]),
    }
}

/// The lines `l`, or the word that there is no lowering.
pub open spec fn lines_or_unsupported(l: Option<Seq<Line>>) -> Lowered {
    match l {
        Some(l) => Lowered::Lines(l),
        None => Lowered::Unsupported,
    }
}

impl Cx {
    /// The lines that put the value of the operand `e` at the offset `off`
    /// of the frame: a value that fits a machine register goes through
    /// `a`; another value is copied byte by byte from the register that
    /// holds it; the unit value and a value that must not be relied on
    /// take no line.
    #[verifier::opaque]
    pub open spec fn put(self, off: int, e: Expr) -> Option<Seq<Line>> {
        let ty = self.type_of(e);
        match scalar(ty) {
            Some(s) => match self.load(RegisterName::A, e) {
                Some(l) => Some(
                    l + seq![Line::Op2(Opcode::Mov, slot(off, s), reg(RegisterName::A, s))],
                ),
                None => None,
            },
            None => if ty is Unit {
                Some(Seq::empty())
            } else {
                match e {
                    Expr::Register(r) => Some(
                        move_bytes(at(self.reg_off(r)), at(off), self.types.size_of(ty)),
                    ),
                    Expr::Constant(ConstValue::Poison(_)) => Some(Seq::empty()),
                    _ => None,
                }
            },
        }
    }

    /// Copies the operand `e` into the register `t` of the same type.
    #[verifier::opaque]
    pub open spec fn assign(self, t: RegID, e: Expr) -> Option<Seq<Line>> {
        if self.type_of(e) != self.reg_type(t) {
            None
        } else {
            self.put(self.reg_off(t), e)
        }
    }

    /// Whether the operands `values` have the types `tys`, one by one.
    pub open spec fn values_match(self, values: Seq<Expr>, tys: Seq<Type>) -> bool {
        &&& values.len() == tys.len()
        &&& forall|i: int| 0 <= i < values.len() ==> self.type_of(#[trigger] values[i]) == tys[i]
    }

    /// The lines that put the first `n` of the operands `values` into the
    /// members of the struct of type `id` that the register `t` holds.
    pub open spec fn members_put(
        self,
        t: RegID,
        id: crate::types::StructTypeID,
        values: Seq<Expr>,
        n: nat,
    ) -> Option<Seq<Line>>
        decreases n,
    {
        if n == 0 || n > values.len() {
            Some(Seq::empty())
        } else {
            match (
                self.members_put(t, id, values, (n - 1) as nat),
                self.put(
                    self.reg_off(t) + self.types.member_offset(id, (n - 1) as nat),
                    values[n - 1],
                ),
            ) {
                (Some(before), Some(l)) => Some(before + l),
                _ => None,
            }
        }
    }

    /// A struct built from its members, each of the type of its member.
    #[verifier::opaque]
    pub open spec fn make_struct(self, t: RegID, values: Seq<Expr>) -> Option<Seq<Line>> {
        match self.reg_type(t) {
            Type::Struct(id) => if self.values_match(values, self.types.structs()[id.0 as int]) {
                self.members_put(t, id, values, values.len())
            } else {
                None
            },
            _ => None,
        }
    }

    /// The lines that put the first `n` of the operands `values` into the
    /// elements, of `size` bytes each, of the array that the register `t`
    /// holds.
    pub open spec fn elements_put(self, t: RegID, size: nat, values: Seq<Expr>, n: nat) -> Option<
        Seq<Line>,
    >
        decreases n,
    {
        if n == 0 || n > values.len() {
            Some(Seq::empty())
        } else {
            match (
                self.elements_put(t, size, values, (n - 1) as nat),
                self.put(self.reg_off(t) + (n - 1) * size, values[n - 1]),
            ) {
                (Some(before), Some(l)) => Some(before + l),
                _ => None,
            }
        }
    }

    /// An array built from its elements, each of the type of an element.
    #[verifier::opaque]
    pub open spec fn make_array(self, t: RegID, values: Seq<Expr>) -> Option<Seq<Line>> {
        match self.reg_type(t) {
            Type::Array(id) => if self.types.arrays()[id.0 as int].1 == values.len()
                && self.values_match(
                values,
                Seq::new(values.len(), |i: int| self.types.arrays()[id.0 as int].0),
            ) {
                self.elements_put(
                    t,
                    self.types.size_of(self.types.arrays()[id.0 as int].0),
                    values,
                    values.len(),
                )
            } else {
                None
            },
            _ => None,
        }
    }

    /// The lines that put the operand `value` into the first `n` elements,
    /// of `size` bytes each, of the array that the register `t` holds.
    pub open spec fn element_put(self, t: RegID, size: nat, value: Expr, n: nat) -> Option<
        Seq<Line>,
    >
        decreases n,
    {
        if n == 0 {
            Some(Seq::empty())
        } else {
            match (
                self.element_put(t, size, value, (n - 1) as nat),
                self.put(self.reg_off(t) + (n - 1) * size, value),
            ) {
                (Some(before), Some(l)) => Some(before + l),
                _ => None,
            }
        }
    }

    /// An array that holds one value, of the type of an element, in each
    /// of its `length` elements.
    #[verifier::opaque]
    pub open spec fn make_short_array(self, t: RegID, value: Expr, length: u64) -> Option<
        Seq<Line>,
    > {
        match self.reg_type(t) {
            Type::Array(id) => if self.types.arrays()[id.0 as int] == (
                self.type_of(value),
                length,
            ) {
                self.element_put(t, self.types.size_of(self.type_of(value)), value, length as nat)
            } else {
                None
            },
            _ => None,
        }
    }

    /// The element of an array that a register holds, copied byte by byte:
    /// from its place in the frame where the position is a constant inside
    /// the array; through its address, which is computed in `c`, where the
    /// position is an integer of 64 bits that is known only when the code
    /// runs.
    #[verifier::opaque]
    pub open spec fn element(self, t: RegID, array: Expr, index: Expr) -> Option<Seq<Line>> {
        match array {
            Expr::Register(r) => match self.reg_type(r) {
                Type::Array(id) => if self.reg_type(t) != self.types.arrays()[id.0 as int].0 {
                    None
                } else {
                    match index {
                        Expr::Constant(ConstValue::Integer(at_index, _)) => if 0 <= at_index
                            < self.types.arrays()[id.0 as int].1 {
                            Some(
                                move_bytes(
                                    at(
                                        self.reg_off(r) + at_index * self.types.size_of(
                                            self.reg_type(t),
                                        ),
                                    ),
                                    at(self.reg_off(t)),
                                    self.types.size_of(self.reg_type(t)),
                                ),
                            )
                        } else {
                            None
                        },
                        Expr::Register(i) => if self.reg_type(i) == Type::Integer(64)
                            && self.types.arrays()[id.0 as int].1 > 0 {
                            Some(
                                seq![
                                    Line::Op2(
                                        Opcode::Lea,
                                        reg(RegisterName::C, Size::Quad),
                                        Arg::Memory(at(self.reg_off(r))),
                                    ),
                                    Line::Op2(
                                        Opcode::Mov,
                                        reg(RegisterName::D, Size::Quad),
                                        slot(self.reg_off(i), Size::Quad),
                                    ),
                                    Line::Op2(
                                        Opcode::Mov,
                                        reg(RegisterName::A, Size::Quad),
                                        Arg::Int(
                                            ConstInt::I64(
                                                self.types.size_of(self.reg_type(t)) as i64,
                                            ),
                                        ),
                                    ),
                                    Line::Op2(
                                        Opcode::IMul,
                                        reg(RegisterName::D, Size::Quad),
                                        reg(RegisterName::A, Size::Quad),
                                    ),
                                    Line::Op2(
                                        Opcode::Add,
                                        reg(RegisterName::C, Size::Quad),
                                        reg(RegisterName::D, Size::Quad),
                                    ),
                                ] + move_bytes(
                                    behind(RegisterName::C),
                                    at(self.reg_off(t)),
                                    self.types.size_of(self.reg_type(t)),
                                ),
                            )
                        } else {
                            None
                        },
                        _ => None,
                    }
                },
                _ => None,
            },
            _ => None,
        }
    }

    /// A choice between two values of the type of the target, which fit a
    /// machine register: the first value is in `a`, the second in `c`, and
    /// the second is taken where the truth value in `d` does not hold. A
    /// byte is chosen as the low part of four bytes.
    #[verifier::opaque]
    pub open spec fn select(self, t: RegID, c: Expr, x: Expr, y: Expr) -> Option<Seq<Line>> {
        let ty = self.reg_type(t);
        match (
            scalar(ty),
            self.load(RegisterName::A, x),
            self.load(RegisterName::C, y),
            self.load(RegisterName::D, c),
        ) {
            (Some(s), Some(lx), Some(ly), Some(lc)) => if self.type_of(c) == Type::Bool
                && self.type_of(x) == ty && self.type_of(y) == ty {
                let wide = if s == Size::Byte {
                    Size::Double
                } else {
                    s
                };
                Some(
                    lx + ly + lc + seq![
                        Line::Op2(
                            Opcode::Cmp,
                            reg(RegisterName::D, Size::Byte),
                            Arg::Int(ConstInt::U8(0)),
                        ),
                        Line::Op2(
                            Opcode::MovIf(Cond::Equal),
                            reg(RegisterName::A, wide),
                            reg(RegisterName::C, wide),
                        ),
                    ] + self.store(t, RegisterName::A, s),
                )
            } else {
                None
            },
            _ => None,
        }
    }

    /// An operation on two integers of the type of the target `t`, which
    /// has a native size.
    #[verifier::opaque]
    pub open spec fn binary(self, t: RegID, op: BinaryOp, a: Expr, b: Expr) -> Option<Seq<Line>> {
        let ty = self.reg_type(t);
        match (ty, scalar(ty)) {
            (Type::Integer(_), Some(s)) => if self.type_of(a) == ty && self.type_of(b) == ty {
                match (
                    self.load(RegisterName::A, a),
                    self.load(RegisterName::C, b),
                    compute(op, s),
                ) {
                    (Some(la), Some(lb), Some(lc)) => Some(
                        la + lb + lc + self.store(t, RegisterName::A, s),
                    ),
                    _ => None,
                }
            } else {
                None
            },
            _ => None,
        }
    }

    /// An operation on one value. Integers that are converted have native
    /// sizes, and a pointer is converted from and to an integer of 64 bits
    /// only.
    #[verifier::opaque]
    pub open spec fn unary(self, t: RegID, op: UnaryOp, a: Expr) -> Option<Seq<Line>> {
        let ty = self.reg_type(t);
        let from = self.type_of(a);
        match op {
            UnaryOp::Freeze => self.assign(t, a),
            UnaryOp::Not | UnaryOp::Neg => match (ty, scalar(ty), self.load(RegisterName::A, a)) {
                (Type::Integer(_), Some(s), Some(l)) => if from == ty {
                    Some(
                        l + seq![
                            Line::Op1(
                                if op is Not {
                                    Opcode::Not
                                } else {
                                    Opcode::Neg
                                },
                                reg(RegisterName::A, s),
                            ),
                        ] + self.store(t, RegisterName::A, s),
                    )
                } else {
                    None
                },
                _ => None,
            },
            UnaryOp::Truncate | UnaryOp::ZeroExtend | UnaryOp::SignExtend => match (
                scalar(ty),
                scalar(from),
                self.load(RegisterName::A, a),
            ) {
                (Some(st), Some(sf), Some(l)) => if !(ty is Integer && from is Integer) {
                    None
                } else if op is Truncate {
                    if st.spec_in_bytes() < sf.spec_in_bytes() {
                        Some(l + self.store(t, RegisterName::A, st))
                    } else {
                        None
                    }
                } else if st.spec_in_bytes() > sf.spec_in_bytes() {
                    Some(
                        l + (if op is ZeroExtend && sf == Size::Double {
                            Seq::empty()
                        } else {
                            seq![
                                Line::Op2(
                                    if op is ZeroExtend {
                                        Opcode::MovZeroExtend
                                    } else {
                                        Opcode::MovSignExtend
                                    },
                                    reg(RegisterName::A, st),
                                    reg(RegisterName::A, sf),
                                ),
                            ]
                        }) + self.store(t, RegisterName::A, st),
                    )
                } else {
                    None
                },
                _ => None,
            },
            UnaryOp::IntToPtr => if from == Type::Integer(64) && ty == Type::Pointer {
                match self.load(RegisterName::A, a) {
                    Some(l) => Some(l + self.store(t, RegisterName::A, Size::Quad)),
                    None => None,
                }
            } else {
                None
            },
            UnaryOp::PtrToInt => if from == Type::Pointer && ty == Type::Integer(64) {
                match self.load(RegisterName::A, a) {
                    Some(l) => Some(l + self.store(t, RegisterName::A, Size::Quad)),
                    None => None,
                }
            } else {
                None
            },
        }
    }

    /// A comparison of two values of the same type, which fit a machine
    /// register. The target is a truth value.
    #[verifier::opaque]
    pub open spec fn test(self, t: RegID, op: TestOp, a: Expr, b: Expr) -> Option<Seq<Line>> {
        match (
            scalar(self.type_of(a)),
            self.load(RegisterName::A, a),
            self.load(RegisterName::C, b),
        ) {
            (Some(s), Some(la), Some(lb)) => if self.reg_type(t) == Type::Bool && self.type_of(a)
                == self.type_of(b) {
                Some(
                    la + lb + seq![
                        Line::Op2(Opcode::Cmp, reg(RegisterName::A, s), reg(RegisterName::C, s)),
                        Line::Op1(Opcode::SetIf(condition(op)), reg(RegisterName::A, Size::Byte)),
                    ] + self.store(t, RegisterName::A, Size::Byte),
                )
            } else {
                None
            },
            _ => None,
        }
    }

    /// The address of a variable.
    #[verifier::opaque]
    pub open spec fn var_pointer(self, t: RegID, v: VarID) -> Option<Seq<Line>> {
        if self.reg_type(t) == Type::Pointer {
            Some(
                seq![
                    Line::Op2(
                        Opcode::Lea,
                        reg(RegisterName::A, Size::Quad),
                        Arg::Memory(at(self.var_off(v))),
                    ),
                ] + self.store(t, RegisterName::A, Size::Quad),
            )
        } else {
            None
        }
    }

    /// The address of a function.
    #[verifier::opaque]
    pub open spec fn function_pointer(self, t: RegID, g: FuncID) -> Option<Seq<Line>> {
        if self.reg_type(t) == Type::Pointer {
            Some(
                seq![
                    Line::Op2(
                        Opcode::Lea,
                        reg(RegisterName::A, Size::Quad),
                        Arg::Memory(Memory::spec_rip().spec_label(Label::Function(g.0))),
                    ),
                ] + self.store(t, RegisterName::A, Size::Quad),
            )
        } else {
            None
        }
    }

    /// Reads what a pointer points to, byte by byte.
    #[verifier::opaque]
    pub open spec fn load_from(self, t: RegID, pointer: RegID) -> Option<Seq<Line>> {
        if self.reg_type(pointer) == Type::Pointer {
            Some(
                seq![
                    Line::Op2(
                        Opcode::Mov,
                        reg(RegisterName::C, Size::Quad),
                        slot(self.reg_off(pointer), Size::Quad),
                    ),
                ] + move_bytes(
                    behind(RegisterName::C),
                    at(self.reg_off(t)),
                    self.types.size_of(self.reg_type(t)),
                ),
            )
        } else {
            None
        }
    }

    /// Writes a value to where a pointer points to: a register byte by
    /// byte, a constant at once.
    #[verifier::opaque]
    pub open spec fn store_to(self, pointer: RegID, value: Expr) -> Option<Seq<Line>> {
        let address = seq![
            Line::Op2(
                Opcode::Mov,
                reg(RegisterName::C, Size::Quad),
                slot(self.reg_off(pointer), Size::Quad),
            ),
        ];
        if self.reg_type(pointer) != Type::Pointer {
            None
        } else {
            match value {
                Expr::Register(r) => Some(
                    address + move_bytes(
                        at(self.reg_off(r)),
                        behind(RegisterName::C),
                        self.types.size_of(self.reg_type(r)),
                    ),
                ),
                Expr::Constant(_) => match (
                    scalar(self.type_of(value)),
                    self.load(RegisterName::A, value),
                ) {
                    (Some(s), Some(l)) => Some(
                        address + l + seq![
                            Line::Op2(
                                Opcode::Mov,
                                Arg::Memory(behind(RegisterName::C).spec_sized(s)),
                                reg(RegisterName::A, s),
                            ),
                        ],
                    ),
                    (None, _) => if self.type_of(value) is Unit {
                        Some(Seq::empty())
                    } else {
                        None
                    },
                    _ => None,
                },
            }
        }
    }

    /// The address of a member of a struct in memory.
    #[verifier::opaque]
    pub open spec fn member_pointer(
        self,
        t: RegID,
        pointer: RegID,
        member: u32,
        id: crate::types::StructTypeID,
    ) -> Option<Seq<Line>> {
        if self.reg_type(t) == Type::Pointer && self.reg_type(pointer) == Type::Pointer
            && self.types.valid(Type::Struct(id)) && member < self.types.structs()[id.0 as int].len()
            && self.types.size_of(Type::Struct(id)) <= i32::MAX {
            Some(
                seq![
                    Line::Op2(
                        Opcode::Mov,
                        reg(RegisterName::A, Size::Quad),
                        slot(self.reg_off(pointer), Size::Quad),
                    ),
                    Line::Op2(
                        Opcode::Add,
                        reg(RegisterName::A, Size::Quad),
                        Arg::Int(ConstInt::I32(self.types.member_offset(id, member as nat) as i32)),
                    ),
                ] + self.store(t, RegisterName::A, Size::Quad),
            )
        } else {
            None
        }
    }

    /// The address of an element of an array in memory: the index, of 64
    /// bits, times the size of an element, after the pointer.
    #[verifier::opaque]
    pub open spec fn element_pointer(
        self,
        t: RegID,
        pointer: RegID,
        index: Expr,
        element: Type,
    ) -> Option<Seq<Line>> {
        if self.reg_type(t) == Type::Pointer && self.reg_type(pointer) == Type::Pointer
            && self.type_of(index) == Type::Integer(64) && self.types.valid(element)
            && self.types.size_of(element) <= i32::MAX {
            match self.load(RegisterName::C, index) {
                Some(l) => Some(
                    seq![
                        Line::Op2(
                            Opcode::Mov,
                            reg(RegisterName::A, Size::Quad),
                            slot(self.reg_off(pointer), Size::Quad),
                        ),
                    ] + l + seq![
                        Line::Op2(
                            Opcode::Mov,
                            reg(RegisterName::D, Size::Quad),
                            Arg::Int(ConstInt::I64(self.types.size_of(element) as i64)),
                        ),
                        Line::Op2(
                            Opcode::IMul,
                            reg(RegisterName::C, Size::Quad),
                            reg(RegisterName::D, Size::Quad),
                        ),
                        Line::Op2(
                            Opcode::Add,
                            reg(RegisterName::A, Size::Quad),
                            reg(RegisterName::C, Size::Quad),
                        ),
                    ] + self.store(t, RegisterName::A, Size::Quad),
                ),
                None => None,
            }
        } else {
            None
        }
    }

    /// A member of a struct that a register holds, copied byte by byte.
    #[verifier::opaque]
    pub open spec fn member(self, t: RegID, structure: Expr, member: u32) -> Option<Seq<Line>> {
        match structure {
            Expr::Register(r) => match self.reg_type(r) {
                Type::Struct(id) => if member < self.types.structs()[id.0 as int].len()
                    && self.reg_type(t) == self.types.structs()[id.0 as int][member as int] {
                    Some(
                        move_bytes(
                            at(self.reg_off(r) + self.types.member_offset(id, member as nat)),
                            at(self.reg_off(t)),
                            self.types.size_of(self.reg_type(t)),
                        ),
                    )
                } else {
                    None
                },
                _ => None,
            },
            _ => None,
        }
    }

    /// The offset from the frame base of the place where value number `i`
    /// waits on its way to another block.
    pub open spec fn stash_off(self, i: int) -> int {
        -(self.frame_size() + 8 * (i + 1))
    }

    /// The largest number of values that a jump hands over.
    pub open spec fn pass_limit() -> nat {
        0xffff
    }

    /// The lines that put the first `n` of the values `args` where they
    /// wait on their way to another block.
    pub open spec fn stash(self, args: Seq<Expr>, n: nat) -> Option<Seq<Line>>
        decreases n,
    {
        if n == 0 || n > args.len() {
            Some(Seq::empty())
        } else {
            match (
                self.stash(args, (n - 1) as nat),
                scalar(self.type_of(args[n - 1])),
                self.load(RegisterName::A, args[n - 1]),
            ) {
                (Some(before), Some(s), Some(l)) => Some(
                    before + l + seq![
                        Line::Op2(
                            Opcode::Mov,
                            slot(self.stash_off(n - 1), s),
                            reg(RegisterName::A, s),
                        ),
                    ],
                ),
                _ => None,
            }
        }
    }

    /// The lines that take the first `n` waiting values to the parameters
    /// `params`, which have the types of the values.
    pub open spec fn unstash(self, params: Seq<RegID>, n: nat) -> Option<Seq<Line>>
        decreases n,
    {
        if n == 0 || n > params.len() {
            Some(Seq::empty())
        } else {
            match (self.unstash(params, (n - 1) as nat), scalar(self.reg_type(params[n - 1]))) {
                (Some(before), Some(s)) => Some(
                    before + seq![
                        Line::Op2(
                            Opcode::Mov,
                            reg(RegisterName::A, s),
                            slot(self.stash_off(n - 1), s),
                        ),
                        Line::Op2(
                            Opcode::Mov,
                            slot(self.reg_off(params[n - 1]), s),
                            reg(RegisterName::A, s),
                        ),
                    ],
                ),
                _ => None,
            }
        }
    }

    /// Whether the values `args` have the types of the parameters
    /// `params`, one by one.
    pub open spec fn args_match(self, args: Seq<Expr>, params: Seq<RegID>) -> bool {
        &&& args.len() == params.len()
        &&& forall|i: int|
            0 <= i < args.len() ==> self.type_of(#[trigger] args[i]) == self.reg_type(params[i])
    }

    /// The lines that hand the values of `target` to the parameters of its
    /// block. All values are read before any parameter is written: they
    /// wait below the frame, for which the stack pointer moves down and up
    /// again. Values that fit no machine register are not handed over.
    #[verifier::opaque]
    pub open spec fn pass(self, target: BlockTarget) -> Lowered {
        let args = target.parameters@;
        let params = self.m.blocks[target.block.0 as int].parameters@;
        if !self.args_match(args, params) {
            Lowered::Malformed
        } else if args.len() == 0 {
            Lowered::Lines(Seq::empty())
        } else if args.len() > Self::pass_limit() {
            Lowered::Unsupported
        } else {
            match (self.stash(args, args.len()), self.unstash(params, params.len())) {
                (Some(down), Some(up)) => Lowered::Lines(
                    seq![
                        Line::Op2(
                            Opcode::Sub,
                            reg(RegisterName::SP, Size::Quad),
                            Arg::Int(ConstInt::I32((8 * args.len()) as i32)),
                        ),
                    ] + down + up + seq![
                        Line::Op2(
                            Opcode::Add,
                            reg(RegisterName::SP, Size::Quad),
                            Arg::Int(ConstInt::I32((8 * args.len()) as i32)),
                        ),
                    ],
                ),
                _ => Lowered::Unsupported,
            }
        }
    }

    /// A jump: the values are handed over, then control goes to the block.
    #[verifier::opaque]
    pub open spec fn jump(self, target: BlockTarget) -> Lowered {
        match self.pass(target) {
            Lowered::Lines(l) => Lowered::Lines(
                l + seq![Line::Op1(Opcode::Jmp, Arg::Label(Label::Block(target.block.0)))],
            ),
            other => other,
        }
    }

    /// A branch out of the block `b`: where the condition does not hold,
    /// control goes to the other way out of `b`, from which the second
    /// jump is made; else the first jump is made.
    #[verifier::opaque]
    pub open spec fn branch(self, b: BlockID, c: Expr, t: BlockTarget, f: BlockTarget) -> Lowered {
        if self.type_of(c) != Type::Bool {
            Lowered::Malformed
        } else {
            match self.load(RegisterName::A, c) {
                None => Lowered::Unsupported,
                Some(l) => match self.jump(t) {
                    Lowered::Lines(first) => match self.jump(f) {
                        Lowered::Lines(second) => Lowered::Lines(
                            l + seq![
                                Line::Op2(
                                    Opcode::Cmp,
                                    reg(RegisterName::A, Size::Byte),
                                    Arg::Int(ConstInt::U8(0)),
                                ),
                                Line::Op1(
                                    Opcode::JumpIf(Cond::Equal),
                                    Arg::Label(Label::Otherwise(b.0)),
                                ),
                            ] + first + seq![Line::Label(Label::Otherwise(b.0))] + second,
                        ),
                        other => other,
                    },
                    other => other,
                },
            }
        }
    }

    /// A return: the value, which has the return type of the function,
    /// goes to `a` if it fits a machine register, and nowhere if it is the
    /// unit value; then the function ends.
    #[verifier::opaque]
    pub open spec fn ret(self, e: Expr) -> Lowered {
        let ty = self.type_of(e);
        if ty != self.function().signature.return_type {
            Lowered::Malformed
        } else if ty is Unit {
            Lowered::Lines(epilogue())
        } else {
            match (scalar(ty), self.load(RegisterName::A, e)) {
                (Some(_), Some(l)) => Lowered::Lines(l + epilogue()),
                _ => Lowered::Unsupported,
            }
        }
    }

    /// The lines that load the first `n` of the arguments `args` into the
    /// machine registers for the arguments of a call, or of a request to
    /// the operating system where `system` holds.
    pub open spec fn load_args(self, args: Seq<Expr>, n: nat, system: bool) -> Option<Seq<Line>>
        decreases n,
    {
        if n == 0 || n > args.len() {
            Some(Seq::empty())
        } else {
            match (
                self.load_args(args, (n - 1) as nat, system),
                scalar(self.type_of(args[n - 1])),
                self.load(
                    if system {
                        syscall_register(n - 1)
                    } else {
                        argument_register(n - 1)
                    },
                    args[n - 1],
                ),
            ) {
                (Some(before), Some(_), Some(l)) => Some(before + l),
                _ => None,
            }
        }
    }

    /// Whether the arguments `args` are what a function takes that has the
    /// parameters `tys` and returns a value of `ret` into the register `t`:
    /// there is one argument for each parameter, of its type, and more only
    /// where the function takes a variable number of them, as `varargs`
    /// says.
    pub open spec fn call_matches(
        self,
        t: RegID,
        ret: Type,
        tys: Seq<Type>,
        varargs: bool,
        args: Seq<Expr>,
    ) -> bool {
        &&& self.reg_type(t) == ret
        &&& args.len() == tys.len() || (varargs && args.len() > tys.len())
        &&& forall|i: int|
            0 <= i < tys.len() && i < args.len() ==> self.type_of(#[trigger] args[i]) == tys[i]
    }

    /// The lines of a call to `target` once its arguments are checked: up
    /// to six arguments that fit machine registers go to the argument
    /// registers, `before` is done, a function that takes a variable number
    /// of arguments is told in `a` that none of them is a floating point
    /// number, and the result is taken from `a` if it fits a machine
    /// register.
    #[verifier::opaque]
    pub open spec fn call_lines(
        self,
        t: RegID,
        ret: Type,
        varargs: bool,
        args: Seq<Expr>,
        before: Seq<Line>,
        target: Arg,
    ) -> Lowered {
        if args.len() > 6 || !(ret is Unit || scalar(ret) is Some) {
            Lowered::Unsupported
        } else {
            match self.load_args(args, args.len(), false) {
                Some(l) => Lowered::Lines(
                    l + before + (if varargs {
                        seq![
                            Line::Op2(
                                Opcode::Mov,
                                reg(RegisterName::A, Size::Double),
                                Arg::Int(ConstInt::I32(0)),
                            ),
                        ]
                    } else {
                        Seq::empty()
                    }) + seq![Line::Op1(Opcode::Call, target)] + (match scalar(ret) {
                        Some(s) => self.store(t, RegisterName::A, s),
                        None => Seq::empty(),
                    }),
                ),
                None => Lowered::Unsupported,
            }
        }
    }

    /// A call of the function `g` of the module.
    #[verifier::opaque]
    pub open spec fn call(self, t: RegID, g: FuncID, args: Seq<Expr>) -> Lowered {
        let sig = self.m.functions[g.0 as int].signature;
        if !self.call_matches(t, sig.return_type, sig.parameter_types@, sig.is_varargs, args) {
            Lowered::Malformed
        } else {
            self.call_lines(
                t,
                sig.return_type,
                sig.is_varargs,
                args,
                Seq::empty(),
                Arg::Label(Label::Function(g.0)),
            )
        }
    }

    /// A call of the function that the register `pointer` points to, and
    /// that has the signature `sig`: the pointer goes to `r11`, through
    /// which the call is made.
    #[verifier::opaque]
    pub open spec fn call_pointer(
        self,
        t: RegID,
        pointer: RegID,
        args: Seq<Expr>,
        sig: crate::module::function::FunctionSignature,
    ) -> Lowered {
        if self.reg_type(pointer) != Type::Pointer || !self.call_matches(
            t,
            sig.return_type,
            sig.parameter_types@,
            sig.is_varargs,
            args,
        ) {
            Lowered::Malformed
        } else {
            self.call_lines(
                t,
                sig.return_type,
                sig.is_varargs,
                args,
                seq![
                    Line::Op2(
                        Opcode::Mov,
                        reg(RegisterName::R11, Size::Quad),
                        slot(self.reg_off(pointer), Size::Quad),
                    ),
                ],
                reg(RegisterName::R11, Size::Quad),
            )
        }
    }

    /// A request to the operating system, on Linux only: the number of the
    /// service goes to `a`, up to six arguments of 8 bytes to the
    /// registers of the system call convention, and the result, of 8
    /// bytes, is taken from `a`.
    #[verifier::opaque]
    pub open spec fn syscall(self, t: RegID, number: Expr, args: Seq<Expr>) -> Option<Seq<Line>> {
        if self.system != System::Linux || args.len() > 6 || scalar(self.reg_type(t)) != Some(
            Size::Quad,
        ) || scalar(self.type_of(number)) != Some(Size::Quad) || !(forall|i: int|
            0 <= i < args.len() ==> scalar(self.type_of(#[trigger] args[i])) == Some(Size::Quad)) {
            None
        } else {
            match (
                self.load_args(args, args.len(), true),
                self.load(RegisterName::A, number),
            ) {
                (Some(l), Some(n)) => Some(
                    l + n + seq![Line::Op0(Opcode::Syscall)] + self.store(
                        t,
                        RegisterName::A,
                        Size::Quad,
                    ),
                ),
                _ => None,
            }
        }
    }

    /// What the instruction `instr` of the block `b` becomes.
    #[verifier::opaque]
    pub open spec fn instr_code(self, b: BlockID, instr: Instruction) -> Lowered {
        match instr {
            Instruction::Nop => Lowered::Lines(Seq::empty()),
            Instruction::Assign(t, e) => lines_or_unsupported(self.assign(t, e)),
            Instruction::BinaryOp(t, op, x, y) => lines_or_unsupported(self.binary(t, op, x, y)),
            Instruction::UnaryOp(t, op, x) => lines_or_unsupported(self.unary(t, op, x)),
            Instruction::TestOp(t, op, x, y) => lines_or_unsupported(self.test(t, op, x, y)),
            Instruction::MakeStruct(t, values) => lines_or_unsupported(
                self.make_struct(t, values@),
            ),
            Instruction::MakeArray(t, values) => lines_or_unsupported(self.make_array(t, values@)),
            Instruction::MakeShortArray(t, value, length) => lines_or_unsupported(
                self.make_short_array(t, value, length),
            ),
            Instruction::Select {
                target,
                condition,
                true_value,
                false_value,
            } => lines_or_unsupported(self.select(target, condition, true_value, false_value)),
            Instruction::GetElement { target, array, index } => lines_or_unsupported(
                self.element(target, array, index),
            ),
            Instruction::GetMember { target, structure, member } => lines_or_unsupported(
                self.member(target, structure, member),
            ),
            Instruction::GetMemberPtr {
                target,
                struct_pointer,
                member,
                struct_type,
            } => lines_or_unsupported(
                self.member_pointer(target, struct_pointer, member, struct_type),
            ),
            Instruction::GetVarPointer(t, v) => lines_or_unsupported(self.var_pointer(t, v)),
            Instruction::GetFunctionPointer(t, g) => lines_or_unsupported(
                self.function_pointer(t, g),
            ),
            Instruction::Load { target, pointer, .. } => lines_or_unsupported(
                self.load_from(target, pointer),
            ),
            Instruction::Store { pointer, value, .. } => lines_or_unsupported(
                self.store_to(pointer, value),
            ),
            Instruction::Jump(target) => self.jump(target),
            Instruction::Branch(c, t, f) => self.branch(b, c, t, f),
            Instruction::GetElementPtr {
                target,
                array_pointer,
                index,
                element_type,
            } => lines_or_unsupported(
                self.element_pointer(target, array_pointer, index, element_type),
            ),
            Instruction::Call { target, function, args } => self.call(target, function, args@),
            Instruction::CallPtr { target, function_ptr, args, signature } => self.call_pointer(
                target,
                function_ptr,
                args@,
                signature,
            ),
            Instruction::Syscall { target, number, args } => lines_or_unsupported(
                self.syscall(target, number, args@),
            ),
            Instruction::Return(e) => self.ret(e),
            _ => Lowered::Unsupported,
        }
    }

    /// Whether the block ends as a block must: its last instruction is a
    /// jump, a branch or a return, and no other instruction is.
    pub open spec fn ends_well(body: Seq<Instruction>) -> bool {
        &&& body.len() > 0
        &&& body.last().spec_is_terminator()
        &&& forall|i: int| 0 <= i < body.len() - 1 ==> !(#[trigger] body[i]).spec_is_terminator()
    }

    /// What the first `n` instructions of the block `b` become. The first
    /// instruction that has no lowering, or breaks a rule, decides.
    #[verifier::opaque]
    pub open spec fn body_code(self, b: BlockID, n: nat) -> Lowered
        decreases n,
    {
        let body = self.m.blocks[b.0 as int].body@;
        if n == 0 || n > body.len() {
            Lowered::Lines(Seq::empty())
        } else {
            match self.body_code(b, (n - 1) as nat) {
                Lowered::Lines(before) => match self.instr_code(b, body[n - 1]) {
                    Lowered::Lines(l) => Lowered::Lines(before + l),
                    other => other,
                },
                other => other,
            }
        }
    }

    /// What the block `b` becomes: its label and its instructions.
    #[verifier::opaque]
    pub open spec fn block_code(self, b: BlockID) -> Lowered {
        let body = self.m.blocks[b.0 as int].body@;
        if !Self::ends_well(body) {
            Lowered::Malformed
        } else {
            match self.body_code(b, body.len()) {
                Lowered::Lines(l) => Lowered::Lines(seq![Line::Label(Label::Block(b.0))] + l),
                other => other,
            }
        }
    }

    /// What the first `n` blocks of `order` become.
    #[verifier::opaque]
    pub open spec fn blocks_code(self, order: Seq<BlockID>, n: nat) -> Lowered
        decreases n,
    {
        if n == 0 || n > order.len() {
            Lowered::Lines(Seq::empty())
        } else {
            match self.blocks_code(order, (n - 1) as nat) {
                Lowered::Lines(before) => match self.block_code(order[n - 1]) {
                    Lowered::Lines(l) => Lowered::Lines(before + l),
                    other => other,
                },
                other => other,
            }
        }
    }

    /// The lines that take the first `n` arguments of the function from
    /// the argument registers to the slots of its parameters.
    pub open spec fn take_params(self, n: nat) -> Option<Seq<Line>>
        decreases n,
    {
        let params = self.function().parameter_registers@;
        if n == 0 || n > params.len() {
            Some(Seq::empty())
        } else {
            match (self.take_params((n - 1) as nat), scalar(self.reg_type(params[n - 1]))) {
                (Some(before), Some(s)) => Some(
                    before + self.store(params[n - 1], argument_register(n - 1), s),
                ),
                _ => None,
            }
        }
    }

    /// Whether the frame is small enough to be lowered.
    pub open spec fn frame_fits(self) -> bool {
        self.frame_size() <= frame_limit()
    }

    /// Whether the arguments of the function can be taken: there are at
    /// most six, and each fits a machine register.
    pub open spec fn params_fit(self) -> bool {
        let params = self.function().parameter_registers@;
        params.len() <= 6 && self.take_params(params.len()) is Some
    }

    /// The lines at the start of the function: the frame base of the
    /// caller is saved, the stack pointer becomes the frame base, moves
    /// down by the size of the frame, and the arguments go to their slots.
    pub open spec fn prologue(self) -> Seq<Line> {
        seq![
            Line::Op1(Opcode::Push, reg(RegisterName::BP, Size::Quad)),
            Line::Op2(
                Opcode::Mov,
                reg(RegisterName::BP, Size::Quad),
                reg(RegisterName::SP, Size::Quad),
            ),
        ] + (if self.frame_size() > 0 {
            seq![
                Line::Op2(
                    Opcode::Sub,
                    reg(RegisterName::SP, Size::Quad),
                    Arg::Int(ConstInt::I32(self.frame_size() as i32)),
                ),
            ]
        } else {
            Seq::empty()
        }) + self.take_params(self.function().parameter_registers@.len())->0
    }

    /// The lines before the blocks: the name of the function, visible to
    /// other compilation units, and the start of the function.
    pub open spec fn head(self) -> Seq<Line> {
        seq![Line::Global(Label::Function(self.f.0)), Line::Label(Label::Function(self.f.0))]
            + self.prologue()
    }
}


impl Cx {
    /// Module and types are in order, and the function that is lowered has
    /// a body.
    pub open spec fn wf(self) -> bool {
        &&& self.m.wf()
        &&& self.types.wf()
        &&& self.m.typed_in(&self.types)
        &&& self.f.0 < self.m.functions.len()
        &&& self.function().definition is Some
    }

    /// The position of item `i` of the frame in the frame: the offset of
    /// its first byte from the frame base, and that of the byte after its
    /// last.
    pub open spec fn range(self, i: int) -> (int, int) {
        (slot_offset(self.items(), i), slot_offset(self.items(), i) + self.items()[i].0)
    }

    /// Each variable and each register of the function has its own bytes
    /// in the frame: the slots of two of them have no byte in common, each
    /// slot lies at a multiple of the alignment of its type, and all lie
    /// between the frame base and the end of the frame.
    pub proof fn lemma_frame_slots(self, i: int, j: int)
        requires
            self.wf(),
            0 <= i < self.items().len(),
            0 <= j < self.items().len(),
            i != j,
        ensures
            self.range(i).1 <= self.range(j).0 || self.range(j).1 <= self.range(i).0,
            self.items()[i].1 >= 1,
            self.range(i).0 % (self.items()[i].1 as int) == 0,
            -(self.frame_size() as int) <= self.range(i).0,
            self.range(i).1 <= 0,
    {
        self.lemma_items(i);
        self.lemma_items(j);
        lemma_slot(self.items(), i);
        if i < j {
            crate::backend::frame::lemma_slots_disjoint(self.items(), i, j);
        } else {
            crate::backend::frame::lemma_slots_disjoint(self.items(), j, i);
        }
        crate::types::lemma_align_up(depth_after(self.items(), self.items().len()), 16);
    }

    /// Item `i` of the frame is the layout of a type of the store.
    pub proof fn lemma_items(self, i: int)
        requires
            self.wf(),
            0 <= i < self.items().len(),
        ensures
            1 <= self.items()[i].1 <= 32,
            i < self.function().variable_ids().len() ==> self.items()[i] == self.types.layout_of(
                self.m.variables[self.function().variable_ids()[i].0 as int].var_type,
            ),
            i >= self.function().variable_ids().len() ==> self.items()[i]
                == self.types.layout_of(
                self.m.registers[self.function().registers@[i
                    - self.function().variable_ids().len()].0 as int].reg_type,
            ),
    {
        let fun = self.function();
        let nvars = fun.variable_ids().len();
        assert(self.m.function_wf(self.f.0 as int));
        if i < nvars {
            let v = fun.variable_ids()[i];
            assert(self.m.var_in(v, fun.id));
            assert(self.types.valid(self.m.variables[v.0 as int].var_type));
            self.types.lemma_align_bounds(self.m.variables[v.0 as int].var_type);
        } else {
            let r = fun.registers@[i - nvars];
            assert(self.m.reg_in(r, fun.id));
            assert(self.types.valid(self.m.registers[r.0 as int].reg_type));
            self.types.lemma_align_bounds(self.m.registers[r.0 as int].reg_type);
        }
    }

    /// The slot of a register of the function is the slot of an item of
    /// the frame: it holds a value of the type of the register and lies
    /// inside the frame.
    pub proof fn lemma_reg_slot(self, r: RegID)
        requires
            self.wf(),
            self.m.reg_in(r, self.f),
        ensures
            ({
                let i = self.function().variable_ids().len() + position(
                    self.function().registers@,
                    r,
                );
                &&& 0 <= i < self.items().len()
                &&& self.reg_off(r) == self.range(i).0
                &&& self.items()[i] == self.types.layout_of(self.reg_type(r))
            }),
            -(self.frame_size() as int) <= self.reg_off(r),
            self.reg_off(r) + self.types.size_of(self.reg_type(r)) <= 0,
            self.types.valid(self.reg_type(r)),
    {
        assert(self.m.register_wf(r.0 as int));
        assert(self.m.function_wf(self.f.0 as int));
        let regs = self.function().registers@;
        let k = position(regs, r);
        assert(0 <= k < regs.len() && regs[k] == r);
        let i = self.function().variable_ids().len() + k;
        self.lemma_items(i);
        lemma_slot(self.items(), i);
        crate::types::lemma_align_up(depth_after(self.items(), self.items().len()), 16);
    }

    /// The slot of a variable of the function is the slot of an item of
    /// the frame: it holds a value of the type of the variable and lies
    /// inside the frame.
    pub proof fn lemma_var_slot(self, v: VarID)
        requires
            self.wf(),
            self.m.var_in(v, self.f),
        ensures
            ({
                let i = position(self.function().variable_ids(), v);
                &&& 0 <= i < self.function().variable_ids().len()
                &&& self.var_off(v) == self.range(i).0
                &&& self.items()[i] == self.types.layout_of(self.m.variables[v.0 as int].var_type)
            }),
            -(self.frame_size() as int) <= self.var_off(v),
            self.var_off(v) + self.types.size_of(self.m.variables[v.0 as int].var_type) <= 0,
    {
        assert(self.m.variable_wf(v.0 as int));
        assert(self.m.function_wf(self.f.0 as int));
        let vars = self.function().variable_ids();
        let k = position(vars, v);
        assert(0 <= k < vars.len() && vars[k] == v);
        self.lemma_items(k);
        lemma_slot(self.items(), k);
        crate::types::lemma_align_up(depth_after(self.items(), self.items().len()), 16);
    }
}


impl Cx {
    /// Once the arguments of the function cannot be taken, they cannot be
    /// taken however many more there are.
    pub proof fn lemma_take_params_none(self, n: nat, k: nat)
        requires
            n <= k <= self.function().parameter_registers@.len(),
            self.take_params(n) is None,
        ensures
            self.take_params(k) is None,
        decreases k,
    {
        if n < k {
            self.lemma_take_params_none(n, (k - 1) as nat);
        }
    }

    /// What the function becomes when its blocks are visited in `order`:
    /// its head and its blocks. A frame that is too large and parameters
    /// that cannot be taken have no lowering.
    #[verifier::opaque]
    pub open spec fn function_code(self, order: Seq<BlockID>) -> Lowered {
        if !self.frame_fits() || !self.params_fit() {
            Lowered::Unsupported
        } else {
            match self.blocks_code(order, order.len()) {
                Lowered::Lines(l) => Lowered::Lines(self.head() + l),
                other => other,
            }
        }
    }
}

/// The lines of the first `n` functions of the module, after the line that
/// starts the code section. A function without a body takes no line.
#[verifier::opaque]
pub open spec fn program_code(
    m: ModuleView,
    types: Types,
    system: System,
    orders: Seq<Seq<BlockID>>,
    n: nat,
) -> Lowered
    decreases n,
{
    if n == 0 || n > m.functions.len() {
        Lowered::Lines(seq![Line::Text])
    } else {
        match program_code(m, types, system, orders, (n - 1) as nat) {
            Lowered::Lines(before) => if m.functions[n - 1].definition is Some {
                match (Cx { m, types, system, f: FuncID((n - 1) as usize) }).function_code(
                    orders[n - 1],
                ) {
                    Lowered::Lines(l) => Lowered::Lines(before + l),
                    other => other,
                }
            } else {
                Lowered::Lines(before)
            },
            other => other,
        }
    }
}


/// The program of the first `n` functions is the same whatever is said of
/// the order of the blocks of later functions.
pub proof fn lemma_program_code_orders(
    m: ModuleView,
    types: Types,
    system: System,
    first: Seq<Seq<BlockID>>,
    second: Seq<Seq<BlockID>>,
    n: nat,
)
    requires
        n <= first.len(),
        n <= second.len(),
        forall|i: int| 0 <= i < n ==> first[i] == second[i],
    ensures
        program_code(m, types, system, first, n) == program_code(m, types, system, second, n),
    decreases n,
{
    reveal_with_fuel(program_code, 2);
    if n > 0 && n <= m.functions.len() {
        lemma_program_code_orders(m, types, system, first, second, (n - 1) as nat);
    }
}

} // verus!
