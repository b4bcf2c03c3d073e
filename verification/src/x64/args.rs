//! The operands of machine instructions.

use super::label::{names_of, Label};
use super::register::Register;
use super::size::Size;
use crate::util::text::{int_text, nat_text, push_int, push_nat};
use vstd::prelude::*;
use vstd::string::StringExecFns;

verus! {

/// An integer that stands in the code itself, with its width and
/// signedness.
#[derive(Copy, Clone, Debug, PartialEq, Eq, Hash, Structural)]
pub enum ConstInt {
    I8(i8),
    U8(u8),
    I16(i16),
    U16(u16),
    I32(i32),
    U32(u32),
    I64(i64),
    U64(u64),
}

impl ConstInt {
    /// The number that the constant stands for.
    pub open spec fn value(self) -> int {
        match self {
            ConstInt::I8(x) => x as int,
            ConstInt::U8(x) => x as int,
            ConstInt::I16(x) => x as int,
            ConstInt::U16(x) => x as int,
            ConstInt::I32(x) => x as int,
            ConstInt::U32(x) => x as int,
            ConstInt::I64(x) => x as int,
            ConstInt::U64(x) => x as int,
        }
    }

    /// The size of the constant as an operand.
    pub open spec fn spec_size(self) -> Size {
        match self {
            ConstInt::I8(_) => Size::Byte,
            ConstInt::U8(_) => Size::Byte,
            ConstInt::I16(_) => Size::Word,
            ConstInt::U16(_) => Size::Word,
            ConstInt::I32(_) => Size::Double,
            ConstInt::U32(_) => Size::Double,
            ConstInt::I64(_) => Size::Quad,
            ConstInt::U64(_) => Size::Quad,
        }
    }

    /// Whether the constant is zero.
    pub fn is_zero(self) -> (r: bool)
        ensures
            r == (self.value() == 0),
    {
        match self {
            ConstInt::I8(x) => x == 0,
            ConstInt::U8(x) => x == 0,
            ConstInt::I16(x) => x == 0,
            ConstInt::U16(x) => x == 0,
            ConstInt::I32(x) => x == 0,
            ConstInt::U32(x) => x == 0,
            ConstInt::I64(x) => x == 0,
            ConstInt::U64(x) => x == 0,
        }
    }

    /// Whether the constant is below zero.
    pub fn is_negative(self) -> (r: bool)
        ensures
            r == (self.value() < 0),
    {
        match self {
            ConstInt::I8(x) => x < 0,
            ConstInt::U8(_) => false,
            ConstInt::I16(x) => x < 0,
            ConstInt::U16(_) => false,
            ConstInt::I32(x) => x < 0,
            ConstInt::U32(_) => false,
            ConstInt::I64(x) => x < 0,
            ConstInt::U64(_) => false,
        }
    }

    /// Whether `rhs` can be added to the constant: both are of the same
    /// kind, 32 or 64 bits wide, and the sum is in the range of that kind.
    pub open spec fn can_add(self, rhs: ConstInt) -> bool {
        match (self, rhs) {
            (ConstInt::I32(a), ConstInt::I32(b)) => i32::MIN <= a + b <= i32::MAX,
            (ConstInt::U32(a), ConstInt::U32(b)) => a + b <= u32::MAX,
            (ConstInt::I64(a), ConstInt::I64(b)) => i64::MIN <= a + b <= i64::MAX,
            (ConstInt::U64(a), ConstInt::U64(b)) => a + b <= u64::MAX,
            _ => false,
        }
    }

    /// The sum of the constant and `rhs`, of the same kind as both.
    pub open spec fn spec_plus(self, rhs: ConstInt) -> ConstInt {
        match (self, rhs) {
            (ConstInt::I32(a), ConstInt::I32(b)) => ConstInt::I32((a + b) as i32),
            (ConstInt::U32(a), ConstInt::U32(b)) => ConstInt::U32((a + b) as u32),
            (ConstInt::I64(a), ConstInt::I64(b)) => ConstInt::I64((a + b) as i64),
            (ConstInt::U64(a), ConstInt::U64(b)) => ConstInt::U64((a + b) as u64),
            _ => self,
        }
    }

    /// The sum of the constant and `rhs`.
    #[verifier::when_used_as_spec(spec_plus)]
    pub fn plus(self, rhs: ConstInt) -> (r: ConstInt)
        requires
            self.can_add(rhs),
        ensures
            r == self.spec_plus(rhs),
            r.value() == self.value() + rhs.value(),
    {
        match (self, rhs) {
            (ConstInt::I32(a), ConstInt::I32(b)) => ConstInt::I32(a + b),
            (ConstInt::U32(a), ConstInt::U32(b)) => ConstInt::U32(a + b),
            (ConstInt::I64(a), ConstInt::I64(b)) => ConstInt::I64(a + b),
            (ConstInt::U64(a), ConstInt::U64(b)) => ConstInt::U64(a + b),
            _ => self,
        }
    }

    /// The constant in assembly text: its value in decimal.
    pub open spec fn spec_text(self) -> Seq<char> {
        int_text(self.value())
    }

    /// Appends the constant in assembly text to `out`.
    pub fn push_text(self, out: &mut String)
        ensures
            final(out)@ == old(out)@ + self.spec_text(),
    {
        match self {
            ConstInt::I8(x) => push_int(out, x as i128),
            ConstInt::U8(x) => push_int(out, x as i128),
            ConstInt::I16(x) => push_int(out, x as i128),
            ConstInt::U16(x) => push_int(out, x as i128),
            ConstInt::I32(x) => push_int(out, x as i128),
            ConstInt::U32(x) => push_int(out, x as i128),
            ConstInt::I64(x) => push_int(out, x as i128),
            ConstInt::U64(x) => push_nat(out, x as u128),
        }
    }
}

/// An index register and the unit that it counts in.
#[derive(Copy, Clone, Debug, PartialEq, Eq, Hash, Structural)]
pub struct ScaledIndex {
    pub register: Register,
    pub scale: Size,
}

/// Base and scaled index of a memory operand.
#[derive(Copy, Clone, Debug, PartialEq, Eq, Hash, Structural)]
pub struct SibMemory {
    pub base: Option<Register>,
    pub index: Option<ScaledIndex>,
}

impl SibMemory {
    /// The part of a memory operand in brackets: the base, then the
    /// index, then its scale unless that is 1; nothing at all where there
    /// is neither base nor index.
    pub open spec fn spec_text(self) -> Seq<char> {
        if self.base is None && self.index is None {
            Seq::empty()
        } else {
            "("@ + (match self.base {
                Some(base) => base.spec_text(),
                None => Seq::empty(),
            }) + (match self.index {
                Some(i) => ", "@ + i.register.spec_text() + (if i.scale != Size::Byte {
                    ", "@ + nat_text(i.scale.spec_in_bytes() as nat)
                } else {
                    Seq::empty()
                }),
                None => Seq::empty(),
            }) + ")"@
        }
    }

    /// Appends the operand part in assembly text to `out`.
    pub fn push_text(self, out: &mut String)
        ensures
            final(out)@ == old(out)@ + self.spec_text(),
    {
        let any = self.base.is_some() || self.index.is_some();
        if any {
            out.append("(");
        }
        if let Some(base) = self.base {
            let text = base.text();
            out.append(text.as_str());
        }
        if let Some(i) = self.index {
            out.append(", ");
            let text = i.register.text();
            out.append(text.as_str());
            if i.scale != Size::Byte {
                out.append(", ");
                push_nat(out, i.scale.in_bytes() as u128);
            }
        }
        if any {
            out.append(")");
        }
        assert(out@ =~= old(out)@ + self.spec_text());
    }
}

/// What a memory operand is relative to.
#[derive(Copy, Clone, Debug, PartialEq, Eq, Hash, Structural)]
pub enum MemoryKind {
    /// The address of the next instruction.
    Rip,
    /// A base register and a scaled index register, each if wanted.
    Sib(SibMemory),
}

impl MemoryKind {
    /// The part of a memory operand in brackets.
    pub open spec fn spec_text(self) -> Seq<char> {
        match self {
            MemoryKind::Rip => "(%rip)"@,
            MemoryKind::Sib(m) => m.spec_text(),
        }
    }

    /// Appends the operand part in assembly text to `out`.
    pub fn push_text(self, out: &mut String)
        ensures
            final(out)@ == old(out)@ + self.spec_text(),
    {
        match self {
            MemoryKind::Rip => out.append("(%rip)"),
            MemoryKind::Sib(m) => m.push_text(out),
        }
    }
}

/// A memory operand: a displacement, made of a label and a constant, from
/// what `kind` says, and the size of what lies there, where that is known.
#[derive(Copy, Clone, Debug, PartialEq, Eq, Hash, Structural)]
pub struct Memory {
    pub size: Option<Size>,
    pub displacement_label: Option<Label>,
    pub displacement_constant: Option<ConstInt>,
    pub kind: MemoryKind,
}

impl Memory {
    /// The memory at address zero, to which base, index and displacement
    /// can be added.
    pub open spec fn spec_sib() -> Memory {
        Memory {
            size: None,
            displacement_label: None,
            displacement_constant: None,
            kind: MemoryKind::Sib(SibMemory { base: None, index: None }),
        }
    }

    /// The memory at the next instruction.
    pub open spec fn spec_rip() -> Memory {
        Memory {
            size: None,
            displacement_label: None,
            displacement_constant: None,
            kind: MemoryKind::Rip,
        }
    }

    /// This operand with the base register `base`.
    pub open spec fn spec_base(self, base: Register) -> Memory {
        match self.kind {
            MemoryKind::Sib(m) => Memory {
                kind: MemoryKind::Sib(SibMemory { base: Some(base), ..m }),
                ..self
            },
            MemoryKind::Rip => self,
        }
    }

    /// This operand with the index register `index`, counted in units of
    /// `scale`.
    pub open spec fn spec_index(self, index: Register, scale: Size) -> Memory {
        match self.kind {
            MemoryKind::Sib(m) => Memory {
                kind: MemoryKind::Sib(
                    SibMemory { index: Some(ScaledIndex { register: index, scale }), ..m },
                ),
                ..self
            },
            MemoryKind::Rip => self,
        }
    }

    /// This operand moved on by `disp` bytes.
    pub open spec fn spec_offset(self, disp: ConstInt) -> Memory {
        Memory {
            displacement_constant: Some(
                match self.displacement_constant {
                    Some(d) => d.spec_plus(disp),
                    None => disp,
                },
            ),
            ..self
        }
    }

    /// This operand displaced by the address of `label`.
    pub open spec fn spec_label(self, label: Label) -> Memory {
        Memory { displacement_label: Some(label), ..self }
    }

    /// This operand for a value of the size `size`.
    pub open spec fn spec_sized(self, size: Size) -> Memory {
        Memory { size: Some(size), ..self }
    }

    /// The memory at address zero, to which base, index and displacement
    /// can be added.
    #[verifier::when_used_as_spec(spec_sib)]
    pub fn sib() -> (r: Memory)
        ensures
            r == Self::spec_sib(),
    {
        Memory {
            size: None,
            displacement_label: None,
            displacement_constant: None,
            kind: MemoryKind::Sib(SibMemory { base: None, index: None }),
        }
    }

    /// The memory at the next instruction.
    #[verifier::when_used_as_spec(spec_rip)]
    pub fn rip() -> (r: Memory)
        ensures
            r == Self::spec_rip(),
    {
        Memory {
            size: None,
            displacement_label: None,
            displacement_constant: None,
            kind: MemoryKind::Rip,
        }
    }

    /// This operand with the base register `base`. Only an operand that is
    /// not relative to the next instruction can have one.
    #[verifier::when_used_as_spec(spec_base)]
    pub fn base(self, base: Register) -> (r: Memory)
        requires
            self.kind is Sib,
        ensures
            r == self.spec_base(base),
    {
        match self.kind {
            MemoryKind::Sib(m) => Memory {
                size: self.size,
                displacement_label: self.displacement_label,
                displacement_constant: self.displacement_constant,
                kind: MemoryKind::Sib(SibMemory { base: Some(base), index: m.index }),
            },
            MemoryKind::Rip => self,
        }
    }

    /// This operand with the index register `index`, counted in units of
    /// `scale`. Only an operand that is not relative to the next
    /// instruction can have one.
    #[verifier::when_used_as_spec(spec_index)]
    pub fn index(self, index: Register, scale: Size) -> (r: Memory)
        requires
            self.kind is Sib,
        ensures
            r == self.spec_index(index, scale),
    {
        match self.kind {
            MemoryKind::Sib(m) => Memory {
                size: self.size,
                displacement_label: self.displacement_label,
                displacement_constant: self.displacement_constant,
                kind: MemoryKind::Sib(
                    SibMemory { base: m.base, index: Some(ScaledIndex { register: index, scale }) },
                ),
            },
            MemoryKind::Rip => self,
        }
    }

    /// This operand moved on by `disp` bytes. Where it has a displacement
    /// already, `disp` can be added to it.
    #[verifier::when_used_as_spec(spec_offset)]
    pub fn offset(self, disp: ConstInt) -> (r: Memory)
        requires
            self.displacement_constant matches Some(d) ==> d.can_add(disp),
        ensures
            r == self.spec_offset(disp),
    {
        let moved = match self.displacement_constant {
            Some(d) => d.plus(disp),
            None => disp,
        };
        Memory {
            size: self.size,
            displacement_label: self.displacement_label,
            displacement_constant: Some(moved),
            kind: self.kind,
        }
    }

    /// This operand displaced by the address of `label`. It has no label
    /// yet.
    #[verifier::when_used_as_spec(spec_label)]
    pub fn label(self, label: Label) -> (r: Memory)
        requires
            self.displacement_label is None,
        ensures
            r == self.spec_label(label),
    {
        Memory {
            size: self.size,
            displacement_label: Some(label),
            displacement_constant: self.displacement_constant,
            kind: self.kind,
        }
    }

    /// This operand for a value of the size `size`.
    #[verifier::when_used_as_spec(spec_sized)]
    pub fn size(self, size: Size) -> (r: Memory)
        ensures
            r == self.spec_sized(size),
    {
        Memory {
            size: Some(size),
            displacement_label: self.displacement_label,
            displacement_constant: self.displacement_constant,
            kind: self.kind,
        }
    }

    /// Whether the operand can be written down with the symbols `names`.
    pub open spec fn known(self, names: Seq<Seq<char>>) -> bool {
        self.displacement_label matches Some(l) ==> l.known(names)
    }

    /// The operand in assembly text: the label, the constant unless it is
    /// zero, with a plus sign between them where the constant is not
    /// negative, and the part in brackets.
    pub open spec fn spec_text(self, names: Seq<Seq<char>>) -> Seq<char> {
        (match self.displacement_label {
            Some(l) => l.spec_text(names),
            None => Seq::empty(),
        }) + (match self.displacement_constant {
            Some(c) => if c.value() != 0 {
                (if self.displacement_label is Some && c.value() >= 0 {
                    "+"@
                } else {
                    Seq::empty()
                }) + c.spec_text()
            } else {
                Seq::empty()
            },
            None => Seq::empty(),
        }) + self.kind.spec_text()
    }

    /// Appends the operand in assembly text to `out`.
    pub fn push_text(self, out: &mut String, symbols: &Vec<String>)
        requires
            self.known(names_of(symbols@)),
        ensures
            final(out)@ == old(out)@ + self.spec_text(names_of(symbols@)),
    {
        if let Some(label) = self.displacement_label {
            label.push_text(out, symbols);
        }
        if let Some(constant) = self.displacement_constant {
            if !constant.is_zero() {
                if self.displacement_label.is_some() && !constant.is_negative() {
                    out.append("+");
                }
                constant.push_text(out);
            }
        }
        self.kind.push_text(out);
        assert(out@ =~= old(out)@ + self.spec_text(names_of(symbols@)));
    }
}

/// An operand of a machine instruction.
#[derive(Copy, Clone, Debug, PartialEq, Eq, Hash, Structural)]
pub enum Arg {
    Register(Register),
    Label(Label),
    Int(ConstInt),
    Memory(Memory),
}

impl Arg {
    /// The size of the operand, where it has one.
    pub open spec fn spec_size(&self) -> Option<Size> {
        match *self {
            Arg::Register(r) => Some(r.1),
            Arg::Int(c) => Some(c.spec_size()),
            Arg::Label(_) => None,
            Arg::Memory(m) => m.size,
        }
    }

    /// The size of the operand, where it has one: a label has none, and
    /// memory only if it was given one.
    #[verifier::when_used_as_spec(spec_size)]
    pub fn size(&self) -> (r: Option<Size>)
        ensures
            r == self.spec_size(),
    {
        match self {
            Arg::Register(r) => Some(r.1),
            Arg::Int(c) => Some(
                match c {
                    ConstInt::I8(_) | ConstInt::U8(_) => Size::Byte,
                    ConstInt::I16(_) | ConstInt::U16(_) => Size::Word,
                    ConstInt::I32(_) | ConstInt::U32(_) => Size::Double,
                    ConstInt::I64(_) | ConstInt::U64(_) => Size::Quad,
                },
            ),
            Arg::Label(_) => None,
            Arg::Memory(m) => m.size,
        }
    }

    /// Whether the operand is a register.
    pub fn is_register(&self) -> (r: bool)
        ensures
            r == (*self is Register),
    {
        match self {
            Arg::Register(_) => true,
            _ => false,
        }
    }

    /// Whether the operand is memory.
    pub fn is_memory(&self) -> (r: bool)
        ensures
            r == (*self is Memory),
    {
        match self {
            Arg::Memory(_) => true,
            _ => false,
        }
    }

    /// Whether the operand can be written down with the symbols `names`.
    pub open spec fn known(self, names: Seq<Seq<char>>) -> bool {
        match self {
            Arg::Label(l) => l.known(names),
            Arg::Memory(m) => m.known(names),
            _ => true,
        }
    }

    /// The operand in assembly text. A constant has a dollar sign before
    /// it.
    pub open spec fn spec_text(self, names: Seq<Seq<char>>) -> Seq<char> {
        match self {
            Arg::Int(c) => "$"@ + c.spec_text(),
            Arg::Label(l) => l.spec_text(names),
            Arg::Register(r) => r.spec_text(),
            Arg::Memory(m) => m.spec_text(names),
        }
    }

    /// Appends the operand in assembly text to `out`.
    pub fn push_text(self, out: &mut String, symbols: &Vec<String>)
        requires
            self.known(names_of(symbols@)),
        ensures
            final(out)@ == old(out)@ + self.spec_text(names_of(symbols@)),
    {
        match self {
            Arg::Int(c) => {
                out.append("$");
                c.push_text(out);
                assert(out@ =~= old(out)@ + self.spec_text(names_of(symbols@)));
            },
            Arg::Label(l) => l.push_text(out, symbols),
            Arg::Register(r) => {
                let text = r.text();
                out.append(text.as_str());
            },
            Arg::Memory(m) => m.push_text(out, symbols),
        }
    }
}

} // verus!
