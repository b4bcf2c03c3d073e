//! The general registers of the machine.

use super::args::{ConstInt, Memory};
use super::size::Size;
use vstd::prelude::*;
use vstd::string::StringExecFns;

verus! {

/// A general register without its size.
#[derive(Copy, Clone, Debug, PartialEq, Eq, Hash, Structural)]
pub enum RegisterName {
    A,
    B,
    C,
    D,
    SI,
    DI,
    SP,
    BP,
    R8,
    R9,
    R10,
    R11,
    R12,
    R13,
    R14,
    R15,
}

impl RegisterName {
    /// The part of the register's name that all its sizes share.
    pub open spec fn spec_name(self) -> Seq<char> {
        match self {
            RegisterName::A => "a"@,
            RegisterName::B => "b"@,
            RegisterName::C => "c"@,
            RegisterName::D => "d"@,
            RegisterName::SI => "si"@,
            RegisterName::DI => "di"@,
            RegisterName::SP => "sp"@,
            RegisterName::BP => "bp"@,
            RegisterName::R8 => "r8"@,
            RegisterName::R9 => "r9"@,
            RegisterName::R10 => "r10"@,
            RegisterName::R11 => "r11"@,
            RegisterName::R12 => "r12"@,
            RegisterName::R13 => "r13"@,
            RegisterName::R14 => "r14"@,
            RegisterName::R15 => "r15"@,
        }
    }

    /// The part of the register's name that all its sizes share.
    pub fn name(self) -> (r: &'static str)
        ensures
            r@ == self.spec_name(),
    {
        match self {
            RegisterName::A => "a",
            RegisterName::B => "b",
            RegisterName::C => "c",
            RegisterName::D => "d",
            RegisterName::SI => "si",
            RegisterName::DI => "di",
            RegisterName::SP => "sp",
            RegisterName::BP => "bp",
            RegisterName::R8 => "r8",
            RegisterName::R9 => "r9",
            RegisterName::R10 => "r10",
            RegisterName::R11 => "r11",
            RegisterName::R12 => "r12",
            RegisterName::R13 => "r13",
            RegisterName::R14 => "r14",
            RegisterName::R15 => "r15",
        }
    }

    /// Whether this is one of `a`, `b`, `c`, `d`, whose full name has its
    /// letter in the middle.
    pub open spec fn spec_is_sandwich(self) -> bool {
        self is A || self is B || self is C || self is D
    }

    /// Whether this is one of `si`, `di`, `sp`, `bp`.
    pub open spec fn spec_is_pointer(self) -> bool {
        self is SI || self is DI || self is SP || self is BP
    }

    /// Whether this is one of `r8` to `r15`.
    pub open spec fn spec_is_numbered(self) -> bool {
        !self.spec_is_sandwich() && !self.spec_is_pointer()
    }

    /// Whether this is one of `a`, `b`, `c`, `d`.
    #[verifier::when_used_as_spec(spec_is_sandwich)]
    pub fn is_sandwich(self) -> (r: bool)
        ensures
            r == self.spec_is_sandwich(),
    {
        match self {
            RegisterName::A | RegisterName::B | RegisterName::C | RegisterName::D => true,
            _ => false,
        }
    }

    /// Whether this is one of `si`, `di`, `sp`, `bp`.
    #[verifier::when_used_as_spec(spec_is_pointer)]
    pub fn is_pointer(self) -> (r: bool)
        ensures
            r == self.spec_is_pointer(),
    {
        match self {
            RegisterName::SI | RegisterName::DI | RegisterName::SP | RegisterName::BP => true,
            _ => false,
        }
    }

    /// Whether this is one of `r8` to `r15`.
    #[verifier::when_used_as_spec(spec_is_numbered)]
    pub fn is_numbered(self) -> (r: bool)
        ensures
            r == self.spec_is_numbered(),
    {
        match self {
            RegisterName::R8
            | RegisterName::R9
            | RegisterName::R10
            | RegisterName::R11
            | RegisterName::R12
            | RegisterName::R13
            | RegisterName::R14
            | RegisterName::R15 => true,
            _ => false,
        }
    }

    /// The register of this name and the given size.
    pub fn with_size(self, size: Size) -> (r: Register)
        ensures
            r == Register(self, size),
    {
        Register(self, size)
    }

    /// The lowest byte of the register.
    pub fn byte(self) -> (r: Register)
        ensures
            r == Register(self, Size::Byte),
    {
        Register(self, Size::Byte)
    }

    /// The lowest two bytes of the register.
    pub fn word(self) -> (r: Register)
        ensures
            r == Register(self, Size::Word),
    {
        Register(self, Size::Word)
    }

    /// The lowest four bytes of the register.
    pub fn double(self) -> (r: Register)
        ensures
            r == Register(self, Size::Double),
    {
        Register(self, Size::Double)
    }

    /// The whole register.
    pub fn quad(self) -> (r: Register)
        ensures
            r == Register(self, Size::Quad),
    {
        Register(self, Size::Quad)
    }
}

/// A general register, or the low part of one.
#[derive(Copy, Clone, Debug, PartialEq, Eq, Hash, Structural)]
pub struct Register(pub RegisterName, pub Size);

impl Register {
    /// The memory that the register points to.
    pub fn memory(self) -> (r: Memory)
        ensures
            r == Memory::spec_sib().spec_base(self),
    {
        Memory::sib().base(self)
    }

    /// The memory `offset` bytes after where the register points to.
    pub fn offset(self, offset: ConstInt) -> (r: Memory)
        ensures
            r == Memory::spec_sib().spec_base(self).spec_offset(offset),
    {
        self.memory().offset(offset)
    }

    /// The memory where the register points to, `index` times `scale`
    /// bytes further on.
    pub fn index(self, index: Register, scale: Size) -> (r: Memory)
        ensures
            r == Memory::spec_sib().spec_base(self).spec_index(index, scale),
    {
        self.memory().index(index, scale)
    }

    /// The same register in another size.
    pub fn with_size(self, size: Size) -> (r: Register)
        ensures
            r == Register(self.0, size),
    {
        Register(self.0, size)
    }

    /// The lowest byte of the register.
    pub fn as_byte(self) -> (r: Register)
        ensures
            r == Register(self.0, Size::Byte),
    {
        self.with_size(Size::Byte)
    }

    /// The lowest two bytes of the register.
    pub fn as_word(self) -> (r: Register)
        ensures
            r == Register(self.0, Size::Word),
    {
        self.with_size(Size::Word)
    }

    /// The lowest four bytes of the register.
    pub fn as_double(self) -> (r: Register)
        ensures
            r == Register(self.0, Size::Double),
    {
        self.with_size(Size::Double)
    }

    /// The whole register.
    pub fn as_quad(self) -> (r: Register)
        ensures
            r == Register(self.0, Size::Quad),
    {
        self.with_size(Size::Quad)
    }

    /// What stands before and after the shared part of the name.
    pub open spec fn spec_affixes(self) -> (Seq<char>, Seq<char>) {
        if self.0.spec_is_sandwich() {
            self.1.spec_sandwich_affixes()
        } else if self.0.spec_is_pointer() {
            self.1.spec_pointer_affixes()
        } else {
            self.1.spec_numbered_affixes()
        }
    }

    /// The register as an operand in assembly text: a percent sign and its
    /// full name.
    pub open spec fn spec_text(self) -> Seq<char> {
        "%"@ + self.spec_affixes().0 + self.0.spec_name() + self.spec_affixes().1
    }

    /// The register as an operand in assembly text.
    pub fn text(self) -> (r: String)
        ensures
            r@ == self.spec_text(),
    {
        let (prefix, suffix) = if self.0.is_sandwich() {
            self.1.sandwich_affixes()
        } else if self.0.is_pointer() {
            self.1.pointer_affixes()
        } else {
            self.1.numbered_affixes()
        };
        let mut out = String::from_str("%");
        out.append(prefix);
        out.append(self.0.name());
        out.append(suffix);
        out
    }
}

/// The name of the `a` register.
pub fn a_name() -> (r: RegisterName)
    ensures
        r == RegisterName::A,
{
    RegisterName::A
}

/// The name of the `b` register.
pub fn b_name() -> (r: RegisterName)
    ensures
        r == RegisterName::B,
{
    RegisterName::B
}

/// The name of the `c` register.
pub fn c_name() -> (r: RegisterName)
    ensures
        r == RegisterName::C,
{
    RegisterName::C
}

/// The name of the `d` register.
pub fn d_name() -> (r: RegisterName)
    ensures
        r == RegisterName::D,
{
    RegisterName::D
}

/// The name of the `si` register.
pub fn si_name() -> (r: RegisterName)
    ensures
        r == RegisterName::SI,
{
    RegisterName::SI
}

/// The name of the `di` register.
pub fn di_name() -> (r: RegisterName)
    ensures
        r == RegisterName::DI,
{
    RegisterName::DI
}

/// The name of the `sp` register.
pub fn sp_name() -> (r: RegisterName)
    ensures
        r == RegisterName::SP,
{
    RegisterName::SP
}

/// The name of the `bp` register.
pub fn bp_name() -> (r: RegisterName)
    ensures
        r == RegisterName::BP,
{
    RegisterName::BP
}

/// The name of the numbered register `x`.
pub open spec fn spec_rx_name(x: u8) -> RegisterName {
    if x == 8 {
        RegisterName::R8
    } else if x == 9 {
        RegisterName::R9
    } else if x == 10 {
        RegisterName::R10
    } else if x == 11 {
        RegisterName::R11
    } else if x == 12 {
        RegisterName::R12
    } else if x == 13 {
        RegisterName::R13
    } else if x == 14 {
        RegisterName::R14
    } else {
        RegisterName::R15
    }
}

/// The name of the numbered register `x`, from 8 to 15.
#[verifier::when_used_as_spec(spec_rx_name)]
pub fn rx_name(x: u8) -> (r: RegisterName)
    requires
        8 <= x <= 15,
    ensures
        r == spec_rx_name(x),
{
    if x == 8 {
        RegisterName::R8
    } else if x == 9 {
        RegisterName::R9
    } else if x == 10 {
        RegisterName::R10
    } else if x == 11 {
        RegisterName::R11
    } else if x == 12 {
        RegisterName::R12
    } else if x == 13 {
        RegisterName::R13
    } else if x == 14 {
        RegisterName::R14
    } else {
        RegisterName::R15
    }
}

/// The register `rax`.
pub fn rax() -> (r: Register)
    ensures
        r == Register(RegisterName::A, Size::Quad),
{
    Register(RegisterName::A, Size::Quad)
}

/// The register `eax`.
pub fn eax() -> (r: Register)
    ensures
        r == Register(RegisterName::A, Size::Double),
{
    Register(RegisterName::A, Size::Double)
}

/// The register `ax`.
pub fn ax() -> (r: Register)
    ensures
        r == Register(RegisterName::A, Size::Word),
{
    Register(RegisterName::A, Size::Word)
}

/// The register `al`.
pub fn al() -> (r: Register)
    ensures
        r == Register(RegisterName::A, Size::Byte),
{
    Register(RegisterName::A, Size::Byte)
}

/// The register `rbx`.
pub fn rbx() -> (r: Register)
    ensures
        r == Register(RegisterName::B, Size::Quad),
{
    Register(RegisterName::B, Size::Quad)
}

/// The register `ebx`.
pub fn ebx() -> (r: Register)
    ensures
        r == Register(RegisterName::B, Size::Double),
{
    Register(RegisterName::B, Size::Double)
}

/// The register `bx`.
pub fn bx() -> (r: Register)
    ensures
        r == Register(RegisterName::B, Size::Word),
{
    Register(RegisterName::B, Size::Word)
}

/// The register `bl`.
pub fn bl() -> (r: Register)
    ensures
        r == Register(RegisterName::B, Size::Byte),
{
    Register(RegisterName::B, Size::Byte)
}

/// The register `rcx`.
pub fn rcx() -> (r: Register)
    ensures
        r == Register(RegisterName::C, Size::Quad),
{
    Register(RegisterName::C, Size::Quad)
}

/// The register `ecx`.
pub fn ecx() -> (r: Register)
    ensures
        r == Register(RegisterName::C, Size::Double),
{
    Register(RegisterName::C, Size::Double)
}

/// The register `cx`.
pub fn cx() -> (r: Register)
    ensures
        r == Register(RegisterName::C, Size::Word),
{
    Register(RegisterName::C, Size::Word)
}

/// The register `cl`.
pub fn cl() -> (r: Register)
    ensures
        r == Register(RegisterName::C, Size::Byte),
{
    Register(RegisterName::C, Size::Byte)
}

/// The register `rdx`.
pub fn rdx() -> (r: Register)
    ensures
        r == Register(RegisterName::D, Size::Quad),
{
    Register(RegisterName::D, Size::Quad)
}

/// The register `edx`.
pub fn edx() -> (r: Register)
    ensures
        r == Register(RegisterName::D, Size::Double),
{
    Register(RegisterName::D, Size::Double)
}

/// The register `dx`.
pub fn dx() -> (r: Register)
    ensures
        r == Register(RegisterName::D, Size::Word),
{
    Register(RegisterName::D, Size::Word)
}

/// The register `dl`.
pub fn dl() -> (r: Register)
    ensures
        r == Register(RegisterName::D, Size::Byte),
{
    Register(RegisterName::D, Size::Byte)
}

/// The register `rdi`.
pub fn rdi() -> (r: Register)
    ensures
        r == Register(RegisterName::DI, Size::Quad),
{
    Register(RegisterName::DI, Size::Quad)
}

/// The register `edi`.
pub fn edi() -> (r: Register)
    ensures
        r == Register(RegisterName::DI, Size::Double),
{
    Register(RegisterName::DI, Size::Double)
}

/// The register `di`.
pub fn di() -> (r: Register)
    ensures
        r == Register(RegisterName::DI, Size::Word),
{
    Register(RegisterName::DI, Size::Word)
}

/// The register `dil`.
pub fn dil() -> (r: Register)
    ensures
        r == Register(RegisterName::DI, Size::Byte),
{
    Register(RegisterName::DI, Size::Byte)
}

/// The register `rsi`.
pub fn rsi() -> (r: Register)
    ensures
        r == Register(RegisterName::SI, Size::Quad),
{
    Register(RegisterName::SI, Size::Quad)
}

/// The register `esi`.
pub fn esi() -> (r: Register)
    ensures
        r == Register(RegisterName::SI, Size::Double),
{
    Register(RegisterName::SI, Size::Double)
}

/// The register `si`.
pub fn si() -> (r: Register)
    ensures
        r == Register(RegisterName::SI, Size::Word),
{
    Register(RegisterName::SI, Size::Word)
}

/// The register `sil`.
pub fn sil() -> (r: Register)
    ensures
        r == Register(RegisterName::SI, Size::Byte),
{
    Register(RegisterName::SI, Size::Byte)
}

/// The register `rsp`.
pub fn rsp() -> (r: Register)
    ensures
        r == Register(RegisterName::SP, Size::Quad),
{
    Register(RegisterName::SP, Size::Quad)
}

/// The register `esp`.
pub fn esp() -> (r: Register)
    ensures
        r == Register(RegisterName::SP, Size::Double),
{
    Register(RegisterName::SP, Size::Double)
}

/// The register `sp`.
pub fn sp() -> (r: Register)
    ensures
        r == Register(RegisterName::SP, Size::Word),
{
    Register(RegisterName::SP, Size::Word)
}

/// The register `spl`.
pub fn spl() -> (r: Register)
    ensures
        r == Register(RegisterName::SP, Size::Byte),
{
    Register(RegisterName::SP, Size::Byte)
}

/// The register `rbp`.
pub fn rbp() -> (r: Register)
    ensures
        r == Register(RegisterName::BP, Size::Quad),
{
    Register(RegisterName::BP, Size::Quad)
}

/// The register `ebp`.
pub fn ebp() -> (r: Register)
    ensures
        r == Register(RegisterName::BP, Size::Double),
{
    Register(RegisterName::BP, Size::Double)
}

/// The register `bp`.
pub fn bp() -> (r: Register)
    ensures
        r == Register(RegisterName::BP, Size::Word),
{
    Register(RegisterName::BP, Size::Word)
}

/// The register `bpl`.
pub fn bpl() -> (r: Register)
    ensures
        r == Register(RegisterName::BP, Size::Byte),
{
    Register(RegisterName::BP, Size::Byte)
}

/// The numbered register `x`, whole.
pub fn rx(x: u8) -> (r: Register)
    requires
        8 <= x <= 15,
    ensures
        r == Register(spec_rx_name(x), Size::Quad),
{
    Register(rx_name(x), Size::Quad)
}

/// The lowest four bytes of the numbered register `x`.
pub fn rxd(x: u8) -> (r: Register)
    requires
        8 <= x <= 15,
    ensures
        r == Register(spec_rx_name(x), Size::Double),
{
    Register(rx_name(x), Size::Double)
}

/// The lowest two bytes of the numbered register `x`.
pub fn rxw(x: u8) -> (r: Register)
    requires
        8 <= x <= 15,
    ensures
        r == Register(spec_rx_name(x), Size::Word),
{
    Register(rx_name(x), Size::Word)
}

/// The lowest byte of the numbered register `x`.
pub fn rxb(x: u8) -> (r: Register)
    requires
        8 <= x <= 15,
    ensures
        r == Register(spec_rx_name(x), Size::Byte),
{
    Register(rx_name(x), Size::Byte)
}

} // verus!
