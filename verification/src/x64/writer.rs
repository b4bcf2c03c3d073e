//! The lines of assembly code and the writer that collects them.

use super::args::Arg;
use super::label::{names_of, Label};
use super::size::Size;
use vstd::prelude::*;
use vstd::string::StringExecFns;

verus! {

/// The outcome of a comparison that a conditional instruction asks for.
/// `Greater` and `Less` are for signed numbers, `Above` and `Below` for
/// unsigned ones.
#[derive(Copy, Clone, Debug, PartialEq, Eq, Hash, Structural)]
pub enum Cond {
    Equal,
    NotEqual,
    Greater,
    GreaterEqual,
    Less,
    LessEqual,
    Above,
    AboveEqual,
    Below,
    BelowEqual,
}

impl Cond {
    /// The letters that stand for the condition in a mnemonic.
    pub open spec fn spec_letters(self) -> Seq<char> {
        match self {
            Cond::Equal => "e"@,
            Cond::NotEqual => "ne"@,
            Cond::Greater => "g"@,
            Cond::GreaterEqual => "ge"@,
            Cond::Less => "l"@,
            Cond::LessEqual => "le"@,
            Cond::Above => "a"@,
            Cond::AboveEqual => "ae"@,
            Cond::Below => "b"@,
            Cond::BelowEqual => "be"@,
        }
    }

    /// The letters that stand for the condition in a mnemonic.
    pub fn letters(self) -> (r: &'static str)
        ensures
            r@ == self.spec_letters(),
    {
        match self {
            Cond::Equal => "e",
            Cond::NotEqual => "ne",
            Cond::Greater => "g",
            Cond::GreaterEqual => "ge",
            Cond::Less => "l",
            Cond::LessEqual => "le",
            Cond::Above => "a",
            Cond::AboveEqual => "ae",
            Cond::Below => "b",
            Cond::BelowEqual => "be",
        }
    }
}

/// What a machine instruction does.
#[derive(Copy, Clone, Debug, PartialEq, Eq, Hash, Structural)]
pub enum Opcode {
    Push,
    Pop,
    Mov,
    MovZeroExtend,
    MovSignExtend,
    Lea,
    Add,
    Sub,
    IMul,
    And,
    Or,
    Xor,
    Not,
    Neg,
    Shl,
    Shr,
    Sar,
    Cmp,
    /// Divides `d:a` by the operand, both taken as unsigned numbers: the
    /// quotient goes to `a`, the remainder to `d`.
    Div,
    /// Divides `d:a` by the operand, both taken as signed numbers.
    IDiv,
    /// Fills `dx` with the sign of `ax`.
    Cwd,
    /// Fills `edx` with the sign of `eax`.
    Cdq,
    /// Fills `rdx` with the sign of `rax`.
    Cqo,
    Jmp,
    Call,
    Ret,
    Syscall,
    /// Jumps if the condition holds.
    JumpIf(Cond),
    /// Writes 1 if the condition holds, else 0.
    SetIf(Cond),
    /// Copies if the condition holds.
    MovIf(Cond),
}

impl Opcode {
    /// The mnemonic without the letters for operand sizes.
    pub open spec fn spec_mnemonic(self) -> Seq<char> {
        match self {
            Opcode::Push => "push"@,
            Opcode::Pop => "pop"@,
            Opcode::Mov => "mov"@,
            Opcode::MovZeroExtend => "movz"@,
            Opcode::MovSignExtend => "movs"@,
            Opcode::Lea => "lea"@,
            Opcode::Add => "add"@,
            Opcode::Sub => "sub"@,
            Opcode::IMul => "imul"@,
            Opcode::And => "and"@,
            Opcode::Or => "or"@,
            Opcode::Xor => "xor"@,
            Opcode::Not => "not"@,
            Opcode::Neg => "neg"@,
            Opcode::Shl => "shl"@,
            Opcode::Shr => "shr"@,
            Opcode::Sar => "sar"@,
            Opcode::Cmp => "cmp"@,
            Opcode::Div => "div"@,
            Opcode::IDiv => "idiv"@,
            Opcode::Cwd => "cwtd"@,
            Opcode::Cdq => "cltd"@,
            Opcode::Cqo => "cqto"@,
            Opcode::Jmp => "jmp"@,
            Opcode::Call => "call"@,
            Opcode::Ret => "ret"@,
            Opcode::Syscall => "syscall"@,
            Opcode::JumpIf(c) => "j"@ + c.spec_letters(),
            Opcode::SetIf(c) => "set"@ + c.spec_letters(),
            Opcode::MovIf(c) => "cmov"@ + c.spec_letters(),
        }
    }

    /// Appends the mnemonic, without the letters for operand sizes, to
    /// `out`.
    pub fn push_mnemonic(self, out: &mut String)
        ensures
            final(out)@ == old(out)@ + self.spec_mnemonic(),
    {
        match self {
            Opcode::Push => out.append("push"),
            Opcode::Pop => out.append("pop"),
            Opcode::Mov => out.append("mov"),
            Opcode::MovZeroExtend => out.append("movz"),
            Opcode::MovSignExtend => out.append("movs"),
            Opcode::Lea => out.append("lea"),
            Opcode::Add => out.append("add"),
            Opcode::Sub => out.append("sub"),
            Opcode::IMul => out.append("imul"),
            Opcode::And => out.append("and"),
            Opcode::Or => out.append("or"),
            Opcode::Xor => out.append("xor"),
            Opcode::Not => out.append("not"),
            Opcode::Neg => out.append("neg"),
            Opcode::Shl => out.append("shl"),
            Opcode::Shr => out.append("shr"),
            Opcode::Sar => out.append("sar"),
            Opcode::Cmp => out.append("cmp"),
            Opcode::Div => out.append("div"),
            Opcode::IDiv => out.append("idiv"),
            Opcode::Cwd => out.append("cwtd"),
            Opcode::Cdq => out.append("cltd"),
            Opcode::Cqo => out.append("cqto"),
            Opcode::Jmp => out.append("jmp"),
            Opcode::Call => out.append("call"),
            Opcode::Ret => out.append("ret"),
            Opcode::Syscall => out.append("syscall"),
            Opcode::JumpIf(c) => {
                out.append("j");
                out.append(c.letters());
                assert(out@ =~= old(out)@ + self.spec_mnemonic());
            },
            Opcode::SetIf(c) => {
                out.append("set");
                out.append(c.letters());
                assert(out@ =~= old(out)@ + self.spec_mnemonic());
            },
            Opcode::MovIf(c) => {
                out.append("cmov");
                out.append(c.letters());
                assert(out@ =~= old(out)@ + self.spec_mnemonic());
            },
        }
    }

    /// Whether the instruction transfers control: its operand is where it
    /// goes, and the mnemonic carries no letter for a size.
    pub open spec fn spec_is_transfer(self) -> bool {
        self is Jmp || self is Call || self is JumpIf
    }

    /// Whether the instruction transfers control.
    #[verifier::when_used_as_spec(spec_is_transfer)]
    pub fn is_transfer(self) -> (r: bool)
        ensures
            r == self.spec_is_transfer(),
    {
        match self {
            Opcode::Jmp | Opcode::Call | Opcode::JumpIf(_) => true,
            _ => false,
        }
    }

    /// Whether the instruction widens its source: the mnemonic carries the
    /// letters of both sizes.
    pub open spec fn spec_is_widening(self) -> bool {
        self is MovZeroExtend || self is MovSignExtend
    }

    /// Whether the instruction widens its source.
    #[verifier::when_used_as_spec(spec_is_widening)]
    pub fn is_widening(self) -> (r: bool)
        ensures
            r == self.spec_is_widening(),
    {
        match self {
            Opcode::MovZeroExtend | Opcode::MovSignExtend => true,
            _ => false,
        }
    }
}

/// The letter for an operand size, or nothing where the size is not
/// known.
pub open spec fn suffix_of(size: Option<Size>) -> Seq<char> {
    match size {
        Some(s) => s.spec_suffix(),
        None => Seq::empty(),
    }
}

fn push_suffix(out: &mut String, size: Option<Size>)
    ensures
        final(out)@ == old(out)@ + suffix_of(size),
{
    match size {
        Some(s) => out.append(s.suffix()),
        None => {
            assert(out@ =~= old(out)@ + suffix_of(size));
        },
    }
}

/// One line of assembly code.
#[derive(Copy, Clone, Debug, PartialEq, Eq, Hash, Structural)]
pub enum Line {
    /// What follows is code.
    Text,
    /// The label is visible to other compilation units.
    Global(Label),
    /// The place that the label names.
    Label(Label),
    /// An instruction without operands.
    Op0(Opcode),
    /// An instruction with one operand.
    Op1(Opcode, Arg),
    /// An instruction with two operands: first the one that it writes, or
    /// compares; then the one that it only reads.
    Op2(Opcode, Arg, Arg),
}

impl Line {
    /// Whether the line can be written down with the symbols `names`.
    pub open spec fn known(self, names: Seq<Seq<char>>) -> bool {
        match self {
            Line::Global(l) => l.known(names),
            Line::Label(l) => l.known(names),
            Line::Op1(_, a) => a.known(names),
            Line::Op2(_, a, b) => a.known(names) && b.known(names),
            _ => true,
        }
    }

    /// The line as text, in the syntax where the source stands before the
    /// destination.
    pub open spec fn spec_text(self, names: Seq<Seq<char>>) -> Seq<char> {
        match self {
            Line::Text => "\t.text\n"@,
            Line::Global(l) => "\t.globl\t"@ + l.spec_text(names) + "\n"@,
            Line::Label(l) => l.spec_text(names) + ":\n"@,
            Line::Op0(op) => "\t"@ + op.spec_mnemonic() + "\n"@,
            Line::Op1(op, a) => op1_text(op, a, names),
            Line::Op2(op, dst, src) => op2_text(op, dst, src, names),
        }
    }

    /// Appends the line as text to `out`.
    pub fn push_text(self, out: &mut String, symbols: &Vec<String>)
        requires
            self.known(names_of(symbols@)),
        ensures
            final(out)@ == old(out)@ + self.spec_text(names_of(symbols@)),
    {
        match self {
            Line::Text => out.append("\t.text\n"),
            Line::Global(l) => {
                out.append("\t.globl\t");
                l.push_text(out, symbols);
                out.append("\n");
                assert(out@ =~= old(out)@ + self.spec_text(names_of(symbols@)));
            },
            Line::Label(l) => {
                l.push_text(out, symbols);
                out.append(":\n");
                assert(out@ =~= old(out)@ + self.spec_text(names_of(symbols@)));
            },
            Line::Op0(op) => {
                out.append("\t");
                op.push_mnemonic(out);
                out.append("\n");
                assert(out@ =~= old(out)@ + self.spec_text(names_of(symbols@)));
            },
            Line::Op1(op, a) => push_op1(out, op, a, symbols),
            Line::Op2(op, dst, src) => push_op2(out, op, dst, src, symbols),
        }
    }
}

/// The letters for operand sizes that the mnemonic `op` carries with the
/// operand `a`: none for a transfer of control or a conditional write.
pub open spec fn op1_suffix(op: Opcode, a: Arg) -> Seq<char> {
    if op.spec_is_transfer() || op is SetIf {
        Seq::empty()
    } else {
        suffix_of(a.spec_size())
    }
}

/// What stands before the operand of `op`: a star where control is
/// transferred to an address held in a register or in memory.
pub open spec fn op1_mark(op: Opcode, a: Arg) -> Seq<char> {
    if op.spec_is_transfer() && !(a is Label) {
        "*"@
    } else {
        Seq::empty()
    }
}

/// The text of an instruction with one operand.
pub open spec fn op1_text(op: Opcode, a: Arg, names: Seq<Seq<char>>) -> Seq<char> {
    "\t"@ + op.spec_mnemonic() + op1_suffix(op, a) + "\t"@ + op1_mark(op, a) + a.spec_text(names)
        + "\n"@
}

/// The letters for operand sizes that the mnemonic `op` carries with the
/// operands `dst` and `src`: for a widening move those of the source and
/// of the destination; else that of the destination, or of the source
/// where the destination has no size.
pub open spec fn op2_suffix(op: Opcode, dst: Arg, src: Arg) -> Seq<char> {
    if op.spec_is_widening() {
        suffix_of(src.spec_size()) + suffix_of(dst.spec_size())
    } else if dst.spec_size() is Some {
        suffix_of(dst.spec_size())
    } else {
        suffix_of(src.spec_size())
    }
}

/// The text of an instruction with two operands: the source stands before
/// the destination.
pub open spec fn op2_text(op: Opcode, dst: Arg, src: Arg, names: Seq<Seq<char>>) -> Seq<char> {
    "\t"@ + op.spec_mnemonic() + op2_suffix(op, dst, src) + "\t"@ + src.spec_text(names) + ", "@
        + dst.spec_text(names) + "\n"@
}

fn push_op1(out: &mut String, op: Opcode, a: Arg, symbols: &Vec<String>)
    requires
        a.known(names_of(symbols@)),
    ensures
        final(out)@ == old(out)@ + op1_text(op, a, names_of(symbols@)),
{
    out.append("\t");
    op.push_mnemonic(out);
    let plain = op.is_transfer() || match op {
        Opcode::SetIf(_) => true,
        _ => false,
    };
    if !plain {
        push_suffix(out, a.size());
    }
    let ghost s1 = out@;
    assert(s1 =~= old(out)@ + "\t"@ + op.spec_mnemonic() + op1_suffix(op, a));
    out.append("\t");
    let direct = match a {
        Arg::Label(_) => true,
        _ => false,
    };
    if op.is_transfer() && !direct {
        out.append("*");
    }
    let ghost s2 = out@;
    assert(s2 =~= s1 + "\t"@ + op1_mark(op, a));
    a.push_text(out, symbols);
    out.append("\n");
    assert(out@ =~= old(out)@ + op1_text(op, a, names_of(symbols@)));
}

fn push_op2(out: &mut String, op: Opcode, dst: Arg, src: Arg, symbols: &Vec<String>)
    requires
        dst.known(names_of(symbols@)),
        src.known(names_of(symbols@)),
    ensures
        final(out)@ == old(out)@ + op2_text(op, dst, src, names_of(symbols@)),
{
    out.append("\t");
    op.push_mnemonic(out);
    if op.is_widening() {
        push_suffix(out, src.size());
        push_suffix(out, dst.size());
    } else if dst.size().is_some() {
        push_suffix(out, dst.size());
    } else {
        push_suffix(out, src.size());
    }
    let ghost s1 = out@;
    assert(s1 =~= old(out)@ + "\t"@ + op.spec_mnemonic() + op2_suffix(op, dst, src));
    out.append("\t");
    src.push_text(out, symbols);
    out.append(", ");
    dst.push_text(out, symbols);
    out.append("\n");
    assert(out@ =~= s1 + "\t"@ + src.spec_text(names_of(symbols@)) + ", "@ + dst.spec_text(
        names_of(symbols@),
    ) + "\n"@);
    assert(out@ =~= old(out)@ + op2_text(op, dst, src, names_of(symbols@)));
}

/// The text of the lines `lines`, one after the other.
pub open spec fn program_text(lines: Seq<Line>, names: Seq<Seq<char>>) -> Seq<char>
    decreases lines.len(),
{
    if lines.len() == 0 {
        Seq::empty()
    } else {
        program_text(lines.drop_last(), names) + lines.last().spec_text(names)
    }
}

/// Whether each of the lines can be written down with the symbols `names`.
pub open spec fn all_known(lines: Seq<Line>, names: Seq<Seq<char>>) -> bool {
    forall|i: int| 0 <= i < lines.len() ==> (#[trigger] lines[i]).known(names)
}

/// The lines `lines` as text, with `symbols` as the names of the
/// functions.
pub fn write_program(lines: &Vec<Line>, symbols: &Vec<String>) -> (r: String)
    requires
        all_known(lines@, names_of(symbols@)),
    ensures
        r@ == program_text(lines@, names_of(symbols@)),
{
    let mut out = String::new();
    let mut i: usize = 0;
    while i < lines.len()
        invariant
            0 <= i <= lines@.len(),
            all_known(lines@, names_of(symbols@)),
            out@ == program_text(lines@.take(i as int), names_of(symbols@)),
        decreases lines@.len() - i,
    {
        lines[i].push_text(&mut out, symbols);
        proof {
            assert(lines@.take(i + 1).drop_last() =~= lines@.take(i as int));
        }
        i += 1;
    }
    assert(lines@.take(lines@.len() as int) =~= lines@);
    out
}

/// Collects the lines of a program in the order in which they are built.
pub struct AsmWriter {
    lines: Vec<Line>,
}

impl View for AsmWriter {
    type V = Seq<Line>;

    closed spec fn view(&self) -> Seq<Line> {
        self.lines@
    }
}

impl AsmWriter {
    /// A writer without lines.
    pub fn new() -> (r: Self)
        ensures
            r@ == Seq::<Line>::empty(),
    {
        Self { lines: Vec::new() }
    }

    /// Hands back the lines that were written.
    pub fn finish(self) -> (r: Vec<Line>)
        ensures
            r@ == self@,
    {
        self.lines
    }

    /// Appends a line.
    pub fn emit(&mut self, line: Line)
        ensures
            final(self)@ == old(self)@.push(line),
    {
        self.lines.push(line);
    }

    /// Starts the code section.
    pub fn begin_text(&mut self)
        ensures
            final(self)@ == old(self)@.push(Line::Text),
    {
        self.emit(Line::Text);
    }

    /// Makes `label` visible to other compilation units.
    pub fn declare_global(&mut self, label: Label)
        ensures
            final(self)@ == old(self)@.push(Line::Global(label)),
    {
        self.emit(Line::Global(label));
    }

    /// Lets `label` name the place of the next line.
    pub fn emit_label(&mut self, label: Label)
        ensures
            final(self)@ == old(self)@.push(Line::Label(label)),
    {
        self.emit(Line::Label(label));
    }

    /// Appends an instruction without operands.
    pub fn build0(&mut self, op: Opcode)
        ensures
            final(self)@ == old(self)@.push(Line::Op0(op)),
    {
        self.emit(Line::Op0(op));
    }

    /// Appends an instruction with one operand.
    pub fn build1(&mut self, op: Opcode, a: Arg)
        ensures
            final(self)@ == old(self)@.push(Line::Op1(op, a)),
    {
        self.emit(Line::Op1(op, a));
    }

    /// Appends an instruction that writes, or compares, `dst` and reads
    /// `src`.
    pub fn build2(&mut self, op: Opcode, dst: Arg, src: Arg)
        ensures
            final(self)@ == old(self)@.push(Line::Op2(op, dst, src)),
    {
        self.emit(Line::Op2(op, dst, src));
    }

    /// Pushes `a` on the stack.
    pub fn build_push(&mut self, a: Arg)
        ensures
            final(self)@ == old(self)@.push(Line::Op1(Opcode::Push, a)),
    {
        self.emit(Line::Op1(Opcode::Push, a));
    }

    /// Pops the top of the stack into `a`.
    pub fn build_pop(&mut self, a: Arg)
        ensures
            final(self)@ == old(self)@.push(Line::Op1(Opcode::Pop, a)),
    {
        self.emit(Line::Op1(Opcode::Pop, a));
    }

    /// Copies `src` to `dst`.
    pub fn build_mov(&mut self, dst: Arg, src: Arg)
        ensures
            final(self)@ == old(self)@.push(Line::Op2(Opcode::Mov, dst, src)),
    {
        self.emit(Line::Op2(Opcode::Mov, dst, src));
    }

    /// Adds `src` to `dst`.
    pub fn build_add(&mut self, dst: Arg, src: Arg)
        ensures
            final(self)@ == old(self)@.push(Line::Op2(Opcode::Add, dst, src)),
    {
        self.emit(Line::Op2(Opcode::Add, dst, src));
    }

    /// Subtracts `src` from `dst`.
    pub fn build_sub(&mut self, dst: Arg, src: Arg)
        ensures
            final(self)@ == old(self)@.push(Line::Op2(Opcode::Sub, dst, src)),
    {
        self.emit(Line::Op2(Opcode::Sub, dst, src));
    }

    /// Writes the address of `src` to `dst`.
    pub fn build_lea(&mut self, dst: Arg, src: Arg)
        ensures
            final(self)@ == old(self)@.push(Line::Op2(Opcode::Lea, dst, src)),
    {
        self.emit(Line::Op2(Opcode::Lea, dst, src));
    }

    /// Compares `dst` with `src`.
    pub fn build_cmp(&mut self, dst: Arg, src: Arg)
        ensures
            final(self)@ == old(self)@.push(Line::Op2(Opcode::Cmp, dst, src)),
    {
        self.emit(Line::Op2(Opcode::Cmp, dst, src));
    }

    /// Returns to the caller.
    pub fn build_ret(&mut self)
        ensures
            final(self)@ == old(self)@.push(Line::Op0(Opcode::Ret)),
    {
        self.emit(Line::Op0(Opcode::Ret));
    }
}


/// Whether the label can be written down with `symbols` symbols.
pub fn label_known(label: Label, symbols: usize) -> (r: bool)
    ensures
        r == (label matches Label::Function(i) ==> i < symbols),
{
    match label {
        Label::Function(i) => i < symbols,
        _ => true,
    }
}

/// Whether the operand can be written down with `symbols` symbols.
pub fn arg_known(arg: Arg, symbols: usize) -> (r: bool)
    ensures
        forall|names: Seq<Seq<char>>| names.len() == symbols ==> r == #[trigger] arg.known(names),
{
    match arg {
        Arg::Label(l) => label_known(l, symbols),
        Arg::Memory(m) => match m.displacement_label {
            Some(l) => label_known(l, symbols),
            None => true,
        },
        _ => true,
    }
}

/// Whether the line can be written down with `symbols` symbols.
pub fn line_known(line: Line, symbols: usize) -> (r: bool)
    ensures
        forall|names: Seq<Seq<char>>| names.len() == symbols ==> r == #[trigger] line.known(names),
{
    match line {
        Line::Global(l) => label_known(l, symbols),
        Line::Label(l) => label_known(l, symbols),
        Line::Op1(_, a) => arg_known(a, symbols),
        Line::Op2(_, a, b) => arg_known(a, symbols) && arg_known(b, symbols),
        _ => true,
    }
}

/// The lines `lines` as text, with `symbols` as the names of the
/// functions, or `None` where a line names a function that has no name
/// among `symbols`.
pub fn write_checked(lines: &Vec<Line>, symbols: &Vec<String>) -> (r: Option<String>)
    ensures
        match r {
            Some(text) => all_known(lines@, names_of(symbols@)) && text@ == program_text(
                lines@,
                names_of(symbols@),
            ),
            None => !all_known(lines@, names_of(symbols@)),
        },
{
    let n = symbols.len();
    let mut i: usize = 0;
    while i < lines.len()
        invariant
            0 <= i <= lines@.len(),
            n == symbols@.len(),
            forall|k: int| 0 <= k < i ==> (#[trigger] lines@[k]).known(names_of(symbols@)),
        decreases lines@.len() - i,
    {
        assert(names_of(symbols@).len() == n);
        if !line_known(lines[i], n) {
            return None;
        }
        i += 1;
    }
    Some(write_program(lines, symbols))
}

} // verus!
