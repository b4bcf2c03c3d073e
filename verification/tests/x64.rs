use lowir::util::text::{int_string, nat_string};
use lowir::x64::args::{Arg, ConstInt, Memory, MemoryKind};
use lowir::x64::label::Label;
use lowir::x64::register::{
    al, ax, bpl, cl, dil, eax, rax, rbp, rcx, rdi, rsi, rsp, rx, rx_name, rxb, rxd, rxw, sil, spl,
    Register, RegisterName,
};
use lowir::x64::size::Size;
use lowir::x64::writer::{write_checked, write_program, AsmWriter, Cond, Line, Opcode};

fn no_symbols() -> Vec<String> {
    Vec::new()
}

fn arg_text(arg: Arg) -> String {
    let mut out = String::new();
    arg.push_text(&mut out, &no_symbols());
    out
}

fn line_text(line: Line) -> String {
    let mut out = String::new();
    line.push_text(&mut out, &no_symbols());
    out
}

#[test]
fn numbers_in_decimal() {
    assert_eq!(nat_string(0), "0");
    assert_eq!(nat_string(7), "7");
    assert_eq!(nat_string(10), "10");
    assert_eq!(nat_string(1234567890), "1234567890");
    assert_eq!(nat_string(u128::MAX), "340282366920938463463374607431768211455");
    assert_eq!(int_string(0), "0");
    assert_eq!(int_string(-1), "-1");
    assert_eq!(int_string(-4096), "-4096");
    assert_eq!(int_string(i128::MIN), "-170141183460469231731687303715884105728");
    assert_eq!(int_string(i128::MAX), "170141183460469231731687303715884105727");
}

#[test]
fn size_tables() {
    assert_eq!(Size::Byte.suffix(), "b");
    assert_eq!(Size::Word.suffix(), "w");
    assert_eq!(Size::Double.suffix(), "l");
    assert_eq!(Size::Quad.suffix(), "q");
    assert_eq!(Size::Byte.sandwich_affixes(), ("", "l"));
    assert_eq!(Size::Word.sandwich_affixes(), ("", "x"));
    assert_eq!(Size::Double.sandwich_affixes(), ("e", "x"));
    assert_eq!(Size::Quad.sandwich_affixes(), ("r", "x"));
    assert_eq!(Size::Byte.pointer_affixes(), ("", "l"));
    assert_eq!(Size::Word.pointer_affixes(), ("", ""));
    assert_eq!(Size::Double.pointer_affixes(), ("e", ""));
    assert_eq!(Size::Quad.pointer_affixes(), ("r", ""));
    assert_eq!(Size::Byte.numbered_affixes(), ("", "b"));
    assert_eq!(Size::Word.numbered_affixes(), ("", "w"));
    assert_eq!(Size::Double.numbered_affixes(), ("", "d"));
    assert_eq!(Size::Quad.numbered_affixes(), ("", ""));
    assert_eq!(Size::Byte.in_bytes(), 1);
    assert_eq!(Size::Word.in_bytes(), 2);
    assert_eq!(Size::Double.in_bytes(), 4);
    assert_eq!(Size::Quad.in_bytes(), 8);
    assert_eq!(Size::of_bytes(4), Some(Size::Double));
    assert_eq!(Size::of_bytes(3), None);
    assert!(Size::Byte.is_below(Size::Word));
    assert!(!Size::Quad.is_below(Size::Quad));
    assert!(Size::Byte < Size::Word);
    assert!(Size::Word < Size::Double);
    assert!(Size::Quad > Size::Double);
    assert!(Size::Quad >= Size::Quad);
    assert_eq!(Size::Double.partial_cmp(&Size::Double), Some(std::cmp::Ordering::Equal));
    assert_eq!(Size::Double.partial_cmp(&Size::Byte), Some(std::cmp::Ordering::Greater));
}

#[test]
fn register_names() {
    assert_eq!(rax().text(), "%rax");
    assert_eq!(eax().text(), "%eax");
    assert_eq!(ax().text(), "%ax");
    assert_eq!(al().text(), "%al");
    assert_eq!(cl().text(), "%cl");
    assert_eq!(rdi().text(), "%rdi");
    assert_eq!(dil().text(), "%dil");
    assert_eq!(sil().text(), "%sil");
    assert_eq!(rsp().text(), "%rsp");
    assert_eq!(spl().text(), "%spl");
    assert_eq!(bpl().text(), "%bpl");
    assert_eq!(rsi().as_double().text(), "%esi");
    assert_eq!(rsi().as_word().text(), "%si");
    assert_eq!(rx(8).text(), "%r8");
    assert_eq!(rxd(9).text(), "%r9d");
    assert_eq!(rxw(10).text(), "%r10w");
    assert_eq!(rxb(15).text(), "%r15b");
    assert_eq!(rx_name(12), RegisterName::R12);
    assert_eq!(RegisterName::B.with_size(Size::Word), Register(RegisterName::B, Size::Word));
    assert_eq!(RegisterName::D.byte().text(), "%dl");
    assert_eq!(RegisterName::D.word().text(), "%dx");
    assert_eq!(RegisterName::D.double().text(), "%edx");
    assert_eq!(RegisterName::D.quad().text(), "%rdx");
    assert_eq!(rcx().as_byte(), cl());
    assert_eq!(rcx().as_quad(), rcx());
    assert_eq!(rcx().with_size(Size::Byte), cl());
}

#[test]
fn constants() {
    assert!(ConstInt::I8(0).is_zero());
    assert!(ConstInt::U64(0).is_zero());
    assert!(!ConstInt::U16(3).is_zero());
    assert!(ConstInt::I32(-1).is_negative());
    assert!(!ConstInt::I32(0).is_negative());
    assert!(!ConstInt::U32(u32::MAX).is_negative());
    assert_eq!(ConstInt::I32(40).plus(ConstInt::I32(2)), ConstInt::I32(42));
    assert_eq!(ConstInt::U64(40).plus(ConstInt::U64(2)), ConstInt::U64(42));
    assert_eq!(arg_text(Arg::Int(ConstInt::I16(-300))), "$-300");
    assert_eq!(arg_text(Arg::Int(ConstInt::U64(u64::MAX))), "$18446744073709551615");
    assert_eq!(arg_text(Arg::Int(ConstInt::I64(i64::MIN))), "$-9223372036854775808");
}

#[test]
fn memory_operands() {
    assert_eq!(arg_text(Arg::Memory(rbp().memory())), "(%rbp)");
    assert_eq!(arg_text(Arg::Memory(rbp().offset(ConstInt::I32(-8)))), "-8(%rbp)");
    assert_eq!(arg_text(Arg::Memory(rbp().offset(ConstInt::I32(0)))), "(%rbp)");
    assert_eq!(arg_text(Arg::Memory(rbp().index(rcx(), Size::Quad))), "(%rbp, %rcx, 8)");
    assert_eq!(arg_text(Arg::Memory(rbp().index(rcx(), Size::Byte))), "(%rbp, %rcx)");
    assert_eq!(arg_text(Arg::Memory(Memory::sib().index(rcx(), Size::Double))), "(, %rcx, 4)");
    assert_eq!(arg_text(Arg::Memory(Memory::sib().offset(ConstInt::U32(4096)))), "4096");
    assert_eq!(
        arg_text(Arg::Memory(
            rbp().offset(ConstInt::I32(-8)).offset(ConstInt::I32(-8)).size(Size::Quad)
        )),
        "-16(%rbp)"
    );
    assert_eq!(arg_text(Arg::Memory(Memory::rip().label(Label::Block(3)))), ".LBB3(%rip)");
    assert_eq!(
        arg_text(Arg::Memory(Memory::rip().label(Label::Block(3)).offset(ConstInt::I32(8)))),
        ".LBB3+8(%rip)"
    );
    assert_eq!(
        arg_text(Arg::Memory(Memory::rip().label(Label::Block(3)).offset(ConstInt::I32(-8)))),
        ".LBB3-8(%rip)"
    );
    assert_eq!(Memory::rip().kind, MemoryKind::Rip);
    let sized = rbp().memory().size(Size::Word);
    assert_eq!(Arg::Memory(sized).size(), Some(Size::Word));
    assert_eq!(Arg::Memory(rbp().memory()).size(), None);
    assert_eq!(Arg::Register(eax()).size(), Some(Size::Double));
    assert_eq!(Arg::Int(ConstInt::U8(1)).size(), Some(Size::Byte));
    assert_eq!(Arg::Label(Label::Block(0)).size(), None);
    assert!(Arg::Register(eax()).is_register());
    assert!(!Arg::Register(eax()).is_memory());
    assert!(Arg::Memory(sized).is_memory());
}

#[test]
fn labels() {
    let symbols = vec![String::from("main"), String::from("helper")];
    let mut out = String::new();
    Label::Function(1).push_text(&mut out, &symbols);
    out.push(' ');
    Label::Block(12).push_text(&mut out, &symbols);
    out.push(' ');
    Label::Otherwise(12).push_text(&mut out, &symbols);
    assert_eq!(out, "helper .LBB12 .LBB12_else");
}

#[test]
fn lines_of_assembly() {
    assert_eq!(line_text(Line::Text), "\t.text\n");
    assert_eq!(line_text(Line::Label(Label::Block(4))), ".LBB4:\n");
    assert_eq!(line_text(Line::Global(Label::Block(4))), "\t.globl\t.LBB4\n");
    assert_eq!(line_text(Line::Op0(Opcode::Ret)), "\tret\n");
    assert_eq!(line_text(Line::Op0(Opcode::Syscall)), "\tsyscall\n");
    assert_eq!(line_text(Line::Op1(Opcode::Push, Arg::Register(rbp()))), "\tpushq\t%rbp\n");
    assert_eq!(line_text(Line::Op1(Opcode::Not, Arg::Register(ax()))), "\tnotw\t%ax\n");
    assert_eq!(
        line_text(Line::Op1(Opcode::Jmp, Arg::Label(Label::Block(2)))),
        "\tjmp\t.LBB2\n"
    );
    assert_eq!(
        line_text(Line::Op1(Opcode::JumpIf(Cond::Equal), Arg::Label(Label::Otherwise(2)))),
        "\tje\t.LBB2_else\n"
    );
    assert_eq!(line_text(Line::Op1(Opcode::Call, Arg::Register(rax()))), "\tcall\t*%rax\n");
    assert_eq!(
        line_text(Line::Op1(Opcode::SetIf(Cond::BelowEqual), Arg::Register(al()))),
        "\tsetbe\t%al\n"
    );
    assert_eq!(
        line_text(Line::Op2(Opcode::Mov, Arg::Register(rbp()), Arg::Register(rsp()))),
        "\tmovq\t%rsp, %rbp\n"
    );
    assert_eq!(
        line_text(Line::Op2(
            Opcode::Mov,
            Arg::Memory(rbp().offset(ConstInt::I32(-4)).size(Size::Double)),
            Arg::Register(eax())
        )),
        "\tmovl\t%eax, -4(%rbp)\n"
    );
    assert_eq!(
        line_text(Line::Op2(
            Opcode::Lea,
            Arg::Register(rax()),
            Arg::Memory(rbp().offset(ConstInt::I32(-24)))
        )),
        "\tleaq\t-24(%rbp), %rax\n"
    );
    assert_eq!(
        line_text(Line::Op2(Opcode::MovSignExtend, Arg::Register(rax()), Arg::Register(al()))),
        "\tmovsbq\t%al, %rax\n"
    );
    assert_eq!(
        line_text(Line::Op2(Opcode::MovZeroExtend, Arg::Register(eax()), Arg::Register(ax()))),
        "\tmovzwl\t%ax, %eax\n"
    );
    assert_eq!(
        line_text(Line::Op2(Opcode::Sub, Arg::Register(rsp()), Arg::Int(ConstInt::I32(32)))),
        "\tsubq\t$32, %rsp\n"
    );
    assert_eq!(
        line_text(Line::Op2(Opcode::MovIf(Cond::NotEqual), Arg::Register(rax()), Arg::Register(rcx()))),
        "\tcmovneq\t%rcx, %rax\n"
    );
    assert_eq!(line_text(Line::Op0(Opcode::Cqo)), "\tcqto\n");
    assert_eq!(line_text(Line::Op1(Opcode::IDiv, Arg::Register(rcx()))), "\tidivq\t%rcx\n");
}

#[test]
fn the_writer_keeps_the_order_of_the_lines() {
    let mut writer = AsmWriter::new();
    writer.begin_text();
    writer.declare_global(Label::Function(0));
    writer.emit_label(Label::Function(0));
    writer.build_push(Arg::Register(rbp()));
    writer.build_mov(Arg::Register(rbp()), Arg::Register(rsp()));
    writer.build_add(Arg::Register(rax()), Arg::Register(rcx()));
    writer.build_sub(Arg::Register(rax()), Arg::Register(rcx()));
    writer.build_cmp(Arg::Register(rax()), Arg::Register(rcx()));
    writer.build_lea(Arg::Register(rax()), Arg::Memory(rbp().memory()));
    writer.build0(Opcode::Syscall);
    writer.build1(Opcode::Neg, Arg::Register(rax()));
    writer.build2(Opcode::Xor, Arg::Register(rax()), Arg::Register(rax()));
    writer.build_pop(Arg::Register(rbp()));
    writer.build_ret();
    let lines = writer.finish();
    assert_eq!(lines.len(), 14);
    assert_eq!(lines[0], Line::Text);
    assert_eq!(lines[13], Line::Op0(Opcode::Ret));
    let symbols = vec![String::from("start")];
    let text = write_program(&lines, &symbols);
    assert_eq!(
        text,
        "\t.text\n\t.globl\tstart\nstart:\n\tpushq\t%rbp\n\tmovq\t%rsp, %rbp\n\taddq\t%rcx, %rax\n\
         \tsubq\t%rcx, %rax\n\tcmpq\t%rcx, %rax\n\tleaq\t(%rbp), %rax\n\tsyscall\n\tnegq\t%rax\n\
         \txorq\t%rax, %rax\n\tpopq\t%rbp\n\tret\n"
    );
    assert_eq!(write_checked(&lines, &symbols), Some(text));
    assert_eq!(write_checked(&lines, &no_symbols()), None);
}
