use lowir::backend::x86_64::{reg_arg, slot_arg, Backend, Construct, LowerError};
use lowir::builder::Builder;
use lowir::module::block::BlockID;
use lowir::module::function::FuncID;
use lowir::module::instruction::{BlockTarget, Expr, Instruction};
use lowir::module::Module;
use lowir::target::System;
use lowir::types::{Type, Types};
use lowir::x64::args::{Arg, ConstInt, Memory};
use lowir::x64::label::Label;
use lowir::x64::register::{rbp, rcx, RegisterName};
use lowir::x64::size::Size;
use lowir::x64::writer::{write_checked, Cond, Line, Opcode};

fn lower(system: System, module: &Module, types: &Types) -> Result<Vec<Line>, LowerError> {
    Backend::new(system, module, types).gen_code()
}

fn mov(dst: Arg, src: Arg) -> Line {
    Line::Op2(Opcode::Mov, dst, src)
}

fn r(name: RegisterName, size: Size) -> Arg {
    reg_arg(name, size)
}

fn head(f: usize, frame: i32) -> Vec<Line> {
    let mut lines = vec![
        Line::Global(Label::Function(f)),
        Line::Label(Label::Function(f)),
        Line::Op1(Opcode::Push, r(RegisterName::BP, Size::Quad)),
        mov(r(RegisterName::BP, Size::Quad), r(RegisterName::SP, Size::Quad)),
    ];
    if frame > 0 {
        lines.push(Line::Op2(
            Opcode::Sub,
            r(RegisterName::SP, Size::Quad),
            Arg::Int(ConstInt::I32(frame)),
        ));
    }
    lines
}

fn tail() -> Vec<Line> {
    vec![
        mov(r(RegisterName::SP, Size::Quad), r(RegisterName::BP, Size::Quad)),
        Line::Op1(Opcode::Pop, r(RegisterName::BP, Size::Quad)),
        Line::Op0(Opcode::Ret),
    ]
}

fn add3() -> (Module, Types) {
    let mut b = Builder::new(Module::new(), Types::new());
    let f = b.begin_fun(String::from("add3"), Type::Integer(32));
    let a = b.add_func_param(Type::Integer(32));
    let bb = b.add_func_param(Type::Integer(32));
    let c = b.add_func_param(Type::Integer(32));
    b.start_function(f);
    let t1 = b.add(Expr::Register(a), Expr::Register(bb));
    let t2 = b.add(Expr::Register(t1), Expr::Register(c));
    b.do_return(Expr::Register(t2));
    b.finish()
}

#[test]
fn add3_is_lowered_with_every_value_in_its_slot() {
    let (module, types) = add3();
    let lines = lower(System::Linux, &module, &types).unwrap();
    let d = Size::Double;
    let (a, c) = (RegisterName::A, RegisterName::C);
    let mut expected = vec![Line::Text];
    expected.extend(head(0, 32));
    expected.extend(vec![
        mov(slot_arg(-4, d), r(RegisterName::DI, d)),
        mov(slot_arg(-8, d), r(RegisterName::SI, d)),
        mov(slot_arg(-12, d), r(RegisterName::D, d)),
        Line::Label(Label::Block(0)),
        mov(r(a, d), slot_arg(-4, d)),
        mov(r(c, d), slot_arg(-8, d)),
        Line::Op2(Opcode::Add, r(a, d), r(c, d)),
        mov(slot_arg(-16, d), r(a, d)),
        mov(r(a, d), slot_arg(-16, d)),
        mov(r(c, d), slot_arg(-12, d)),
        Line::Op2(Opcode::Add, r(a, d), r(c, d)),
        mov(slot_arg(-20, d), r(a, d)),
        mov(r(a, d), slot_arg(-20, d)),
    ]);
    expected.extend(tail());
    assert_eq!(lines, expected);

    let text = write_checked(&lines, &module.names()).unwrap();
    assert_eq!(
        text,
        "\t.text\n\
         \t.globl\tadd3\n\
         add3:\n\
         \tpushq\t%rbp\n\
         \tmovq\t%rsp, %rbp\n\
         \tsubq\t$32, %rsp\n\
         \tmovl\t%edi, -4(%rbp)\n\
         \tmovl\t%esi, -8(%rbp)\n\
         \tmovl\t%edx, -12(%rbp)\n\
         .LBB0:\n\
         \tmovl\t-4(%rbp), %eax\n\
         \tmovl\t-8(%rbp), %ecx\n\
         \taddl\t%ecx, %eax\n\
         \tmovl\t%eax, -16(%rbp)\n\
         \tmovl\t-16(%rbp), %eax\n\
         \tmovl\t-12(%rbp), %ecx\n\
         \taddl\t%ecx, %eax\n\
         \tmovl\t%eax, -20(%rbp)\n\
         \tmovl\t-20(%rbp), %eax\n\
         \tmovq\t%rbp, %rsp\n\
         \tpopq\t%rbp\n\
         \tret\n"
    );
}

#[test]
fn the_target_system_does_not_change_plain_code() {
    let (module, types) = add3();
    assert_eq!(
        lower(System::Linux, &module, &types),
        lower(System::BareMetal, &module, &types)
    );
}

#[test]
fn a_module_without_bodies_is_only_the_section_line() {
    let mut m = Module::new();
    m.add_function(String::from("puts"), Type::Integer(32));
    assert_eq!(lower(System::Linux, &m, &Types::new()), Ok(vec![Line::Text]));
    assert_eq!(lower(System::Linux, &Module::new(), &Types::new()), Ok(vec![Line::Text]));
}

#[test]
fn only_blocks_that_can_be_reached_are_lowered() {
    let mut b = Builder::new(Module::new(), Types::new());
    let f = b.begin_fun(String::from("f"), Type::Unit);
    b.start_function(f);
    let second = b.add_block();
    let island = b.add_block();
    b.jump(BlockTarget::to(second));
    b.select_block(second);
    b.do_return(Expr::from(()));
    b.select_block(island);
    let x = b.set(Expr::from(1u8));
    b.udiv(Expr::Register(x), Expr::Register(x));
    let (module, types) = b.finish();
    let lines = lower(System::Linux, &module, &types).unwrap();
    let mut expected = vec![Line::Text];
    expected.extend(head(0, 16));
    expected.push(Line::Label(Label::Block(0)));
    expected.push(Line::Op1(Opcode::Jmp, Arg::Label(Label::Block(1))));
    expected.push(Line::Label(Label::Block(1)));
    expected.extend(tail());
    assert_eq!(lines, expected);
    assert!(!lines.contains(&Line::Label(Label::Block(2))));
}

#[test]
fn slots_lie_one_below_the_other_at_multiples_of_their_alignment() {
    let mut types = Types::new();
    let pair = types.make_struct(vec![Type::Integer(8), Type::Integer(32)]);
    let mut b = Builder::new(Module::new(), types);
    let f = b.begin_fun(String::from("f"), Type::Unit);
    b.start_function(f);
    let small = b.add_variable(Type::Integer(8));
    let big = b.add_variable(Type::Struct(pair));
    let p = b.get_var_ptr(small);
    let q = b.get_var_ptr(big);
    let flag = b.test_equal(Expr::Register(p), Expr::Register(q));
    b.do_return(Expr::from(()));
    let (module, types) = b.finish();
    let _ = flag;
    let lines = lower(System::Linux, &module, &types).unwrap();
    let quad = Size::Quad;
    let a = RegisterName::A;
    let at = |off: i32| Arg::Memory(rbp().offset(ConstInt::I32(off)));
    let mut expected = vec![Line::Text];
    expected.extend(head(0, 48));
    expected.extend(vec![
        Line::Label(Label::Block(0)),
        Line::Op2(Opcode::Lea, r(a, quad), at(-1)),
        mov(slot_arg(-24, quad), r(a, quad)),
        Line::Op2(Opcode::Lea, r(a, quad), at(-12)),
        mov(slot_arg(-32, quad), r(a, quad)),
        mov(r(a, quad), slot_arg(-24, quad)),
        mov(r(RegisterName::C, quad), slot_arg(-32, quad)),
        Line::Op2(Opcode::Cmp, r(a, quad), r(RegisterName::C, quad)),
        Line::Op1(Opcode::SetIf(Cond::Equal), r(a, Size::Byte)),
        mov(slot_arg(-33, Size::Byte), r(a, Size::Byte)),
    ]);
    expected.extend(tail());
    assert_eq!(lines, expected);
}

#[test]
fn a_division_of_bytes_has_no_lowering() {
    let mut b = Builder::new(Module::new(), Types::new());
    let f = b.begin_fun(String::from("f"), Type::Integer(8));
    let x = b.add_func_param(Type::Integer(8));
    b.start_function(f);
    b.nop();
    let q = b.udiv(Expr::Register(x), Expr::from(3u8));
    b.do_return(Expr::Register(q));
    let (module, types) = b.finish();
    assert_eq!(
        lower(System::Linux, &module, &types),
        Err(LowerError::Unsupported(Construct::Instruction(BlockID(0), 1)))
    );
}

#[test]
fn quotient_and_remainder() {
    let mut b = Builder::new(Module::new(), Types::new());
    let f = b.begin_fun(String::from("f"), Type::Integer(32));
    let x = b.add_func_param(Type::Integer(32));
    let y = b.add_func_param(Type::Integer(32));
    b.start_function(f);
    let q = b.idiv(Expr::Register(x), Expr::Register(y));
    let m = b.umod(Expr::Register(q), Expr::Register(y));
    b.do_return(Expr::Register(m));
    let (module, types) = b.finish();
    let d = Size::Double;
    let (a, c, dx) = (RegisterName::A, RegisterName::C, RegisterName::D);
    let mut expected = vec![Line::Text];
    expected.extend(head(0, 16));
    expected.extend(vec![
        mov(slot_arg(-4, d), r(RegisterName::DI, d)),
        mov(slot_arg(-8, d), r(RegisterName::SI, d)),
        Line::Label(Label::Block(0)),
        mov(r(a, d), slot_arg(-4, d)),
        mov(r(c, d), slot_arg(-8, d)),
        Line::Op0(Opcode::Cdq),
        Line::Op1(Opcode::IDiv, r(c, d)),
        mov(slot_arg(-12, d), r(a, d)),
        mov(r(a, d), slot_arg(-12, d)),
        mov(r(c, d), slot_arg(-8, d)),
        Line::Op2(Opcode::Xor, r(dx, d), r(dx, d)),
        Line::Op1(Opcode::Div, r(c, d)),
        mov(r(a, d), r(dx, d)),
        mov(slot_arg(-16, d), r(a, d)),
        mov(r(a, d), slot_arg(-16, d)),
    ]);
    expected.extend(tail());
    let lines = lower(System::Linux, &module, &types).unwrap();
    assert_eq!(lines, expected);
    let text = write_checked(&lines, &module.names()).unwrap();
    assert!(text.contains("\tcltd\n\tidivl\t%ecx\n"));
    assert!(text.contains("\txorl\t%edx, %edx\n\tdivl\t%ecx\n\tmovl\t%edx, %eax\n"));
}

#[test]
fn the_address_of_an_element() {
    let mut b = Builder::new(Module::new(), Types::new());
    let f = b.begin_fun(String::from("at"), Type::Pointer);
    let p = b.add_func_param(Type::Pointer);
    let i = b.add_func_param(Type::Integer(64));
    b.start_function(f);
    let e = b.get_element_ptr(p, Expr::Register(i), Type::Integer(32));
    b.do_return(Expr::Register(e));
    let (module, types) = b.finish();
    let q = Size::Quad;
    let (a, c, dx) = (RegisterName::A, RegisterName::C, RegisterName::D);
    let mut expected = vec![Line::Text];
    expected.extend(head(0, 32));
    expected.extend(vec![
        mov(slot_arg(-8, q), r(RegisterName::DI, q)),
        mov(slot_arg(-16, q), r(RegisterName::SI, q)),
        Line::Label(Label::Block(0)),
        mov(r(a, q), slot_arg(-8, q)),
        mov(r(c, q), slot_arg(-16, q)),
        mov(r(dx, q), Arg::Int(ConstInt::I64(4))),
        Line::Op2(Opcode::IMul, r(c, q), r(dx, q)),
        Line::Op2(Opcode::Add, r(a, q), r(c, q)),
        mov(slot_arg(-24, q), r(a, q)),
        mov(r(a, q), slot_arg(-24, q)),
    ]);
    expected.extend(tail());
    assert_eq!(lower(System::Linux, &module, &types), Ok(expected));
}

#[test]
fn a_call_through_a_pointer() {
    let mut b = Builder::new(Module::new(), Types::new());
    let f = b.begin_fun(String::from("apply"), Type::Integer(16));
    let fp = b.add_func_param(Type::Pointer);
    b.start_function(f);
    let got = b.call_ptr(
        fp,
        Type::Integer(16),
        vec![Expr::from(true)],
        lowir::module::calling_convention::CallingConvention::default(),
    );
    b.do_return(Expr::Register(got));
    let (module, types) = b.finish();
    let (q, w) = (Size::Quad, Size::Word);
    let mut expected = vec![Line::Text];
    expected.extend(head(0, 16));
    expected.extend(vec![
        mov(slot_arg(-8, q), r(RegisterName::DI, q)),
        Line::Label(Label::Block(0)),
        mov(r(RegisterName::DI, Size::Byte), Arg::Int(ConstInt::U8(1))),
        mov(r(RegisterName::R11, q), slot_arg(-8, q)),
        Line::Op1(Opcode::Call, r(RegisterName::R11, q)),
        mov(slot_arg(-10, w), r(RegisterName::A, w)),
        mov(r(RegisterName::A, w), slot_arg(-10, w)),
    ]);
    expected.extend(tail());
    let lines = lower(System::Linux, &module, &types).unwrap();
    assert_eq!(lines, expected);
    assert!(write_checked(&lines, &module.names()).unwrap().contains("\tcall\t*%r11\n"));
}

#[test]
fn constructs_without_lowering_are_named() {
    let unsupported_at = |build: &dyn Fn(&mut Builder)| {
        let mut types = Types::new();
        types.make_struct(vec![Type::Integer(8), Type::Pointer]);
        let mut b = Builder::new(Module::new(), types);
        let f = b.begin_fun(String::from("f"), Type::Unit);
        b.start_function(f);
        build(&mut b);
        b.do_return(Expr::from(()));
        let (module, types) = b.finish();
        lower(System::Linux, &module, &types)
    };
    let first = Err(LowerError::Unsupported(Construct::Instruction(BlockID(0), 0)));
    let second = Err(LowerError::Unsupported(Construct::Instruction(BlockID(0), 1)));
    assert_eq!(
        unsupported_at(&|b| {
            b.imod(Expr::from(1u8), Expr::from(1u8));
        }),
        first
    );
    assert_eq!(
        unsupported_at(&|b| {
            b.mul(Expr::from(1u8), Expr::from(1u8));
        }),
        first
    );
    assert_eq!(
        unsupported_at(&|b| {
            let odd = b.add_register(Type::Integer(24));
            b.not(Expr::Register(odd));
        }),
        first
    );
    assert_eq!(
        unsupported_at(&|b| {
            let odd = b.add_register(Type::Integer(24));
            let flag = b.set(Expr::from(true));
            b.select(Expr::Register(flag), Expr::Register(odd), Expr::Register(odd));
        }),
        second
    );
    assert_eq!(
        unsupported_at(&|b| {
            let row = b.set_array_splat(Type::Bool, 3, Expr::from(true));
            let at = b.set(Expr::from(1u32));
            b.get_element(Expr::Register(row), Expr::Register(at));
        }),
        Err(LowerError::Unsupported(Construct::Instruction(BlockID(0), 2)))
    );
    assert_eq!(
        unsupported_at(&|b| {
            let x = b.set(Expr::from(1u32));
            b.int_to_ptr(Expr::Register(x));
        }),
        second
    );
    assert!(unsupported_at(&|b| {
        b.mul(Expr::from(1u16), Expr::from(1u16));
    })
    .is_ok());
}

#[test]
fn a_request_to_the_operating_system_needs_linux() {
    let mut b = Builder::new(Module::new(), Types::new());
    let f = b.begin_fun(String::from("quit"), Type::Unit);
    b.start_function(f);
    b.syscall_x86_64(Type::Integer(64), Expr::from(60u8), vec![Expr::from(7u8)]);
    b.do_return(Expr::from(()));
    let (module, types) = b.finish();
    assert_eq!(
        lower(System::BareMetal, &module, &types),
        Err(LowerError::Unsupported(Construct::Instruction(BlockID(0), 0)))
    );
    let quad = Size::Quad;
    let mut expected = vec![Line::Text];
    expected.extend(head(0, 16));
    expected.extend(vec![
        Line::Label(Label::Block(0)),
        mov(r(RegisterName::DI, quad), Arg::Int(ConstInt::I64(7))),
        mov(r(RegisterName::A, quad), Arg::Int(ConstInt::I64(60))),
        Line::Op0(Opcode::Syscall),
        mov(slot_arg(-8, quad), r(RegisterName::A, quad)),
    ]);
    expected.extend(tail());
    assert_eq!(lower(System::Linux, &module, &types), Ok(expected));
}

#[test]
fn a_block_that_does_not_end_well_is_malformed() {
    let mut b = Builder::new(Module::new(), Types::new());
    let f = b.begin_fun(String::from("open_end"), Type::Unit);
    b.start_function(f);
    b.nop();
    let (module, types) = b.finish();
    assert_eq!(lower(System::Linux, &module, &types), Err(LowerError::Malformed(BlockID(0))));

    let mut b = Builder::new(Module::new(), Types::new());
    let f = b.begin_fun(String::from("empty"), Type::Unit);
    b.start_function(f);
    let (module, types) = b.finish();
    assert_eq!(lower(System::Linux, &module, &types), Err(LowerError::Malformed(BlockID(0))));

    let mut b = Builder::new(Module::new(), Types::new());
    let f = b.begin_fun(String::from("twice"), Type::Unit);
    b.start_function(f);
    b.do_return(Expr::from(()));
    b.do_return(Expr::from(()));
    let (module, types) = b.finish();
    assert_eq!(lower(System::Linux, &module, &types), Err(LowerError::Malformed(BlockID(0))));
}

#[test]
fn a_jump_hands_over_what_the_block_takes() {
    let mut b = Builder::new(Module::new(), Types::new());
    let f = b.begin_fun(String::from("f"), Type::Unit);
    b.start_function(f);
    let next = b.add_block();
    b.jump(BlockTarget::to(next));
    b.select_block(next);
    b.add_block_param(Type::Bool);
    b.do_return(Expr::from(()));
    let (module, types) = b.finish();
    assert_eq!(lower(System::Linux, &module, &types), Err(LowerError::Malformed(BlockID(0))));
}

#[test]
fn values_travel_to_block_parameters_through_the_stack() {
    let mut b = Builder::new(Module::new(), Types::new());
    let f = b.begin_fun(String::from("f"), Type::Integer(16));
    b.start_function(f);
    let next = b.add_block();
    b.select_block(next);
    let first = b.add_block_param(Type::Integer(16));
    let second = b.add_block_param(Type::Bool);
    b.do_return(Expr::Register(first));
    b.select_block(BlockID(0));
    b.jump(BlockTarget::with(next, vec![Expr::from(9u16), Expr::from(true)]));
    let (module, types) = b.finish();
    let _ = second;
    let (w, by) = (Size::Word, Size::Byte);
    let a = RegisterName::A;
    let sp = r(RegisterName::SP, Size::Quad);
    let mut expected = vec![Line::Text];
    expected.extend(head(0, 16));
    expected.extend(vec![
        Line::Label(Label::Block(0)),
        Line::Op2(Opcode::Sub, sp, Arg::Int(ConstInt::I32(16))),
        mov(r(a, w), Arg::Int(ConstInt::I16(9))),
        mov(slot_arg(-24, w), r(a, w)),
        mov(r(a, by), Arg::Int(ConstInt::U8(1))),
        mov(slot_arg(-32, by), r(a, by)),
        mov(r(a, w), slot_arg(-24, w)),
        mov(slot_arg(-2, w), r(a, w)),
        mov(r(a, by), slot_arg(-32, by)),
        mov(slot_arg(-3, by), r(a, by)),
        Line::Op2(Opcode::Add, sp, Arg::Int(ConstInt::I32(16))),
        Line::Op1(Opcode::Jmp, Arg::Label(Label::Block(1))),
        Line::Label(Label::Block(1)),
        mov(r(a, w), slot_arg(-2, w)),
    ]);
    expected.extend(tail());
    assert_eq!(lower(System::Linux, &module, &types), Ok(expected));
}

#[test]
fn a_branch_has_two_ways_out() {
    let mut b = Builder::new(Module::new(), Types::new());
    let f = b.begin_fun(String::from("f"), Type::Unit);
    let flag = b.add_func_param(Type::Bool);
    b.start_function(f);
    let yes = b.add_block();
    let no = b.add_block();
    b.branch(Expr::Register(flag), BlockTarget::to(yes), BlockTarget::to(no));
    b.select_block(yes);
    b.do_return(Expr::from(()));
    b.select_block(no);
    b.do_return(Expr::from(()));
    let (module, types) = b.finish();
    let lines = lower(System::Linux, &module, &types).unwrap();
    let by = Size::Byte;
    let mut expected = vec![Line::Text];
    expected.extend(head(0, 16));
    expected.extend(vec![
        mov(slot_arg(-1, by), r(RegisterName::DI, by)),
        Line::Label(Label::Block(0)),
        mov(r(RegisterName::A, by), slot_arg(-1, by)),
        Line::Op2(Opcode::Cmp, r(RegisterName::A, by), Arg::Int(ConstInt::U8(0))),
        Line::Op1(Opcode::JumpIf(Cond::Equal), Arg::Label(Label::Otherwise(0))),
        Line::Op1(Opcode::Jmp, Arg::Label(Label::Block(1))),
        Line::Label(Label::Otherwise(0)),
        Line::Op1(Opcode::Jmp, Arg::Label(Label::Block(2))),
    ]);
    assert_eq!(lines[..expected.len()], expected[..]);
    let labels: Vec<&Line> = lines.iter().filter(|l| matches!(l, Line::Label(Label::Block(_)))).collect();
    assert_eq!(labels.len(), 3);
    assert!(lines.contains(&Line::Label(Label::Block(1))));
    assert!(lines.contains(&Line::Label(Label::Block(2))));
}

#[test]
fn memory_is_copied_byte_by_byte() {
    let mut b = Builder::new(Module::new(), Types::new());
    let f = b.begin_fun(String::from("f"), Type::Unit);
    let p = b.add_func_param(Type::Pointer);
    b.start_function(f);
    let x = b.load(p, Type::Integer(16));
    b.store(p, Expr::Register(x));
    b.store(p, Expr::from(5u8));
    b.do_return(Expr::from(()));
    let (module, types) = b.finish();
    let lines = lower(System::Linux, &module, &types).unwrap();
    let by = Size::Byte;
    let quad = Size::Quad;
    let al = r(RegisterName::A, by);
    let behind = |i: i32| {
        Arg::Memory(Memory::sib().base(rcx()).offset(ConstInt::I32(0)).offset(ConstInt::I32(i)).size(by))
    };
    let fetch = mov(r(RegisterName::C, quad), slot_arg(-8, quad));
    let mut expected = vec![Line::Text];
    expected.extend(head(0, 16));
    expected.extend(vec![
        mov(slot_arg(-8, quad), r(RegisterName::DI, quad)),
        Line::Label(Label::Block(0)),
        fetch,
        mov(al, behind(0)),
        mov(slot_arg(-10, by), al),
        mov(al, behind(1)),
        mov(slot_arg(-9, by), al),
        fetch,
        mov(al, slot_arg(-10, by)),
        mov(behind(0), al),
        mov(al, slot_arg(-9, by)),
        mov(behind(1), al),
        fetch,
        mov(al, Arg::Int(ConstInt::I8(5))),
        mov(Arg::Memory(Memory::sib().base(rcx()).offset(ConstInt::I32(0)).size(by)), al),
    ]);
    expected.extend(tail());
    assert_eq!(lines, expected);
}

#[test]
fn a_call_passes_its_arguments_in_registers() {
    let mut b = Builder::new(Module::new(), Types::new());
    let callee = b.begin_fun(String::from("twice"), Type::Integer(64));
    b.add_func_param(Type::Integer(64));
    b.add_func_param(Type::Bool);
    let f = b.begin_fun(String::from("main"), Type::Integer(64));
    b.start_function(f);
    let got = b.call(callee, vec![Expr::from(21u8), Expr::from(false)]);
    b.do_return(Expr::Register(got));
    let (module, types) = b.finish();
    let quad = Size::Quad;
    let mut expected = vec![Line::Text];
    expected.extend(head(1, 16));
    expected.extend(vec![
        Line::Label(Label::Block(0)),
        mov(r(RegisterName::DI, quad), Arg::Int(ConstInt::I64(21))),
        mov(r(RegisterName::SI, Size::Byte), Arg::Int(ConstInt::U8(0))),
        Line::Op1(Opcode::Call, Arg::Label(Label::Function(0))),
        mov(slot_arg(-8, quad), r(RegisterName::A, quad)),
        mov(r(RegisterName::A, quad), slot_arg(-8, quad)),
    ]);
    expected.extend(tail());
    let lines = lower(System::Linux, &module, &types).unwrap();
    assert_eq!(lines, expected);
    let text = write_checked(&lines, &module.names()).unwrap();
    assert!(text.contains("\tcall\ttwice\n"));
    assert!(text.starts_with("\t.text\n\t.globl\tmain\nmain:\n"));
}

#[test]
fn parameters_that_cannot_be_taken_are_named() {
    let mut b = Builder::new(Module::new(), Types::new());
    let f = b.begin_fun(String::from("many"), Type::Unit);
    for _ in 0..7 {
        b.add_func_param(Type::Integer(64));
    }
    b.start_function(f);
    b.do_return(Expr::from(()));
    let (module, types) = b.finish();
    assert_eq!(
        lower(System::Linux, &module, &types),
        Err(LowerError::Unsupported(Construct::Parameters(FuncID(0))))
    );

    let mut types = Types::new();
    let pair = types.make_struct(vec![Type::Bool, Type::Bool]);
    let mut b = Builder::new(Module::new(), types);
    let first = b.begin_fun(String::from("fine"), Type::Unit);
    b.start_function(first);
    b.do_return(Expr::from(()));
    let f = b.begin_fun(String::from("by_value"), Type::Unit);
    b.add_func_param(Type::Struct(pair));
    b.start_function(f);
    b.do_return(Expr::from(()));
    let (module, types) = b.finish();
    assert_eq!(
        lower(System::Linux, &module, &types),
        Err(LowerError::Unsupported(Construct::Parameters(FuncID(1))))
    );
}

#[test]
fn a_frame_that_is_too_large_is_named() {
    let mut types = Types::new();
    let huge = types.make_array(Type::Integer(8), 0x4000_0001);
    let limit = types.make_array(Type::Integer(8), 0x4000_0000);
    let endless = types.make_array(Type::Integer(64), u64::MAX);
    let mut b = Builder::new(Module::new(), types);
    let f = b.begin_fun(String::from("fits"), Type::Unit);
    b.start_function(f);
    b.add_variable(Type::Array(limit));
    b.do_return(Expr::from(()));
    let g = b.begin_fun(String::from("big"), Type::Unit);
    b.start_function(g);
    b.add_variable(Type::Array(huge));
    b.do_return(Expr::from(()));
    let (module, types) = b.finish();
    assert_eq!(
        lower(System::Linux, &module, &types),
        Err(LowerError::Unsupported(Construct::Frame(FuncID(1))))
    );

    let mut b = Builder::new(Module::new(), types);
    let f = b.begin_fun(String::from("endless"), Type::Unit);
    b.start_function(f);
    b.add_register(Type::Array(endless));
    b.do_return(Expr::from(()));
    let (module, types) = b.finish();
    assert_eq!(
        lower(System::Linux, &module, &types),
        Err(LowerError::Unsupported(Construct::Frame(FuncID(0))))
    );
}

#[test]
fn the_return_value_has_the_type_of_the_function() {
    let mut m = Module::new();
    let f = m.add_function(String::from("f"), Type::Integer(8));
    let entry = m.start_function_definition(f);
    m.push_instruction(entry, Instruction::Return(Expr::from(true)));
    assert_eq!(lower(System::Linux, &m, &Types::new()), Err(LowerError::Malformed(entry)));
}

#[test]
fn a_struct_is_built_member_by_member() {
    let mut types = Types::new();
    let pair = types.make_struct(vec![Type::Integer(8), Type::Integer(32)]);
    let mut b = Builder::new(Module::new(), types);
    let f = b.begin_fun(String::from("f"), Type::Integer(32));
    b.start_function(f);
    let made = b.set_struct(pair, vec![Expr::from(1u8), Expr::from(2u32)]);
    let second = b.get_member(Expr::Register(made), 1);
    b.do_return(Expr::Register(second));
    let (module, types) = b.finish();
    let (by, d) = (Size::Byte, Size::Double);
    let al = r(RegisterName::A, by);
    let eax = r(RegisterName::A, d);
    let mut expected = vec![Line::Text];
    expected.extend(head(0, 16));
    expected.extend(vec![
        Line::Label(Label::Block(0)),
        mov(al, Arg::Int(ConstInt::I8(1))),
        mov(slot_arg(-8, by), al),
        mov(eax, Arg::Int(ConstInt::I32(2))),
        mov(slot_arg(-4, d), eax),
        mov(al, slot_arg(-4, by)),
        mov(slot_arg(-12, by), al),
        mov(al, slot_arg(-3, by)),
        mov(slot_arg(-11, by), al),
        mov(al, slot_arg(-2, by)),
        mov(slot_arg(-10, by), al),
        mov(al, slot_arg(-1, by)),
        mov(slot_arg(-9, by), al),
        mov(eax, slot_arg(-12, d)),
    ]);
    expected.extend(tail());
    assert_eq!(lower(System::Linux, &module, &types), Ok(expected));
}

#[test]
fn an_array_is_filled_and_read() {
    let mut b = Builder::new(Module::new(), Types::new());
    let f = b.begin_fun(String::from("f"), Type::Integer(16));
    b.start_function(f);
    let filled = b.set_array_splat(Type::Integer(16), 2, Expr::from(7u16));
    let last = b.get_element(Expr::Register(filled), Expr::from(1u8));
    let listed = b.set_array(Type::Integer(16), vec![Expr::Register(last), Expr::from(3u8)]);
    let _ = listed;
    b.do_return(Expr::Register(last));
    let (module, types) = b.finish();
    let (by, w) = (Size::Byte, Size::Word);
    let al = r(RegisterName::A, by);
    let ax = r(RegisterName::A, w);
    let mut expected = vec![Line::Text];
    expected.extend(head(0, 16));
    expected.extend(vec![
        Line::Label(Label::Block(0)),
        mov(ax, Arg::Int(ConstInt::I16(7))),
        mov(slot_arg(-4, w), ax),
        mov(ax, Arg::Int(ConstInt::I16(7))),
        mov(slot_arg(-2, w), ax),
        mov(al, slot_arg(-2, by)),
        mov(slot_arg(-6, by), al),
        mov(al, slot_arg(-1, by)),
        mov(slot_arg(-5, by), al),
        mov(ax, slot_arg(-6, w)),
        mov(slot_arg(-10, w), ax),
        mov(ax, Arg::Int(ConstInt::I16(3))),
        mov(slot_arg(-8, w), ax),
        mov(ax, slot_arg(-6, w)),
    ]);
    expected.extend(tail());
    assert_eq!(lower(System::Linux, &module, &types), Ok(expected));
}

#[test]
fn a_choice_is_made_without_a_jump() {
    let mut b = Builder::new(Module::new(), Types::new());
    let f = b.begin_fun(String::from("pick"), Type::Integer(8));
    let flag = b.add_func_param(Type::Bool);
    let x = b.add_func_param(Type::Integer(8));
    let y = b.add_func_param(Type::Integer(8));
    b.start_function(f);
    let s = b.select(Expr::Register(flag), Expr::Register(x), Expr::Register(y));
    b.do_return(Expr::Register(s));
    let (module, types) = b.finish();
    let (by, d) = (Size::Byte, Size::Double);
    let (a, c, dx) = (RegisterName::A, RegisterName::C, RegisterName::D);
    let mut expected = vec![Line::Text];
    expected.extend(head(0, 16));
    expected.extend(vec![
        mov(slot_arg(-1, by), r(RegisterName::DI, by)),
        mov(slot_arg(-2, by), r(RegisterName::SI, by)),
        mov(slot_arg(-3, by), r(dx, by)),
        Line::Label(Label::Block(0)),
        mov(r(a, by), slot_arg(-2, by)),
        mov(r(c, by), slot_arg(-3, by)),
        mov(r(dx, by), slot_arg(-1, by)),
        Line::Op2(Opcode::Cmp, r(dx, by), Arg::Int(ConstInt::U8(0))),
        Line::Op2(Opcode::MovIf(Cond::Equal), r(a, d), r(c, d)),
        mov(slot_arg(-4, by), r(a, by)),
        mov(r(a, by), slot_arg(-4, by)),
    ]);
    expected.extend(tail());
    let lines = lower(System::Linux, &module, &types).unwrap();
    assert_eq!(lines, expected);
    assert!(write_checked(&lines, &module.names()).unwrap().contains("\tcmovel\t%ecx, %eax\n"));
}

#[test]
fn an_element_at_a_position_known_later() {
    let mut b = Builder::new(Module::new(), Types::new());
    let f = b.begin_fun(String::from("nth"), Type::Integer(16));
    let i = b.add_func_param(Type::Integer(64));
    b.start_function(f);
    let row = b.set_array_splat(Type::Integer(16), 2, Expr::from(7u16));
    let e = b.get_element(Expr::Register(row), Expr::Register(i));
    b.do_return(Expr::Register(e));
    let (module, types) = b.finish();
    let (by, w, q) = (Size::Byte, Size::Word, Size::Quad);
    let (a, c, dx) = (RegisterName::A, RegisterName::C, RegisterName::D);
    let behind = |k: i32| {
        Arg::Memory(Memory::sib().base(rcx()).offset(ConstInt::I32(0)).offset(ConstInt::I32(k)).size(by))
    };
    let mut expected = vec![Line::Text];
    expected.extend(head(0, 16));
    expected.extend(vec![
        mov(slot_arg(-8, q), r(RegisterName::DI, q)),
        Line::Label(Label::Block(0)),
        mov(r(a, w), Arg::Int(ConstInt::I16(7))),
        mov(slot_arg(-12, w), r(a, w)),
        mov(r(a, w), Arg::Int(ConstInt::I16(7))),
        mov(slot_arg(-10, w), r(a, w)),
        Line::Op2(Opcode::Lea, r(c, q), Arg::Memory(rbp().offset(ConstInt::I32(-12)))),
        mov(r(dx, q), slot_arg(-8, q)),
        mov(r(a, q), Arg::Int(ConstInt::I64(2))),
        Line::Op2(Opcode::IMul, r(dx, q), r(a, q)),
        Line::Op2(Opcode::Add, r(c, q), r(dx, q)),
        mov(r(a, by), behind(0)),
        mov(slot_arg(-14, by), r(a, by)),
        mov(r(a, by), behind(1)),
        mov(slot_arg(-13, by), r(a, by)),
        mov(r(a, w), slot_arg(-14, w)),
    ]);
    expected.extend(tail());
    assert_eq!(lower(System::Linux, &module, &types), Ok(expected));
}
