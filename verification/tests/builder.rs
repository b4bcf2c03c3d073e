use lowir::builder::Builder;
use lowir::module::block::BlockID;
use lowir::module::calling_convention::{
    CallingConvention, ConcreteConvention, GenericConvention,
};
use lowir::module::function::FuncID;
use lowir::module::instruction::{
    BinaryOp, BlockTarget, ConstValue, Expr, Instruction, TestOp, UnaryOp,
};
use lowir::module::register::RegID;
use lowir::module::variable::VarID;
use lowir::module::Module;
use lowir::types::{IntSize, Type, Types};

fn i32_type() -> Type {
    Type::Integer(32)
}

fn builder_in_function(name: &str, ret: Type) -> (Builder, FuncID) {
    let mut b = Builder::new(Module::new(), Types::new());
    let f = b.create_function(String::from(name), ret);
    b.select_fun(f);
    (b, f)
}

/// The register that an instruction writes.
fn target_of(i: &Instruction) -> Option<RegID> {
    match i {
        Instruction::Nop
        | Instruction::Store { .. }
        | Instruction::Jump(_)
        | Instruction::Branch(_, _, _)
        | Instruction::Return(_) => None,
        Instruction::Assign(t, _)
        | Instruction::BinaryOp(t, _, _, _)
        | Instruction::UnaryOp(t, _, _)
        | Instruction::TestOp(t, _, _, _)
        | Instruction::MakeStruct(t, _)
        | Instruction::MakeArray(t, _)
        | Instruction::MakeShortArray(t, _, _)
        | Instruction::GetVarPointer(t, _)
        | Instruction::GetFunctionPointer(t, _) => Some(*t),
        Instruction::Select { target, .. }
        | Instruction::GetElement { target, .. }
        | Instruction::GetElementPtr { target, .. }
        | Instruction::GetMember { target, .. }
        | Instruction::GetMemberPtr { target, .. }
        | Instruction::Load { target, .. }
        | Instruction::Call { target, .. }
        | Instruction::CallPtr { target, .. }
        | Instruction::Syscall { target, .. } => Some(*target),
    }
}

#[test]
fn a_new_module_is_empty() {
    let m = Module::new();
    assert_eq!(m.function_count(), 0);
    assert_eq!(m.register_count(), 0);
    assert_eq!(m.variable_count(), 0);
    assert_eq!(m.block_count(), 0);
}

#[test]
fn the_module_hands_out_dense_identifiers() {
    let mut m = Module::new();
    let f = m.add_function(String::from("f"), Type::Unit);
    let g = m.add_function(String::from("g"), Type::Bool);
    assert_eq!((f, g), (FuncID(0), FuncID(1)));
    assert!(m.function(f).definition().is_none());
    assert_eq!(m.function(f).entry_block(), None);
    assert!(m.function(f).blocks().is_none());
    assert!(m.function(f).variables().is_none());
    let p = m.add_parameter(g, Type::Pointer);
    let r = m.add_register(f, Type::Bool);
    assert_eq!((p, r), (RegID(0), RegID(1)));
    let entry = m.start_function_definition(g);
    assert_eq!(entry, BlockID(0));
    let second = m.add_block(g);
    assert_eq!(second, BlockID(1));
    let v = m.add_variable(g, Type::Integer(64));
    assert_eq!(v, VarID(0));
    let bp = m.add_block_parameter(second, Type::Integer(8));
    assert_eq!(bp, RegID(2));
    m.push_instruction(entry, Instruction::Jump(BlockTarget::with(second, vec![Expr::from(7u8)])));

    let fun = m.function(g);
    assert_eq!(fun.id(), g);
    assert_eq!(fun.name(), "g");
    assert_eq!(fun.return_type(), Type::Bool);
    assert_eq!(fun.parameters(), 1);
    assert_eq!(fun.parameter_registers(), &vec![p]);
    assert_eq!(fun.parameter_types(), &vec![Type::Pointer]);
    assert_eq!(fun.registers(), &vec![p, bp]);
    assert_eq!(fun.entry_block(), Some(entry));
    assert_eq!(fun.blocks(), Some(&vec![entry, second]));
    assert_eq!(fun.variables(), Some(&vec![v]));
    assert_eq!(fun.definition().unwrap().entry(), entry);
    assert_eq!(fun.definition().unwrap().blocks(), &vec![entry, second]);
    assert_eq!(fun.definition().unwrap().variables(), &vec![v]);
    assert!(!fun.is_vararg());
    assert_eq!(fun.calling_convention(), CallingConvention::default());
    assert_eq!(fun.signature().return_type, Type::Bool);
    assert_eq!(m.function(f).registers(), &vec![r]);

    assert_eq!(m.register(bp).id(), bp);
    assert_eq!(m.register(bp).function(), g);
    assert_eq!(m.register(bp).reg_type(), Type::Integer(8));
    assert_eq!(m.variable(v).id(), v);
    assert_eq!(m.variable(v).function(), g);
    assert_eq!(m.variable(v).var_type(), Type::Integer(64));
    assert_eq!(m.block(second).id(), second);
    assert_eq!(m.block(second).function(), g);
    assert_eq!(m.block(second).parameters(), &vec![bp]);
    assert_eq!(m.block(entry).body().len(), 1);
    assert_eq!(m.names(), vec![String::from("f"), String::from("g")]);
}

#[test]
fn calling_conventions() {
    assert_eq!(CallingConvention::default(), CallingConvention::Generic(GenericConvention::Default));
    assert!(!CallingConvention::default().supports_varargs());
    assert!(CallingConvention::Generic(GenericConvention::C).supports_varargs());
    assert!(CallingConvention::Concrete(ConcreteConvention::SystemV).supports_varargs());
    assert!(GenericConvention::C.supports_varargs());
    assert!(!GenericConvention::Default.supports_varargs());
    assert!(ConcreteConvention::SystemV.supports_varargs());
}

#[test]
fn the_cursor_follows_the_selection() {
    let (mut b, f) = builder_in_function("f", Type::Unit);
    assert_eq!(b.selected_function(), Some(f));
    assert_eq!(b.selected_block(), None);
    b.start_function(f);
    assert_eq!(b.selected_block(), Some(BlockID(0)));
    let other = b.add_block();
    assert_eq!(b.selected_block(), Some(BlockID(0)));
    b.select_block(other);
    assert_eq!(b.selected_block(), Some(other));
    assert_eq!(b.selected_function(), Some(f));
    b.unselect_block();
    assert_eq!(b.selected_block(), None);
    assert_eq!(b.selected_function(), Some(f));
    let third = b.begin_block();
    assert_eq!(b.selected_block(), Some(third));
    let g = b.begin_fun(String::from("g"), Type::Bool);
    assert_eq!(b.selected_function(), Some(g));
    assert_eq!(b.selected_block(), None);
    assert_eq!(b.module().function_count(), 2);
    assert_eq!(b.types().is_valid(Type::Bool), true);
}

#[test]
fn add3_is_built_with_fresh_registers() {
    let (mut b, f) = builder_in_function("add3", i32_type());
    let a = b.add_func_param(i32_type());
    let bb = b.add_func_param(i32_type());
    let c = b.add_func_param(i32_type());
    b.start_function(f);
    let t1 = b.add(Expr::Register(a), Expr::Register(bb));
    let t2 = b.add(Expr::Register(t1), Expr::Register(c));
    b.do_return(Expr::Register(t2));
    let (module, _types) = b.finish();

    assert_eq!((a, bb, c, t1, t2), (RegID(0), RegID(1), RegID(2), RegID(3), RegID(4)));
    assert_eq!(module.register(t1).reg_type(), i32_type());
    assert_eq!(module.register(t2).reg_type(), i32_type());
    let body = module.block(BlockID(0)).body();
    assert_eq!(body.len(), 3);
    assert!(matches!(
        body[0],
        Instruction::BinaryOp(RegID(3), BinaryOp::Add, Expr::Register(RegID(0)), Expr::Register(RegID(1)))
    ));
    assert!(matches!(
        body[1],
        Instruction::BinaryOp(RegID(4), BinaryOp::Add, Expr::Register(RegID(3)), Expr::Register(RegID(2)))
    ));
    assert!(matches!(body[2], Instruction::Return(Expr::Register(RegID(4)))));
    assert!(body[2].is_terminator());
    assert!(!body[0].is_terminator());
    assert_eq!(body[0].next_blocks(), None);
}

#[test]
fn every_register_is_written_at_most_once() {
    let (mut b, f) = builder_in_function("busy", Type::Unit);
    let p = b.add_func_param(Type::Integer(64));
    b.start_function(f);
    let v = b.add_variable(Type::Integer(64));
    let next = b.add_block();
    let x = b.set(Expr::from(5u64));
    let y = b.mul(Expr::Register(p), Expr::Register(x));
    let z = b.neg(Expr::Register(y));
    let ptr = b.get_var_ptr(v);
    b.store(ptr, Expr::Register(z));
    let back = b.load(ptr, Type::Integer(64));
    let test = b.test_less(Expr::Register(back), Expr::from(0u8));
    b.branch(Expr::Register(test), BlockTarget::to(next), BlockTarget::to(next));
    b.select_block(next);
    let q = b.add_block_param(Type::Bool);
    let w = b.not(Expr::Register(back));
    b.nop();
    b.do_return(Expr::from(()));
    let (module, _) = b.finish();

    let mut written: Vec<RegID> = Vec::new();
    for bid in 0..module.block_count() {
        for instr in module.block(BlockID(bid)).body() {
            if let Some(t) = target_of(instr) {
                assert!(!written.contains(&t), "{:?} is written twice", t);
                written.push(t);
            }
        }
    }
    assert_eq!(written, vec![x, y, z, ptr, back, test, w]);
    assert!(!written.contains(&p));
    assert!(!written.contains(&q));
}

#[test]
fn result_types_follow_the_operation() {
    let mut types = Types::new();
    let pair = types.make_struct(vec![Type::Integer(16), Type::Pointer]);
    let row = types.make_array(Type::Integer(8), 4);
    let mut b = Builder::new(Module::new(), types);
    let f = b.create_function(String::from("f"), Type::Unit);
    b.start_function(f);
    let v = b.add_variable(Type::Struct(pair));
    let ty = |b: &Builder, r: RegID| b.module().register(r).reg_type();

    let byte = b.set(Expr::from(200u8));
    assert_eq!(ty(&b, byte), Type::Integer(8));
    let word = b.set(Expr::from(-2i16));
    assert_eq!(ty(&b, word), Type::Integer(16));
    let flag = b.set(Expr::from(true));
    assert_eq!(ty(&b, flag), Type::Bool);
    let unit = b.set(Expr::from(()));
    assert_eq!(ty(&b, unit), Type::Unit);
    let null = b.set(Expr::Constant(ConstValue::NullPtr));
    assert_eq!(ty(&b, null), Type::Pointer);
    let size = b.set(Expr::Constant(ConstValue::SizeOf(Type::Struct(pair), IntSize::Long)));
    assert_eq!(ty(&b, size), Type::Integer(64));
    let junk = b.poison(Type::Struct(pair));
    assert_eq!(ty(&b, junk), Type::Struct(pair));

    let wide = b.zext(Expr::Register(byte), 32);
    assert_eq!(ty(&b, wide), Type::Integer(32));
    let signed = b.sext(Expr::Register(byte), 64);
    assert_eq!(ty(&b, signed), Type::Integer(64));
    let odd = b.trunc(Expr::Register(signed), 24);
    assert_eq!(ty(&b, odd), Type::Integer(24));
    let frozen = b.freeze(Expr::Register(junk));
    assert_eq!(ty(&b, frozen), Type::Struct(pair));
    let ptr = b.int_to_ptr(Expr::Register(signed));
    assert_eq!(ty(&b, ptr), Type::Pointer);
    let addr = b.ptr_to_int(Expr::Register(ptr), 64);
    assert_eq!(ty(&b, addr), Type::Integer(64));

    let eq = b.test_equal(Expr::Register(ptr), Expr::Register(null));
    assert_eq!(ty(&b, eq), Type::Bool);
    let picked = b.select(Expr::Register(eq), Expr::Register(byte), Expr::from(1u8));
    assert_eq!(ty(&b, picked), Type::Integer(8));

    let member = b.get_member(Expr::Register(junk), 1);
    assert_eq!(ty(&b, member), Type::Pointer);
    let var_ptr = b.get_var_ptr(v);
    let member_ptr = b.get_member_ptr(var_ptr, 0, pair);
    assert_eq!(ty(&b, member_ptr), Type::Pointer);
    let arr = b.poison(Type::Array(row));
    let element = b.get_element(Expr::Register(arr), Expr::from(3u8));
    assert_eq!(ty(&b, element), Type::Integer(8));
    let element_ptr = b.get_element_ptr(var_ptr, Expr::Register(signed), Type::Integer(8));
    assert_eq!(ty(&b, element_ptr), Type::Pointer);
    let fp = b.get_func_ptr(f);
    assert_eq!(ty(&b, fp), Type::Pointer);
    let loaded = b.load(var_ptr, Type::Struct(pair));
    assert_eq!(ty(&b, loaded), Type::Struct(pair));

    let made = b.set_struct(pair, vec![Expr::from(1u8), Expr::Register(null)]);
    assert_eq!(ty(&b, made), Type::Struct(pair));
    let listed = b.set_array(Type::Integer(8), vec![Expr::from(1u8); 4]);
    assert_eq!(ty(&b, listed), Type::Array(row));
    let filled = b.set_array_splat(Type::Integer(8), 4, Expr::from(0u8));
    assert_eq!(ty(&b, filled), Type::Array(row));
    let fresh = b.set_array_splat(Type::Integer(8), 5, Expr::from(0u8));
    assert_ne!(ty(&b, fresh), Type::Array(row));

    let called = b.call_ptr(fp, Type::Integer(16), vec![], CallingConvention::default());
    assert_eq!(ty(&b, called), Type::Integer(16));
    let asked = b.syscall_x86_64(Type::Integer(64), Expr::from(60u8), vec![Expr::from(0u8)]);
    assert_eq!(ty(&b, asked), Type::Integer(64));
}

#[test]
fn each_operation_builds_its_instruction() {
    let (mut b, f) = builder_in_function("ops", Type::Unit);
    let x = b.add_func_param(Type::Integer(32));
    let y = b.add_func_param(Type::Integer(32));
    b.start_function(f);
    let (ex, ey) = (Expr::Register(x), Expr::Register(y));
    b.add(ex, ey);
    b.sub(ex, ey);
    b.mul(ex, ey);
    b.udiv(ex, ey);
    b.idiv(ex, ey);
    b.umod(ex, ey);
    b.imod(ex, ey);
    b.shl(ex, ey);
    b.shr(ex, ey);
    b.sar(ex, ey);
    b.and(ex, ey);
    b.nand(ex, ey);
    b.or(ex, ey);
    b.nor(ex, ey);
    b.xor(ex, ey);
    b.xnor(ex, ey);
    b.test_equal(ex, ey);
    b.test_not_equal(ex, ey);
    b.test_greater(ex, ey);
    b.test_greater_equal(ex, ey);
    b.test_less(ex, ey);
    b.test_less_equal(ex, ey);
    b.test_above(ex, ey);
    b.test_above_equal(ex, ey);
    b.test_below(ex, ey);
    b.test_below_equal(ex, ey);
    b.not(ex);
    b.neg(ex);
    let (module, _) = b.finish();
    let body = module.block(BlockID(0)).body();
    let binary = [
        BinaryOp::Add,
        BinaryOp::Sub,
        BinaryOp::Mul,
        BinaryOp::UDiv,
        BinaryOp::IDiv,
        BinaryOp::UMod,
        BinaryOp::IMod,
        BinaryOp::ShiftLeft,
        BinaryOp::ShiftLogicalRight,
        BinaryOp::ShiftArithmeticRight,
        BinaryOp::And,
        BinaryOp::Nand,
        BinaryOp::Or,
        BinaryOp::Nor,
        BinaryOp::Xor,
        BinaryOp::XNor,
    ];
    let tests = [
        TestOp::Equal,
        TestOp::NotEqual,
        TestOp::Greater,
        TestOp::GreaterEqual,
        TestOp::Less,
        TestOp::LessEqual,
        TestOp::Above,
        TestOp::AboveEqual,
        TestOp::Below,
        TestOp::BelowEqual,
    ];
    for (i, op) in binary.iter().enumerate() {
        match &body[i] {
            Instruction::BinaryOp(t, o, _, _) => {
                assert_eq!(o, op);
                assert_eq!(*t, RegID(2 + i));
            }
            other => panic!("{:?}", other),
        }
    }
    for (i, op) in tests.iter().enumerate() {
        match &body[16 + i] {
            Instruction::TestOp(_, o, _, _) => assert_eq!(o, op),
            other => panic!("{:?}", other),
        }
    }
    assert!(matches!(body[26], Instruction::UnaryOp(_, UnaryOp::Not, _)));
    assert!(matches!(body[27], Instruction::UnaryOp(_, UnaryOp::Neg, _)));
}

#[test]
fn a_narrow_literal_takes_the_width_of_its_place() {
    let wide = Expr::from(7u8).coerce(Type::Integer(32));
    assert!(matches!(wide, Expr::Constant(ConstValue::Integer(7, IntSize::Int))));
    let same = Expr::from(7u32).coerce(Type::Integer(32));
    assert!(matches!(same, Expr::Constant(ConstValue::Integer(7, IntSize::Int))));
    let too_wide = Expr::from(7u64).coerce(Type::Integer(32));
    assert!(matches!(too_wide, Expr::Constant(ConstValue::Integer(7, IntSize::Long))));
    let odd_place = Expr::from(7u8).coerce(Type::Integer(24));
    assert!(matches!(odd_place, Expr::Constant(ConstValue::Integer(7, IntSize::Byte))));
    let not_an_integer = Expr::from(7u8).coerce(Type::Pointer);
    assert!(matches!(not_an_integer, Expr::Constant(ConstValue::Integer(7, IntSize::Byte))));
    let negative = Expr::from(-1i8).coerce(Type::Integer(64));
    assert!(matches!(negative, Expr::Constant(ConstValue::Integer(-1, IntSize::Long))));
    let register = Expr::Register(RegID(0)).coerce(Type::Integer(64));
    assert!(matches!(register, Expr::Register(RegID(0))));
    let flag = Expr::from(true).coerce(Type::Integer(64));
    assert!(matches!(flag, Expr::Constant(ConstValue::Bool(true))));
}

#[test]
fn a_literal_operand_is_retagged_when_built() {
    let (mut b, f) = builder_in_function("f", Type::Integer(64));
    let x = b.add_func_param(Type::Integer(64));
    b.start_function(f);
    let sum = b.add(Expr::Register(x), Expr::from(1u8));
    let callee = b.create_function(String::from("g"), Type::Unit);
    b.module_mut().add_parameter(callee, Type::Integer(32));
    let result = b.call(callee, vec![Expr::from(9u16)]);
    let (module, _) = b.finish();
    let body = module.block(BlockID(0)).body();
    assert!(matches!(
        body[0],
        Instruction::BinaryOp(_, BinaryOp::Add, _, Expr::Constant(ConstValue::Integer(1, IntSize::Long)))
    ));
    match &body[1] {
        Instruction::Call { target, function, args } => {
            assert_eq!(*target, result);
            assert_eq!(*function, callee);
            assert!(matches!(args[0], Expr::Constant(ConstValue::Integer(9, IntSize::Int))));
        }
        other => panic!("{:?}", other),
    }
    assert_eq!(module.register(sum).reg_type(), Type::Integer(64));
    assert_eq!(module.register(result).reg_type(), Type::Unit);
}

#[test]
fn types_can_be_interned_through_the_builder() {
    let mut b = Builder::new(Module::new(), Types::new());
    let arr = b.types_mut().make_array(Type::Bool, 2);
    let again = b.types_mut().make_array(Type::Bool, 2);
    assert_eq!(arr, again);
    let (_, types) = b.finish();
    assert_eq!(types.array(arr).length(), 2);
}

#[test]
fn constants_know_their_types() {
    assert_eq!(ConstValue::from(()).expr_type(), Type::Unit);
    assert_eq!(ConstValue::from(true).expr_type(), Type::Bool);
    assert_eq!(ConstValue::from(1u8).expr_type(), Type::Integer(8));
    assert_eq!(ConstValue::from(1i8).expr_type(), Type::Integer(8));
    assert_eq!(ConstValue::from(1u16).expr_type(), Type::Integer(16));
    assert_eq!(ConstValue::from(1i16).expr_type(), Type::Integer(16));
    assert_eq!(ConstValue::from(1u32).expr_type(), Type::Integer(32));
    assert_eq!(ConstValue::from(1i32).expr_type(), Type::Integer(32));
    assert_eq!(ConstValue::from(1u64).expr_type(), Type::Integer(64));
    assert_eq!(ConstValue::from(1i64).expr_type(), Type::Integer(64));
    assert_eq!(ConstValue::NullPtr.expr_type(), Type::Pointer);
    assert_eq!(ConstValue::Poison(Type::Integer(3)).expr_type(), Type::Integer(3));
    assert_eq!(ConstValue::SizeOf(Type::Bool, IntSize::Short).expr_type(), Type::Integer(16));
    let mut m = Module::new();
    let f = m.add_function(String::from("f"), Type::Unit);
    let r = m.add_register(f, Type::Pointer);
    assert_eq!(Expr::from(r).expr_type(&m), Type::Pointer);
    assert_eq!(Expr::from(-5i64).expr_type(&m), Type::Integer(64));
    assert!(matches!(Expr::from(u64::MAX), Expr::Constant(ConstValue::Integer(v, IntSize::Long)) if v == u64::MAX as i128));
}

#[test]
fn mnemonics() {
    assert_eq!(BinaryOp::Add.mnemonic(), "add");
    assert_eq!(BinaryOp::ShiftArithmeticRight.mnemonic(), "sar");
    assert_eq!(BinaryOp::XNor.mnemonic(), "xnor");
    assert_eq!(UnaryOp::SignExtend.mnemonic(), "sext");
    assert_eq!(UnaryOp::IntToPtr.mnemonic(), "inttoptr");
    assert_eq!(TestOp::NotEqual.mnemonic(), "test.neq");
    assert_eq!(TestOp::BelowEqual.mnemonic(), "test.ule");
}

#[test]
fn jumps_know_where_they_go() {
    let one = Instruction::Jump(BlockTarget::to(BlockID(4)));
    assert_eq!(one.next_blocks(), Some((BlockID(4), None)));
    let two = Instruction::Branch(
        Expr::from(true),
        BlockTarget::to(BlockID(1)),
        BlockTarget::with(BlockID(2), vec![Expr::from(1u8)]),
    );
    assert_eq!(two.next_blocks(), Some((BlockID(1), Some(BlockID(2)))));
    assert_eq!(Instruction::Return(Expr::from(())).next_blocks(), None);
    assert!(one.is_terminator() && two.is_terminator());
    assert!(Instruction::Return(Expr::from(())).is_terminator());
    assert!(!Instruction::Nop.is_terminator());
}

#[test]
fn a_module_can_be_asked_whether_it_is_in_order() {
    let (mut b, f) = builder_in_function("f", Type::Integer(16));
    let p = b.add_func_param(Type::Integer(16));
    b.start_function(f);
    let v = b.add_variable(Type::Bool);
    let next = b.add_block();
    let ptr = b.get_var_ptr(v);
    b.store(ptr, Expr::from(true));
    b.jump(BlockTarget::with(next, vec![Expr::Register(p)]));
    b.select_block(next);
    b.add_block_param(Type::Integer(16));
    b.do_return(Expr::Register(p));
    let (mut module, types) = b.finish();
    assert!(module.is_wf());
    assert!(module.is_typed_in(&types));
    assert!(Module::new().is_wf());

    assert!(module.instruction_fits(f, &Instruction::Return(Expr::Register(p))));
    let missing = Instruction::Return(Expr::Register(RegID(99)));
    assert!(!module.instruction_fits(f, &missing));
    let missing_block = Instruction::Jump(BlockTarget::to(BlockID(7)));
    assert!(!module.instruction_fits(f, &missing_block));
    assert!(!module.instruction_fits(f, &Instruction::GetVarPointer(p, VarID(3))));
    assert!(!module.instruction_fits(f, &Instruction::GetFunctionPointer(p, FuncID(1))));
    assert!(module.has_register(p, f));
    assert!(!module.has_register(p, FuncID(1)));
    assert!(module.has_variable(v, f));
    assert!(module.has_block(next, f));
    assert!(!module.has_block(BlockID(2), f));

    let other = module.add_function(String::from("g"), Type::Unit);
    let foreign = module.add_register(other, Type::Bool);
    assert!(module.is_wf());
    assert!(!module.instruction_fits(f, &Instruction::Return(Expr::Register(foreign))));
    module.push_instruction(next, Instruction::Return(Expr::Register(foreign)));
    assert!(!module.is_wf());
}

#[test]
fn types_of_another_store_are_found() {
    let mut types = Types::new();
    let pair = types.make_struct(vec![Type::Bool, Type::Bool]);
    let mut b = Builder::new(Module::new(), types);
    let f = b.begin_fun(String::from("f"), Type::Unit);
    b.add_func_param(Type::Struct(pair));
    let (module, types) = b.finish();
    assert!(module.is_typed_in(&types));
    assert!(!module.is_typed_in(&Types::new()));
    let _ = f;
}
