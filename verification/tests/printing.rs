use lowir::builder::Builder;
use lowir::module::calling_convention::CallingConvention;
use lowir::module::function::FuncID;
use lowir::module::instruction::{BlockTarget, ConstValue, Expr};
use lowir::module::Module;
use lowir::printing::Printer;
use lowir::types::{IntSize, Type, Types};

fn dump(module: &Module, types: &Types) -> String {
    let mut printer = Printer::new(module, types);
    printer.pretty_print();
    printer.finish()
}

#[test]
fn add3_is_printed_with_names_that_count_from_zero() {
    let mut b = Builder::new(Module::new(), Types::new());
    let f = b.begin_fun(String::from("add3"), Type::Integer(32));
    let a = b.add_func_param(Type::Integer(32));
    let bb = b.add_func_param(Type::Integer(32));
    let c = b.add_func_param(Type::Integer(32));
    b.start_function(f);
    let t1 = b.add(Expr::Register(a), Expr::Register(bb));
    let t2 = b.add(Expr::Register(t1), Expr::Register(c));
    b.do_return(Expr::Register(t2));
    let (module, types) = b.finish();
    let text = dump(&module, &types);
    assert_eq!(
        text,
        "fun $0:add3 (i32 %0, i32 %1, i32 %2) -> i32\n\
         \x20 @0:\n\
         \x20   %3 = add i32 %0, %1\n\
         \x20   %4 = add i32 %3, %2\n\
         \x20   return i32 %4\n\
         \n"
    );
    let lines: Vec<&str> = text.lines().filter(|l| l.starts_with("    ")).collect();
    assert_eq!(lines.len(), 3);
    assert!(lines[2].trim_start().starts_with("return "));
    assert!(text.contains("%0"));
}

#[test]
fn names_do_not_depend_on_other_functions() {
    let mut b = Builder::new(Module::new(), Types::new());
    let first = b.begin_fun(String::from("first"), Type::Unit);
    b.add_func_param(Type::Bool);
    b.add_register(Type::Bool);
    b.start_function(first);
    b.add_block();
    b.do_return(Expr::from(()));
    let second = b.begin_fun(String::from("second"), Type::Integer(8));
    let p = b.add_func_param(Type::Integer(8));
    b.start_function(second);
    let v = b.add_variable(Type::Integer(8));
    let ptr = b.get_var_ptr(v);
    b.store(ptr, Expr::Register(p));
    let back = b.load(ptr, Type::Integer(8));
    b.do_return(Expr::Register(back));
    let (module, types) = b.finish();
    assert_eq!(
        dump(&module, &types),
        "fun $0:first (i1 %0) -> ()\n\
         \x20 @0:\n\
         \x20   return () ()\n\
         \n\
         fun $1:second (i8 %0) -> i8\n\
         \x20 @0:\n\
         \x20   %1 = getvarptr i8 !0\n\
         \x20   store i8 %0 into %1\n\
         \x20   %2 = load i8 %1\n\
         \x20   return i8 %2\n\
         \n"
    );
}

#[test]
fn only_blocks_that_can_be_reached_are_printed() {
    let mut b = Builder::new(Module::new(), Types::new());
    let f = b.begin_fun(String::from("f"), Type::Unit);
    b.start_function(f);
    let second = b.add_block();
    let island = b.add_block();
    b.jump(BlockTarget::to(second));
    b.select_block(second);
    b.do_return(Expr::from(()));
    b.select_block(island);
    let lost = b.set(Expr::from(77u8));
    b.do_return(Expr::from(()));
    let (module, types) = b.finish();
    let text = dump(&module, &types);
    assert_eq!(
        text,
        "fun $0:f () -> ()\n\
         \x20 @0:\n\
         \x20   jump @1\n\
         \x20 @1:\n\
         \x20   return () ()\n\
         \n"
    );
    assert!(!text.contains("77"));
    assert_eq!(module.register(lost).reg_type(), Type::Integer(8));
}

#[test]
fn a_declared_function_has_only_a_head() {
    let mut m = Module::new();
    let f = m.add_function(String::from("puts"), Type::Integer(32));
    m.add_parameter(f, Type::Pointer);
    assert_eq!(dump(&m, &Types::new()), "fun $0:puts (ptr %0) -> i32\n\n");
    assert_eq!(dump(&Module::new(), &Types::new()), "");
}

#[test]
fn a_loop_is_printed_once() {
    let mut b = Builder::new(Module::new(), Types::new());
    let f = b.begin_fun(String::from("count"), Type::Unit);
    b.start_function(f);
    let head = b.add_block();
    let out = b.add_block();
    b.jump(BlockTarget::with(head, vec![Expr::from(0u32)]));
    b.select_block(head);
    let i = b.add_block_param(Type::Integer(32));
    let next = b.add(Expr::Register(i), Expr::from(1u8));
    let more = b.test_below(Expr::Register(next), Expr::from(10u8));
    b.branch(
        Expr::Register(more),
        BlockTarget::with(head, vec![Expr::Register(next)]),
        BlockTarget::to(out),
    );
    b.select_block(out);
    b.do_return(Expr::from(()));
    let (module, types) = b.finish();
    assert_eq!(
        dump(&module, &types),
        "fun $0:count () -> ()\n\
         \x20 @0:\n\
         \x20   jump (@1: 0)\n\
         \x20 @1(i32 %0):\n\
         \x20   %1 = add i32 %0, 1\n\
         \x20   %2 = test.ult i32 %1, 10\n\
         \x20   branch %2\n\
         \x20     (@1: %1)\n\
         \x20     @2\n\
         \x20 @2:\n\
         \x20   return () ()\n\
         \n"
    );
}

#[test]
fn every_instruction_has_its_text() {
    let mut types = Types::new();
    let pair = types.make_struct(vec![Type::Integer(16), Type::Pointer]);
    let row = types.make_array(Type::Integer(8), 4);
    let mut b = Builder::new(Module::new(), types);
    let g = b.create_function(String::from("callee"), Type::Integer(16));
    let f = b.begin_fun(String::from("all"), Type::Unit);
    b.start_function(f);
    let v = b.add_variable(Type::Struct(pair));
    b.nop();
    let x = b.set(Expr::from(-3i32));
    let y = b.sub(Expr::Register(x), Expr::from(4u8));
    let z = b.neg(Expr::Register(y));
    let long = b.sext(Expr::Register(z), 64);
    let t = b.test_equal(Expr::Register(x), Expr::Register(y));
    let s = b.select(Expr::Register(t), Expr::Register(x), Expr::Register(y));
    let junk = b.poison(Type::Struct(pair));
    let made = b.set_struct(pair, vec![Expr::from(1u16), Expr::Constant(ConstValue::NullPtr)]);
    let listed = b.set_array(Type::Integer(8), vec![Expr::from(1u8), Expr::from(2u8)]);
    let filled = b.set_array_splat(Type::Integer(8), 4, Expr::from(0u8));
    let e = b.get_element(Expr::Register(filled), Expr::from(2u8));
    let m = b.get_member(Expr::Register(made), 0);
    let p = b.get_var_ptr(v);
    let mp = b.get_member_ptr(p, 1, pair);
    let ep = b.get_element_ptr(p, Expr::Register(long), Type::Array(row));
    let fp = b.get_func_ptr(g);
    let l = b.load(mp, Type::Pointer);
    b.store(mp, Expr::Constant(ConstValue::SizeOf(Type::Struct(pair), IntSize::Long)));
    let c = b.call(g, vec![]);
    let cp = b.call_ptr(fp, Type::Bool, vec![Expr::Register(c), Expr::from(true)], CallingConvention::default());
    let sc = b.syscall_x86_64(Type::Integer(64), Expr::from(1u8), vec![Expr::Register(long)]);
    b.do_return(Expr::from(()));
    let (module, types) = b.finish();
    let _ = (s, junk, listed, e, m, ep, l, cp, sc);
    assert_eq!(
        dump(&module, &types),
        "fun $0:callee () -> i16\n\
         \n\
         fun $1:all () -> ()\n\
         \x20 @0:\n\
         \x20   nop\n\
         \x20   %0 = i32 -3\n\
         \x20   %1 = sub i32 %0, 4\n\
         \x20   %2 = neg i32 %1\n\
         \x20   %3 = sext i64 %2\n\
         \x20   %4 = test.eq i32 %0, %1\n\
         \x20   %5 = select %4 i32 %0, %1\n\
         \x20   %6 = { i16, ptr } poison\n\
         \x20   %7 = struct { 1, nullptr }\n\
         \x20   %8 = array [ 1, 2 ]\n\
         \x20   %9 = array [ 0 * 4 ]\n\
         \x20   %10 = getelement i8 %9, 2\n\
         \x20   %11 = getmember i16 %7, 0\n\
         \x20   %12 = getvarptr { i16, ptr } !0\n\
         \x20   %13 = getmemberptr ptr %12, 1\n\
         \x20   %14 = getelementptr [ i8 * 4 ] %12, %3\n\
         \x20   %15 = getfuncptr $0:callee\n\
         \x20   %16 = load ptr %13\n\
         \x20   store i64 sizeof { i16, ptr } into %13\n\
         \x20   %17 = call i16 $0:callee ()\n\
         \x20   %18 = call i1 %15 (%17, true)\n\
         \x20   %19 = syscall i64 1 (%3)\n\
         \x20   return () ()\n\
         \n"
    );
    assert_eq!(module.function(FuncID(1)).name(), "all");
}
