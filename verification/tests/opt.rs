use lowir::builder::Builder;
use lowir::module::block::BlockID;
use lowir::module::instruction::{ConstValue, Expr, Instruction};
use lowir::module::Module;
use lowir::opt::local_store_load_forwarding::run_local_store_load_forwarding;
use lowir::types::{IntSize, Type, Types};

#[test]
fn a_load_after_a_store_to_the_same_pointer_becomes_a_copy() {
    let mut b = Builder::new(Module::new(), Types::new());
    let f = b.begin_fun(String::from("f"), Type::Unit);
    b.start_function(f);
    let v = b.add_variable(Type::Integer(8));
    let w = b.add_variable(Type::Integer(8));
    let p = b.get_var_ptr(v);
    let q = b.get_var_ptr(w);
    let early = b.load(p, Type::Integer(8));
    b.store(p, Expr::from(5u8));
    let same = b.load(p, Type::Integer(8));
    let other = b.load(q, Type::Integer(8));
    b.store(q, Expr::Register(same));
    let second = b.load(q, Type::Integer(8));
    let stale = b.load(p, Type::Integer(8));
    b.do_return(Expr::from(()));
    let (mut module, _) = b.finish();

    assert!(run_local_store_load_forwarding(&mut module));
    let body = module.block(BlockID(0)).body();
    assert_eq!(body.len(), 10);
    assert!(matches!(body[2], Instruction::Load { target, pointer, .. } if target == early && pointer == p));
    assert!(matches!(body[3], Instruction::Store { .. }));
    assert!(matches!(
        body[4],
        Instruction::Assign(t, Expr::Constant(ConstValue::Integer(5, IntSize::Byte))) if t == same
    ));
    assert!(matches!(body[5], Instruction::Load { target, pointer, .. } if target == other && pointer == q));
    assert!(matches!(body[7], Instruction::Assign(t, Expr::Register(r)) if t == second && r == same));
    assert!(matches!(body[8], Instruction::Load { target, pointer, .. } if target == stale && pointer == p));
    assert!(matches!(body[9], Instruction::Return(_)));

    assert!(!run_local_store_load_forwarding(&mut module));
}

#[test]
fn stores_are_not_forwarded_into_another_block() {
    let mut b = Builder::new(Module::new(), Types::new());
    let f = b.begin_fun(String::from("f"), Type::Unit);
    b.start_function(f);
    let v = b.add_variable(Type::Bool);
    let next = b.add_block();
    let p = b.get_var_ptr(v);
    b.store(p, Expr::from(true));
    b.jump(lowir::module::instruction::BlockTarget::to(next));
    b.select_block(next);
    b.load(p, Type::Bool);
    b.do_return(Expr::from(()));
    let (mut module, _) = b.finish();
    assert!(!run_local_store_load_forwarding(&mut module));
    assert!(matches!(module.block(next).body()[0], Instruction::Load { .. }));
    let mut empty = Module::new();
    assert!(!run_local_store_load_forwarding(&mut empty));
}
