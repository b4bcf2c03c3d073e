//! The builder: a cursor into a module that creates instructions, computes
//! the type of each result and keeps the module in order.

use crate::module::block::BlockID;
use crate::module::calling_convention::CallingConvention;
use crate::module::function::{FuncID, FunctionSignature};
use crate::module::instruction::{
    BinaryOp, BlockTarget, ConstValue, Expr, Instruction, TestOp, UnaryOp,
};
use crate::module::register::RegID;
use crate::module::variable::VarID;
use crate::module::{Module, ModuleView};
use crate::types::{StructTypeID, Type, Types};
use vstd::prelude::*;

verus! {

/// Builds the code of a module, one instruction after another.
///
/// The builder stands in at most one function and, inside it, in at most
/// one block: new registers, variables and blocks go to that function, new
/// instructions to the end of that block.
pub struct Builder {
    module: Module,
    types: Types,
    at_function: Option<FuncID>,
    at_block: Option<BlockID>,
}

impl Builder {
    /// The module as built so far.
    pub closed spec fn module_of(&self) -> Module {
        self.module
    }

    /// The store of the types that the module uses.
    pub closed spec fn types_of(&self) -> Types {
        self.types
    }

    /// The function that the builder stands in.
    pub closed spec fn function_of(&self) -> Option<FuncID> {
        self.at_function
    }

    /// The block that the builder stands in.
    pub closed spec fn block_of(&self) -> Option<BlockID> {
        self.at_block
    }

    /// The invariant of a builder: module and type store are in order,
    /// every type of a register, a variable or a result is a type of the
    /// store, and the block that the builder stands in is one of the
    /// function that it stands in.
    pub open spec fn wf(&self) -> bool {
        &&& self.module_of().wf()
        &&& self.types_of().wf()
        &&& self.module_of().typed_in(&self.types_of())
        &&& self.function_of() matches Some(f) ==> f.0 < self.module_of()@.functions.len()
        &&& self.block_of() matches Some(b) ==> b.0 < self.module_of()@.blocks.len()
            && self.function_of() == Some(self.module_of()@.blocks[b.0 as int].function)
    }

    /// Whether instructions can be built: the builder is in order and stands
    /// in a block.
    pub open spec fn ready(&self) -> bool {
        self.wf() && self.block_of() is Some
    }

    /// Whether the operand `e` may be used where the builder stands: a
    /// register is one of the current function, and a type that a constant
    /// names is a type of the store.
    pub open spec fn operand_ok(&self, e: Expr) -> bool {
        &&& self.function_of() matches Some(f) && self.module_of()@.expr_ok(f, e)
        &&& self.types_of().all_valid(e.types())
    }

    /// Whether each operand of `es` may be used where the builder stands.
    pub open spec fn operands_ok(&self, es: Seq<Expr>) -> bool {
        forall|i: int| 0 <= i < es.len() ==> self.operand_ok(#[trigger] es[i])
    }

    /// The type of the operand `e`.
    pub open spec fn type_of(&self, e: Expr) -> Type {
        e.spec_expr_type(&self.module_of())
    }

    /// The instruction that was built last in the current block.
    pub open spec fn last(&self) -> Instruction {
        let b = self.block_of()->0;
        self.module_of()@.blocks[b.0 as int].body@.last()
    }

    /// Whether `post` stands where `pre` does.
    pub open spec fn same_place(pre: Builder, post: Builder) -> bool {
        &&& post.function_of() == pre.function_of()
        &&& post.block_of() == pre.block_of()
    }

    /// Whether `post` has the types and stands where `pre` does.
    pub open spec fn stays(pre: Builder, post: Builder) -> bool {
        &&& post.types_of() == pre.types_of()
        &&& Self::same_place(pre, post)
    }

    /// Whether single assignment, if it held in `pre`, holds in `post`.
    pub open spec fn ssa_kept(pre: Builder, post: Builder) -> bool {
        pre.module_of()@.ssa() ==> post.module_of()@.ssa()
    }

    /// What building an instruction with a result does: the current
    /// function has one register more, `target`, of type `ty`, and the
    /// current block one instruction more, which writes `target`. Nothing
    /// else changes.
    pub open spec fn emitted(pre: Builder, post: Builder, target: RegID, ty: Type) -> bool {
        &&& post.types_of() == pre.types_of()
        &&& Self::built(pre, post, target, ty)
    }

    /// What building an instruction with a result does to the module: the
    /// current function has one register more, `target`, of type `ty`, and
    /// the current block one instruction more, which writes `target`. The
    /// builder stays where it is.
    pub open spec fn built(pre: Builder, post: Builder, target: RegID, ty: Type) -> bool {
        let f = pre.function_of()->0;
        let b = pre.block_of()->0;
        let m0 = pre.module_of()@;
        let m2 = post.module_of()@;
        &&& Self::same_place(pre, post)
        &&& Self::ssa_kept(pre, post)
        &&& Module::register_added(m0, ModuleView { blocks: m0.blocks, ..m2 }, f, ty, false, target)
        &&& m2.blocks.len() == m0.blocks.len()
        &&& forall|i: int|
            0 <= i < m0.blocks.len() && i != b.0 ==> #[trigger] m2.blocks[i] == m0.blocks[i]
        &&& m2.blocks[b.0 as int].id == b
        &&& m2.blocks[b.0 as int].function == f
        &&& m2.blocks[b.0 as int].parameters == m0.blocks[b.0 as int].parameters
        &&& m2.blocks[b.0 as int].body@.len() == m0.blocks[b.0 as int].body@.len() + 1
        &&& m2.blocks[b.0 as int].body@.drop_last() == m0.blocks[b.0 as int].body@
        &&& post.last().target() == Some(target)
    }

    /// What building an instruction without a result does: the current
    /// block has one instruction more. Nothing else changes.
    pub open spec fn appended(pre: Builder, post: Builder) -> bool {
        let b = pre.block_of()->0;
        let m0 = pre.module_of()@;
        let m2 = post.module_of()@;
        &&& Self::stays(pre, post)
        &&& Self::ssa_kept(pre, post)
        &&& Module::instruction_pushed(m0, m2, b, post.last())
        &&& post.last().target() is None
    }

    /// A builder for `module`, whose types are those of `types`. It stands
    /// nowhere yet.
    pub fn new(module: Module, types: Types) -> (r: Self)
        requires
            module.wf(),
            types.wf(),
            module.typed_in(&types),
        ensures
            r.wf(),
            r.module_of() == module,
            r.types_of() == types,
            r.function_of() is None,
            r.block_of() is None,
    {
        Self { module, types, at_function: None, at_block: None }
    }

    /// Hands back the module and its types.
    pub fn finish(self) -> (r: (Module, Types))
        ensures
            r.0 == self.module_of(),
            r.1 == self.types_of(),
    {
        (self.module, self.types)
    }

    /// The module as built so far.
    pub fn module(&self) -> (r: &Module)
        ensures
            *r == self.module_of(),
    {
        &self.module
    }

    /// The store of the types that the module uses.
    pub fn types(&self) -> (r: &Types)
        ensures
            *r == self.types_of(),
    {
        &self.types
    }

    /// The module, to be changed in place. Whoever changes it sees to it
    /// that the builder is in order afterwards.
    pub fn module_mut(&mut self) -> (r: &mut Module)
        ensures
            *r == old(self).module_of(),
            final(self).module_of() == *final(r),
            Self::stays(*old(self), *final(self)),
    {
        &mut self.module
    }

    /// The type store, to be changed in place: this is how composite types
    /// are interned while the builder holds the store.
    pub fn types_mut(&mut self) -> (r: &mut Types)
        ensures
            *r == old(self).types_of(),
            final(self).types_of() == *final(r),
            final(self).module_of() == old(self).module_of(),
            final(self).function_of() == old(self).function_of(),
            final(self).block_of() == old(self).block_of(),
    {
        &mut self.types
    }

    /// Moves the builder to the end of `block`, and so into the function of
    /// that block.
    pub fn select_block(&mut self, block: BlockID)
        requires
            old(self).wf(),
            block.0 < old(self).module_of()@.blocks.len(),
        ensures
            final(self).wf(),
            final(self).module_of() == old(self).module_of(),
            final(self).types_of() == old(self).types_of(),
            final(self).block_of() == Some(block),
            final(self).function_of() == Some(
                old(self).module_of()@.blocks[block.0 as int].function,
            ),
    {
        let function = self.module.block(block).function();
        assert(self.module@.block_wf(block.0 as int));
        self.at_function = Some(function);
        self.at_block = Some(block);
    }

    /// Takes the builder out of its block. It stays in its function.
    pub fn unselect_block(&mut self)
        requires
            old(self).wf(),
        ensures
            final(self).wf(),
            final(self).module_of() == old(self).module_of(),
            final(self).types_of() == old(self).types_of(),
            final(self).block_of() is None,
            final(self).function_of() == old(self).function_of(),
    {
        self.at_block = None;
    }

    /// Moves the builder into the function `fid`, and into no block.
    pub fn select_fun(&mut self, fid: FuncID)
        requires
            old(self).wf(),
            fid.0 < old(self).module_of()@.functions.len(),
        ensures
            final(self).wf(),
            final(self).module_of() == old(self).module_of(),
            final(self).types_of() == old(self).types_of(),
            final(self).block_of() is None,
            final(self).function_of() == Some(fid),
    {
        self.at_function = Some(fid);
        self.at_block = None;
    }

    /// The function that the builder stands in.
    pub fn selected_function(&self) -> (r: Option<FuncID>)
        ensures
            r == self.function_of(),
    {
        self.at_function
    }

    /// The block that the builder stands in.
    pub fn selected_block(&self) -> (r: Option<BlockID>)
        ensures
            r == self.block_of(),
    {
        self.at_block
    }

    /// Declares a function. The builder stays where it is.
    pub fn create_function(&mut self, name: String, return_type: Type) -> (id: FuncID)
        requires
            old(self).wf(),
            old(self).types_of().valid(return_type),
        ensures
            final(self).wf(),
            Self::stays(*old(self), *final(self)),
            Self::ssa_kept(*old(self), *final(self)),
            Module::function_added(
                old(self).module_of()@,
                final(self).module_of()@,
                name@,
                return_type,
                id,
            ),
    {
        let id = self.module.add_function(name, return_type);
        proof {
            let pre = old(self).module@;
            let post = self.module@;
            assert(post.functions[id.0 as int].block_ids() =~= Seq::empty());
            assert(post.functions[id.0 as int].variable_ids() =~= Seq::empty());
            if pre.ssa() {
                assert forall|r: RegID| post.is_parameter(r) implies pre.is_parameter(r) by {
                    if exists|f: int, p: int|
                        0 <= f < post.functions.len() && 0 <= p
                            < post.functions[f].parameter_registers@.len()
                            && #[trigger] post.functions[f].parameter_registers@[p] == r {
                        let (f, p) = choose|f: int, p: int|
                            0 <= f < post.functions.len() && 0 <= p
                                < post.functions[f].parameter_registers@.len()
                                && #[trigger] post.functions[f].parameter_registers@[p] == r;
                        assert(pre.functions[f].parameter_registers@[p] == r);
                    }
                }
                Module::lemma_ssa_kept(pre, post);
            }
        }
        id
    }

    /// Declares a function and moves the builder into it, into no block.
    pub fn begin_fun(&mut self, name: String, return_type: Type) -> (id: FuncID)
        requires
            old(self).wf(),
            old(self).types_of().valid(return_type),
        ensures
            final(self).wf(),
            final(self).types_of() == old(self).types_of(),
            final(self).function_of() == Some(id),
            final(self).block_of() is None,
            Self::ssa_kept(*old(self), *final(self)),
            Module::function_added(
                old(self).module_of()@,
                final(self).module_of()@,
                name@,
                return_type,
                id,
            ),
    {
        let id = self.create_function(name, return_type);
        self.select_fun(id);
        id
    }

    /// Gives the function `fid` a body and moves the builder to its entry
    /// block, which is new and empty.
    pub fn start_function(&mut self, fid: FuncID)
        requires
            old(self).wf(),
            fid.0 < old(self).module_of()@.functions.len(),
            old(self).module_of()@.functions[fid.0 as int].definition is None,
        ensures
            final(self).ready(),
            final(self).types_of() == old(self).types_of(),
            final(self).function_of() == Some(fid),
            Self::ssa_kept(*old(self), *final(self)),
            Module::definition_started(
                old(self).module_of()@,
                final(self).module_of()@,
                fid,
                final(self).block_of()->0,
            ),
    {
        let entry = self.module.start_function_definition(fid);
        proof {
            if old(self).module@.ssa() {
                Module::lemma_ssa_same_code(old(self).module@, self.module@);
            }
        }
        self.select_block(entry);
    }

    /// Creates a register in the current function and makes it the next
    /// parameter of the function.
    pub fn add_func_param(&mut self, param_type: Type) -> (id: RegID)
        requires
            old(self).wf(),
            old(self).function_of() is Some,
            old(self).types_of().valid(param_type),
        ensures
            final(self).wf(),
            Self::stays(*old(self), *final(self)),
            Self::ssa_kept(*old(self), *final(self)),
            Module::register_added(
                old(self).module_of()@,
                final(self).module_of()@,
                old(self).function_of()->0,
                param_type,
                true,
                id,
            ),
    {
        let fid = self.at_function.unwrap();
        let id = self.module.add_parameter(fid, param_type);
        proof {
            if old(self).module@.ssa() {
                Module::lemma_ssa_register_added(
                    old(self).module@,
                    self.module@,
                    fid,
                    param_type,
                    true,
                    id,
                );
            }
        }
        id
    }

    /// Creates a register in the current function and makes it the next
    /// parameter of the current block.
    pub fn add_block_param(&mut self, param_type: Type) -> (id: RegID)
        requires
            old(self).ready(),
            old(self).types_of().valid(param_type),
        ensures
            final(self).wf(),
            Self::stays(*old(self), *final(self)),
            Self::ssa_kept(*old(self), *final(self)),
            Module::block_parameter_added(
                old(self).module_of()@,
                final(self).module_of()@,
                old(self).block_of()->0,
                param_type,
                id,
            ),
    {
        let block = self.at_block.unwrap();
        let id = self.module.add_block_parameter(block, param_type);
        proof {
            if old(self).module@.ssa() {
                Module::lemma_ssa_block_parameter_added(
                    old(self).module@,
                    self.module@,
                    block,
                    param_type,
                    id,
                );
            }
        }
        id
    }

    /// Creates a register in the current function. No instruction writes
    /// it yet.
    pub fn add_register(&mut self, reg_type: Type) -> (id: RegID)
        requires
            old(self).wf(),
            old(self).function_of() is Some,
            old(self).types_of().valid(reg_type),
        ensures
            final(self).wf(),
            Self::stays(*old(self), *final(self)),
            Self::ssa_kept(*old(self), *final(self)),
            old(self).module_of()@.grows_to(final(self).module_of()@),
            Module::register_added(
                old(self).module_of()@,
                final(self).module_of()@,
                old(self).function_of()->0,
                reg_type,
                false,
                id,
            ),
    {
        let fid = self.at_function.unwrap();
        let id = self.module.add_register(fid, reg_type);
        proof {
            if old(self).module@.ssa() {
                Module::lemma_ssa_register_added(
                    old(self).module@,
                    self.module@,
                    fid,
                    reg_type,
                    false,
                    id,
                );
            }
        }
        id
    }

    /// Creates a variable in the current function, which has a body.
    pub fn add_variable(&mut self, var_type: Type) -> (id: VarID)
        requires
            old(self).wf(),
            old(self).function_of() matches Some(f) && old(
                self,
            ).module_of()@.functions[f.0 as int].definition is Some,
            old(self).types_of().valid(var_type),
        ensures
            final(self).wf(),
            Self::stays(*old(self), *final(self)),
            Self::ssa_kept(*old(self), *final(self)),
            Module::variable_added(
                old(self).module_of()@,
                final(self).module_of()@,
                old(self).function_of()->0,
                var_type,
                id,
            ),
    {
        let fid = self.at_function.unwrap();
        let id = self.module.add_variable(fid, var_type);
        proof {
            if old(self).module@.ssa() {
                Module::lemma_ssa_same_code(old(self).module@, self.module@);
            }
        }
        id
    }

    /// Creates an empty block in the current function, which has a body.
    /// The builder stays where it is.
    pub fn add_block(&mut self) -> (id: BlockID)
        requires
            old(self).wf(),
            old(self).function_of() matches Some(f) && old(
                self,
            ).module_of()@.functions[f.0 as int].definition is Some,
        ensures
            final(self).wf(),
            Self::stays(*old(self), *final(self)),
            Self::ssa_kept(*old(self), *final(self)),
            Module::block_created(
                old(self).module_of()@,
                final(self).module_of()@,
                old(self).function_of()->0,
                id,
            ),
    {
        let fid = self.at_function.unwrap();
        let id = self.module.add_block(fid);
        proof {
            if old(self).module@.ssa() {
                Module::lemma_ssa_same_code(old(self).module@, self.module@);
            }
        }
        id
    }

    /// Creates an empty block in the current function, which has a body,
    /// and moves the builder into it.
    pub fn begin_block(&mut self) -> (id: BlockID)
        requires
            old(self).wf(),
            old(self).function_of() matches Some(f) && old(
                self,
            ).module_of()@.functions[f.0 as int].definition is Some,
        ensures
            final(self).ready(),
            final(self).types_of() == old(self).types_of(),
            final(self).function_of() == old(self).function_of(),
            final(self).block_of() == Some(id),
            Self::ssa_kept(*old(self), *final(self)),
            Module::block_created(
                old(self).module_of()@,
                final(self).module_of()@,
                old(self).function_of()->0,
                id,
            ),
    {
        let id = self.add_block();
        self.select_block(id);
        id
    }

    /// Appends to the current block an instruction that writes the
    /// register `target`, which was created for it just now.
    fn push_result(
        &mut self,
        Ghost(pre): Ghost<Builder>,
        Ghost(ty): Ghost<Type>,
        target: RegID,
        instr: Instruction,
    )
        requires
            pre.ready(),
            old(self).ready(),
            Self::stays(pre, *old(self)),
            Self::ssa_kept(pre, *old(self)),
            Module::register_added(
                pre.module_of()@,
                old(self).module_of()@,
                pre.function_of()->0,
                ty,
                false,
                target,
            ),
            instr.target() == Some(target),
            old(self).module_of()@.instr_ok(pre.function_of()->0, instr),
        ensures
            final(self).wf(),
            Self::emitted(pre, *final(self), target, ty),
            final(self).last() == instr,
    {
        let block = self.at_block.unwrap();
        let ghost mid = self.module@;
        self.module.push_instruction(block, instr);
        proof {
            let m0 = pre.module@;
            let m2 = self.module@;
            assert(mid =~= ModuleView { blocks: m0.blocks, ..m2 });
            assert(m2.blocks[block.0 as int].body@.drop_last() =~= m0.blocks[block.0 as int].body@);
            if m0.ssa() {
                Module::lemma_register_added_wf(m0, mid, pre.function_of()->0, ty, false, target);
                m0.lemma_fresh_unused(target);
                assert forall|b: int, k: int| #[trigger] mid.written_at(b, k) != Some(target) by {
                    assert(mid.written_at(b, k) == m0.written_at(b, k));
                }
                assert(!mid.is_parameter(target)) by {
                    if mid.is_parameter(target) {
                        if exists|f: int, p: int|
                            0 <= f < mid.functions.len() && 0 <= p
                                < mid.functions[f].parameter_registers@.len()
                                && #[trigger] mid.functions[f].parameter_registers@[p] == target {
                            let (f, p) = choose|f: int, p: int|
                                0 <= f < mid.functions.len() && 0 <= p
                                    < mid.functions[f].parameter_registers@.len()
                                    && #[trigger] mid.functions[f].parameter_registers@[p]
                                    == target;
                            assert(m0.functions[f].parameter_registers@[p] == target);
                        } else {
                            let (b, p) = choose|b: int, p: int|
                                0 <= b < mid.blocks.len() && 0 <= p < mid.blocks[b].parameters@.len()
                                    && #[trigger] mid.blocks[b].parameters@[p] == target;
                            assert(m0.blocks[b].parameters@[p] == target);
                        }
                    }
                }
                Module::lemma_ssa_pushed(mid, m2, block, instr);
            }
        }
    }

    /// Appends to the current block an instruction that writes no register.
    fn push_plain(&mut self, instr: Instruction)
        requires
            old(self).ready(),
            instr.target() is None,
            old(self).module_of()@.instr_ok(old(self).function_of()->0, instr),
        ensures
            final(self).wf(),
            Self::appended(*old(self), *final(self)),
            final(self).last() == instr,
    {
        let block = self.at_block.unwrap();
        self.module.push_instruction(block, instr);
        proof {
            if old(self).module@.ssa() {
                Module::lemma_ssa_pushed(old(self).module@, self.module@, block, instr);
            }
        }
    }

    /// The type of the operand `e`.
    pub fn expr_type(&self, e: &Expr) -> (r: Type)
        requires
            self.wf(),
            self.operand_ok(*e),
        ensures
            r == self.type_of(*e),
            self.types_of().valid(r),
    {
        proof {
            match *e {
                Expr::Register(id) => {
                    assert(self.types.valid(self.module@.registers[id.0 as int].reg_type));
                },
                Expr::Constant(ConstValue::Poison(t)) => {
                    assert(e.types()[0] == t);
                },
                _ => {},
            }
        }
        e.expr_type(&self.module)
    }

    /// Appends an instruction that does nothing.
    pub fn nop(&mut self)
        requires
            old(self).ready(),
        ensures
            final(self).wf(),
            Self::appended(*old(self), *final(self)),
            final(self).last() == Instruction::Nop,
    {
        self.push_plain(Instruction::Nop);
    }

    /// A new register that holds the value `to`.
    pub fn set(&mut self, to: Expr) -> (r: RegID)
        requires
            old(self).ready(),
            old(self).operand_ok(to),
        ensures
            final(self).wf(),
            Self::emitted(*old(self), *final(self), r, old(self).type_of(to)),
            final(self).last() == Instruction::Assign(r, to),
    {
        let ty = self.expr_type(&to);
        let target = self.add_register(ty);
        self.push_result(Ghost(*old(self)), Ghost(ty), target, Instruction::Assign(target, to));
        target
    }

    /// Whether `a` and `b` may be the operands of an operation on two
    /// integers: `a` is an integer, and `b` is one of the same width once
    /// it is handed to a place of the type of `a`.
    pub open spec fn binary_ok(&self, a: Expr, b: Expr) -> bool {
        &&& self.ready()
        &&& self.operand_ok(a)
        &&& self.operand_ok(b)
        &&& self.type_of(a) is Integer
        &&& self.type_of(b.spec_coerce(self.type_of(a))) == self.type_of(a)
    }

    fn binary(&mut self, op: BinaryOp, a: Expr, b: Expr) -> (r: RegID)
        requires
            old(self).binary_ok(a, b),
        ensures
            final(self).wf(),
            Self::emitted(*old(self), *final(self), r, old(self).type_of(a)),
            final(self).last() == Instruction::BinaryOp(
                r,
                op,
                a,
                b.spec_coerce(old(self).type_of(a)),
            ),
    {
        let ty = self.expr_type(&a);
        let b = b.coerce(ty);
        let target = self.add_register(ty);
        self.push_result(
            Ghost(*old(self)),
            Ghost(ty),
            target,
            Instruction::BinaryOp(target, op, a, b),
        );
        target
    }

    /// Whether `a` and `b` may be compared: they have the same type once
    /// `b` is handed to a place of the type of `a`.
    pub open spec fn test_ok(&self, a: Expr, b: Expr) -> bool {
        &&& self.ready()
        &&& self.operand_ok(a)
        &&& self.operand_ok(b)
        &&& self.type_of(b.spec_coerce(self.type_of(a))) == self.type_of(a)
    }

    fn test(&mut self, op: TestOp, a: Expr, b: Expr) -> (r: RegID)
        requires
            old(self).test_ok(a, b),
        ensures
            final(self).wf(),
            Self::emitted(*old(self), *final(self), r, Type::Bool),
            final(self).last() == Instruction::TestOp(
                r,
                op,
                a,
                b.spec_coerce(old(self).type_of(a)),
            ),
    {
        let ty = self.expr_type(&a);
        let b = b.coerce(ty);
        let target = self.add_register(Type::Bool);
        self.push_result(
            Ghost(*old(self)),
            Ghost(Type::Bool),
            target,
            Instruction::TestOp(target, op, a, b),
        );
        target
    }

    /// Writes `value` to where `ptr` points to.
    pub fn store(&mut self, ptr: RegID, value: Expr)
        requires
            old(self).ready(),
            old(self).operand_ok(Expr::Register(ptr)),
            old(self).operand_ok(value),
            old(self).type_of(Expr::Register(ptr)) is Pointer,
        ensures
            final(self).wf(),
            Self::appended(*old(self), *final(self)),
            final(self).last() == (Instruction::Store { pointer: ptr, value, volatile: false }),
    {
        self.push_plain(Instruction::Store { pointer: ptr, value, volatile: false });
    }

    /// Whether a jump to `target` may be built: the block is one of the
    /// current function, and so is each register that is handed over.
    pub open spec fn target_ok(&self, target: BlockTarget) -> bool {
        &&& self.function_of() matches Some(f) && self.module_of()@.block_in(target.block, f)
        &&& self.operands_ok(target.parameters@)
    }

    /// Ends the current block with a jump.
    pub fn jump(&mut self, target: BlockTarget)
        requires
            old(self).ready(),
            old(self).target_ok(target),
        ensures
            final(self).wf(),
            Self::appended(*old(self), *final(self)),
            final(self).last() == Instruction::Jump(target),
    {
        proof {
            let f = self.function_of()->0;
            assert forall|j: int| 0 <= j < target.parameters@.len() implies self.module@.expr_ok(
                f,
                #[trigger] target.parameters@[j],
            ) by {
                assert(self.operand_ok(target.parameters@[j]));
            }
        }
        self.push_plain(Instruction::Jump(target));
    }

    /// The sum of `a` and `b`.
    pub fn add(&mut self, a: Expr, b: Expr) -> (r: RegID)
        requires
            old(self).binary_ok(a, b),
        ensures
            final(self).wf(),
            Self::emitted(*old(self), *final(self), r, old(self).type_of(a)),
            final(self).last() == Instruction::BinaryOp(
                r,
                BinaryOp::Add,
                a,
                b.spec_coerce(old(self).type_of(a)),
            ),
    {
        self.binary(BinaryOp::Add, a, b)
    }

    /// The difference of `a` and `b`.
    pub fn sub(&mut self, a: Expr, b: Expr) -> (r: RegID)
        requires
            old(self).binary_ok(a, b),
        ensures
            final(self).wf(),
            Self::emitted(*old(self), *final(self), r, old(self).type_of(a)),
            final(self).last() == Instruction::BinaryOp(
                r,
                BinaryOp::Sub,
                a,
                b.spec_coerce(old(self).type_of(a)),
            ),
    {
        self.binary(BinaryOp::Sub, a, b)
    }

    /// The product of `a` and `b`.
    pub fn mul(&mut self, a: Expr, b: Expr) -> (r: RegID)
        requires
            old(self).binary_ok(a, b),
        ensures
            final(self).wf(),
            Self::emitted(*old(self), *final(self), r, old(self).type_of(a)),
            final(self).last() == Instruction::BinaryOp(
                r,
                BinaryOp::Mul,
                a,
                b.spec_coerce(old(self).type_of(a)),
            ),
    {
        self.binary(BinaryOp::Mul, a, b)
    }

    /// The quotient of `a` by `b`, both taken as unsigned numbers.
    pub fn udiv(&mut self, a: Expr, b: Expr) -> (r: RegID)
        requires
            old(self).binary_ok(a, b),
        ensures
            final(self).wf(),
            Self::emitted(*old(self), *final(self), r, old(self).type_of(a)),
            final(self).last() == Instruction::BinaryOp(
                r,
                BinaryOp::UDiv,
                a,
                b.spec_coerce(old(self).type_of(a)),
            ),
    {
        self.binary(BinaryOp::UDiv, a, b)
    }

    /// The quotient of `a` by `b`, both taken as signed numbers.
    pub fn idiv(&mut self, a: Expr, b: Expr) -> (r: RegID)
        requires
            old(self).binary_ok(a, b),
        ensures
            final(self).wf(),
            Self::emitted(*old(self), *final(self), r, old(self).type_of(a)),
            final(self).last() == Instruction::BinaryOp(
                r,
                BinaryOp::IDiv,
                a,
                b.spec_coerce(old(self).type_of(a)),
            ),
    {
        self.binary(BinaryOp::IDiv, a, b)
    }

    /// The remainder of `a` by `b`, both taken as unsigned numbers.
    pub fn umod(&mut self, a: Expr, b: Expr) -> (r: RegID)
        requires
            old(self).binary_ok(a, b),
        ensures
            final(self).wf(),
            Self::emitted(*old(self), *final(self), r, old(self).type_of(a)),
            final(self).last() == Instruction::BinaryOp(
                r,
                BinaryOp::UMod,
                a,
                b.spec_coerce(old(self).type_of(a)),
            ),
    {
        self.binary(BinaryOp::UMod, a, b)
    }

    /// The remainder of `a` by `b`, both taken as signed numbers.
    pub fn imod(&mut self, a: Expr, b: Expr) -> (r: RegID)
        requires
            old(self).binary_ok(a, b),
        ensures
            final(self).wf(),
            Self::emitted(*old(self), *final(self), r, old(self).type_of(a)),
            final(self).last() == Instruction::BinaryOp(
                r,
                BinaryOp::IMod,
                a,
                b.spec_coerce(old(self).type_of(a)),
            ),
    {
        self.binary(BinaryOp::IMod, a, b)
    }

    /// `a` shifted left by `b` bits.
    pub fn shl(&mut self, a: Expr, b: Expr) -> (r: RegID)
        requires
            old(self).binary_ok(a, b),
        ensures
            final(self).wf(),
            Self::emitted(*old(self), *final(self), r, old(self).type_of(a)),
            final(self).last() == Instruction::BinaryOp(
                r,
                BinaryOp::ShiftLeft,
                a,
                b.spec_coerce(old(self).type_of(a)),
            ),
    {
        self.binary(BinaryOp::ShiftLeft, a, b)
    }

    /// `a` shifted right by `b` bits, filled with zeros.
    pub fn shr(&mut self, a: Expr, b: Expr) -> (r: RegID)
        requires
            old(self).binary_ok(a, b),
        ensures
            final(self).wf(),
            Self::emitted(*old(self), *final(self), r, old(self).type_of(a)),
            final(self).last() == Instruction::BinaryOp(
                r,
                BinaryOp::ShiftLogicalRight,
                a,
                b.spec_coerce(old(self).type_of(a)),
            ),
    {
        self.binary(BinaryOp::ShiftLogicalRight, a, b)
    }

    /// `a` shifted right by `b` bits, filled with the sign.
    pub fn sar(&mut self, a: Expr, b: Expr) -> (r: RegID)
        requires
            old(self).binary_ok(a, b),
        ensures
            final(self).wf(),
            Self::emitted(*old(self), *final(self), r, old(self).type_of(a)),
            final(self).last() == Instruction::BinaryOp(
                r,
                BinaryOp::ShiftArithmeticRight,
                a,
                b.spec_coerce(old(self).type_of(a)),
            ),
    {
        self.binary(BinaryOp::ShiftArithmeticRight, a, b)
    }

    /// The bits that are set in `a` and in `b`.
    pub fn and(&mut self, a: Expr, b: Expr) -> (r: RegID)
        requires
            old(self).binary_ok(a, b),
        ensures
            final(self).wf(),
            Self::emitted(*old(self), *final(self), r, old(self).type_of(a)),
            final(self).last() == Instruction::BinaryOp(
                r,
                BinaryOp::And,
                a,
                b.spec_coerce(old(self).type_of(a)),
            ),
    {
        self.binary(BinaryOp::And, a, b)
    }

    /// The bits that are not set in both `a` and `b`.
    pub fn nand(&mut self, a: Expr, b: Expr) -> (r: RegID)
        requires
            old(self).binary_ok(a, b),
        ensures
            final(self).wf(),
            Self::emitted(*old(self), *final(self), r, old(self).type_of(a)),
            final(self).last() == Instruction::BinaryOp(
                r,
                BinaryOp::Nand,
                a,
                b.spec_coerce(old(self).type_of(a)),
            ),
    {
        self.binary(BinaryOp::Nand, a, b)
    }

    /// The bits that are set in `a` or in `b`.
    pub fn or(&mut self, a: Expr, b: Expr) -> (r: RegID)
        requires
            old(self).binary_ok(a, b),
        ensures
            final(self).wf(),
            Self::emitted(*old(self), *final(self), r, old(self).type_of(a)),
            final(self).last() == Instruction::BinaryOp(
                r,
                BinaryOp::Or,
                a,
                b.spec_coerce(old(self).type_of(a)),
            ),
    {
        self.binary(BinaryOp::Or, a, b)
    }

    /// The bits that are set in neither `a` nor `b`.
    pub fn nor(&mut self, a: Expr, b: Expr) -> (r: RegID)
        requires
            old(self).binary_ok(a, b),
        ensures
            final(self).wf(),
            Self::emitted(*old(self), *final(self), r, old(self).type_of(a)),
            final(self).last() == Instruction::BinaryOp(
                r,
                BinaryOp::Nor,
                a,
                b.spec_coerce(old(self).type_of(a)),
            ),
    {
        self.binary(BinaryOp::Nor, a, b)
    }

    /// The bits that are set in exactly one of `a` and `b`.
    pub fn xor(&mut self, a: Expr, b: Expr) -> (r: RegID)
        requires
            old(self).binary_ok(a, b),
        ensures
            final(self).wf(),
            Self::emitted(*old(self), *final(self), r, old(self).type_of(a)),
            final(self).last() == Instruction::BinaryOp(
                r,
                BinaryOp::Xor,
                a,
                b.spec_coerce(old(self).type_of(a)),
            ),
    {
        self.binary(BinaryOp::Xor, a, b)
    }

    /// The bits in which `a` and `b` agree.
    pub fn xnor(&mut self, a: Expr, b: Expr) -> (r: RegID)
        requires
            old(self).binary_ok(a, b),
        ensures
            final(self).wf(),
            Self::emitted(*old(self), *final(self), r, old(self).type_of(a)),
            final(self).last() == Instruction::BinaryOp(
                r,
                BinaryOp::XNor,
                a,
                b.spec_coerce(old(self).type_of(a)),
            ),
    {
        self.binary(BinaryOp::XNor, a, b)
    }

    /// Whether `a` equals `b`.
    pub fn test_equal(&mut self, a: Expr, b: Expr) -> (r: RegID)
        requires
            old(self).test_ok(a, b),
        ensures
            final(self).wf(),
            Self::emitted(*old(self), *final(self), r, Type::Bool),
            final(self).last() == Instruction::TestOp(
                r,
                TestOp::Equal,
                a,
                b.spec_coerce(old(self).type_of(a)),
            ),
    {
        self.test(TestOp::Equal, a, b)
    }

    /// Whether `a` differs from `b`.
    pub fn test_not_equal(&mut self, a: Expr, b: Expr) -> (r: RegID)
        requires
            old(self).test_ok(a, b),
        ensures
            final(self).wf(),
            Self::emitted(*old(self), *final(self), r, Type::Bool),
            final(self).last() == Instruction::TestOp(
                r,
                TestOp::NotEqual,
                a,
                b.spec_coerce(old(self).type_of(a)),
            ),
    {
        self.test(TestOp::NotEqual, a, b)
    }

    /// Whether `a` is greater than `b`, both taken as signed numbers.
    pub fn test_greater(&mut self, a: Expr, b: Expr) -> (r: RegID)
        requires
            old(self).test_ok(a, b),
        ensures
            final(self).wf(),
            Self::emitted(*old(self), *final(self), r, Type::Bool),
            final(self).last() == Instruction::TestOp(
                r,
                TestOp::Greater,
                a,
                b.spec_coerce(old(self).type_of(a)),
            ),
    {
        self.test(TestOp::Greater, a, b)
    }

    /// Whether `a` is no less than `b`, both taken as signed numbers.
    pub fn test_greater_equal(&mut self, a: Expr, b: Expr) -> (r: RegID)
        requires
            old(self).test_ok(a, b),
        ensures
            final(self).wf(),
            Self::emitted(*old(self), *final(self), r, Type::Bool),
            final(self).last() == Instruction::TestOp(
                r,
                TestOp::GreaterEqual,
                a,
                b.spec_coerce(old(self).type_of(a)),
            ),
    {
        self.test(TestOp::GreaterEqual, a, b)
    }

    /// Whether `a` is less than `b`, both taken as signed numbers.
    pub fn test_less(&mut self, a: Expr, b: Expr) -> (r: RegID)
        requires
            old(self).test_ok(a, b),
        ensures
            final(self).wf(),
            Self::emitted(*old(self), *final(self), r, Type::Bool),
            final(self).last() == Instruction::TestOp(
                r,
                TestOp::Less,
                a,
                b.spec_coerce(old(self).type_of(a)),
            ),
    {
        self.test(TestOp::Less, a, b)
    }

    /// Whether `a` is no greater than `b`, both taken as signed numbers.
    pub fn test_less_equal(&mut self, a: Expr, b: Expr) -> (r: RegID)
        requires
            old(self).test_ok(a, b),
        ensures
            final(self).wf(),
            Self::emitted(*old(self), *final(self), r, Type::Bool),
            final(self).last() == Instruction::TestOp(
                r,
                TestOp::LessEqual,
                a,
                b.spec_coerce(old(self).type_of(a)),
            ),
    {
        self.test(TestOp::LessEqual, a, b)
    }

    /// Whether `a` is greater than `b`, both taken as unsigned numbers.
    pub fn test_above(&mut self, a: Expr, b: Expr) -> (r: RegID)
        requires
            old(self).test_ok(a, b),
        ensures
            final(self).wf(),
            Self::emitted(*old(self), *final(self), r, Type::Bool),
            final(self).last() == Instruction::TestOp(
                r,
                TestOp::Above,
                a,
                b.spec_coerce(old(self).type_of(a)),
            ),
    {
        self.test(TestOp::Above, a, b)
    }

    /// Whether `a` is no less than `b`, both taken as unsigned numbers.
    pub fn test_above_equal(&mut self, a: Expr, b: Expr) -> (r: RegID)
        requires
            old(self).test_ok(a, b),
        ensures
            final(self).wf(),
            Self::emitted(*old(self), *final(self), r, Type::Bool),
            final(self).last() == Instruction::TestOp(
                r,
                TestOp::AboveEqual,
                a,
                b.spec_coerce(old(self).type_of(a)),
            ),
    {
        self.test(TestOp::AboveEqual, a, b)
    }

    /// Whether `a` is less than `b`, both taken as unsigned numbers.
    pub fn test_below(&mut self, a: Expr, b: Expr) -> (r: RegID)
        requires
            old(self).test_ok(a, b),
        ensures
            final(self).wf(),
            Self::emitted(*old(self), *final(self), r, Type::Bool),
            final(self).last() == Instruction::TestOp(
                r,
                TestOp::Below,
                a,
                b.spec_coerce(old(self).type_of(a)),
            ),
    {
        self.test(TestOp::Below, a, b)
    }

    /// Whether `a` is no greater than `b`, both taken as unsigned numbers.
    pub fn test_below_equal(&mut self, a: Expr, b: Expr) -> (r: RegID)
        requires
            old(self).test_ok(a, b),
        ensures
            final(self).wf(),
            Self::emitted(*old(self), *final(self), r, Type::Bool),
            final(self).last() == Instruction::TestOp(
                r,
                TestOp::BelowEqual,
                a,
                b.spec_coerce(old(self).type_of(a)),
            ),
    {
        self.test(TestOp::BelowEqual, a, b)
    }

    fn unary(&mut self, op: UnaryOp, a: Expr, ty: Type) -> (r: RegID)
        requires
            old(self).ready(),
            old(self).operand_ok(a),
            old(self).types_of().valid(ty),
        ensures
            final(self).wf(),
            Self::emitted(*old(self), *final(self), r, ty),
            final(self).last() == Instruction::UnaryOp(r, op, a),
    {
        let target = self.add_register(ty);
        self.push_result(Ghost(*old(self)), Ghost(ty), target, Instruction::UnaryOp(target, op, a));
        target
    }

    /// `a` with every bit flipped.
    pub fn not(&mut self, a: Expr) -> (r: RegID)
        requires
            old(self).ready(),
            old(self).operand_ok(a),
            old(self).type_of(a) is Integer,
        ensures
            final(self).wf(),
            Self::emitted(*old(self), *final(self), r, old(self).type_of(a)),
            final(self).last() == Instruction::UnaryOp(r, UnaryOp::Not, a),
    {
        let ty = self.expr_type(&a);
        self.unary(UnaryOp::Not, a, ty)
    }

    /// `a` with the opposite sign.
    pub fn neg(&mut self, a: Expr) -> (r: RegID)
        requires
            old(self).ready(),
            old(self).operand_ok(a),
            old(self).type_of(a) is Integer,
        ensures
            final(self).wf(),
            Self::emitted(*old(self), *final(self), r, old(self).type_of(a)),
            final(self).last() == Instruction::UnaryOp(r, UnaryOp::Neg, a),
    {
        let ty = self.expr_type(&a);
        self.unary(UnaryOp::Neg, a, ty)
    }

    /// `a`, or some fixed value of its type where `a` must not be relied on.
    pub fn freeze(&mut self, a: Expr) -> (r: RegID)
        requires
            old(self).ready(),
            old(self).operand_ok(a),
        ensures
            final(self).wf(),
            Self::emitted(*old(self), *final(self), r, old(self).type_of(a)),
            final(self).last() == Instruction::UnaryOp(r, UnaryOp::Freeze, a),
    {
        let ty = self.expr_type(&a);
        self.unary(UnaryOp::Freeze, a, ty)
    }

    /// The lowest `to` bits of the integer `a`, which is wider.
    pub fn trunc(&mut self, a: Expr, to: u16) -> (r: RegID)
        requires
            old(self).ready(),
            old(self).operand_ok(a),
            old(self).type_of(a) matches Type::Integer(from) && 1 <= to < from,
        ensures
            final(self).wf(),
            Self::emitted(*old(self), *final(self), r, Type::Integer(to)),
            final(self).last() == Instruction::UnaryOp(r, UnaryOp::Truncate, a),
    {
        proof {
            let ty = self.expr_type_valid(a);
        }
        self.unary(UnaryOp::Truncate, a, Type::Integer(to))
    }

    /// The integer `a` widened to `to` bits, filled with its sign.
    pub fn sext(&mut self, a: Expr, to: u16) -> (r: RegID)
        requires
            old(self).ready(),
            old(self).operand_ok(a),
            old(self).type_of(a) matches Type::Integer(from) && from < to <= 256,
        ensures
            final(self).wf(),
            Self::emitted(*old(self), *final(self), r, Type::Integer(to)),
            final(self).last() == Instruction::UnaryOp(r, UnaryOp::SignExtend, a),
    {
        self.unary(UnaryOp::SignExtend, a, Type::Integer(to))
    }

    /// The integer `a` widened to `to` bits, filled with zeros.
    pub fn zext(&mut self, a: Expr, to: u16) -> (r: RegID)
        requires
            old(self).ready(),
            old(self).operand_ok(a),
            old(self).type_of(a) matches Type::Integer(from) && from < to <= 256,
        ensures
            final(self).wf(),
            Self::emitted(*old(self), *final(self), r, Type::Integer(to)),
            final(self).last() == Instruction::UnaryOp(r, UnaryOp::ZeroExtend, a),
    {
        self.unary(UnaryOp::ZeroExtend, a, Type::Integer(to))
    }

    /// The pointer whose address is the integer `a`.
    pub fn int_to_ptr(&mut self, a: Expr) -> (r: RegID)
        requires
            old(self).ready(),
            old(self).operand_ok(a),
            old(self).type_of(a) is Integer,
        ensures
            final(self).wf(),
            Self::emitted(*old(self), *final(self), r, Type::Pointer),
            final(self).last() == Instruction::UnaryOp(r, UnaryOp::IntToPtr, a),
    {
        self.unary(UnaryOp::IntToPtr, a, Type::Pointer)
    }

    /// The address of the pointer `a`, as an integer of `to` bits.
    pub fn ptr_to_int(&mut self, a: Expr, to: u16) -> (r: RegID)
        requires
            old(self).ready(),
            old(self).operand_ok(a),
            old(self).type_of(a) is Pointer,
            1 <= to <= 256,
        ensures
            final(self).wf(),
            Self::emitted(*old(self), *final(self), r, Type::Integer(to)),
            final(self).last() == Instruction::UnaryOp(r, UnaryOp::PtrToInt, a),
    {
        self.unary(UnaryOp::PtrToInt, a, Type::Integer(to))
    }

    /// A value of type `ty` that must not be relied on.
    pub fn poison(&mut self, ty: Type) -> (r: RegID)
        requires
            old(self).ready(),
            old(self).types_of().valid(ty),
        ensures
            final(self).wf(),
            Self::emitted(*old(self), *final(self), r, ty),
            final(self).last() == Instruction::Assign(r, Expr::Constant(ConstValue::Poison(ty))),
    {
        let value = Expr::Constant(ConstValue::Poison(ty));
        assert(value.types()[0] == ty);
        self.set(value)
    }

    /// `t` where the truth value `c` holds, else `f`.
    pub fn select(&mut self, c: Expr, t: Expr, f: Expr) -> (r: RegID)
        requires
            old(self).ready(),
            old(self).operand_ok(c),
            old(self).operand_ok(t),
            old(self).operand_ok(f),
            old(self).type_of(c) is Bool,
            old(self).type_of(f.spec_coerce(old(self).type_of(t))) == old(self).type_of(t),
        ensures
            final(self).wf(),
            Self::emitted(*old(self), *final(self), r, old(self).type_of(t)),
            final(self).last() == (Instruction::Select {
                target: r,
                condition: c,
                true_value: t,
                false_value: f.spec_coerce(old(self).type_of(t)),
            }),
    {
        let ty = self.expr_type(&t);
        let f = f.coerce(ty);
        let target = self.add_register(ty);
        self.push_result(
            Ghost(*old(self)),
            Ghost(ty),
            target,
            Instruction::Select { target, condition: c, true_value: t, false_value: f },
        );
        target
    }

    /// The element of the array value `array` at `index`. A constant index
    /// lies inside the array.
    pub fn get_element(&mut self, array: Expr, index: Expr) -> (r: RegID)
        requires
            old(self).ready(),
            old(self).operand_ok(array),
            old(self).operand_ok(index),
            old(self).type_of(array) is Array,
            old(self).type_of(index) is Integer,
            index matches Expr::Constant(ConstValue::Integer(at, _)) ==> 0 <= at < old(self).array_of(
                array,
            ).1,
        ensures
            final(self).wf(),
            Self::emitted(*old(self), *final(self), r, old(self).array_of(array).0),
            final(self).last() == (Instruction::GetElement { target: r, array, index }),
    {
        let id = match self.expr_type(&array) {
            Type::Array(id) => id,
            _ => vstd::pervasive::unreached(),
        };
        let element_type = self.types.array(id).member();
        let target = self.add_register(element_type);
        self.push_result(
            Ghost(*old(self)),
            Ghost(element_type),
            target,
            Instruction::GetElement { target, array, index },
        );
        target
    }

    /// The address of the element at `index` in the array of `element_type`
    /// that `arr_ptr` points to.
    pub fn get_element_ptr(&mut self, arr_ptr: RegID, index: Expr, element_type: Type) -> (r: RegID)
        requires
            old(self).ready(),
            old(self).operand_ok(Expr::Register(arr_ptr)),
            old(self).operand_ok(index),
            old(self).type_of(Expr::Register(arr_ptr)) is Pointer,
            old(self).type_of(index) is Integer,
            old(self).types_of().valid(element_type),
        ensures
            final(self).wf(),
            Self::emitted(*old(self), *final(self), r, Type::Pointer),
            final(self).last() == (Instruction::GetElementPtr {
                target: r,
                array_pointer: arr_ptr,
                index,
                element_type,
            }),
    {
        let target = self.add_register(Type::Pointer);
        self.push_result(
            Ghost(*old(self)),
            Ghost(Type::Pointer),
            target,
            Instruction::GetElementPtr { target, array_pointer: arr_ptr, index, element_type },
        );
        target
    }

    /// The member number `member` of the struct value `structure`.
    pub fn get_member(&mut self, structure: Expr, member: u32) -> (r: RegID)
        requires
            old(self).ready(),
            old(self).operand_ok(structure),
            old(self).type_of(structure) is Struct,
            member < old(self).members_of(structure).len(),
        ensures
            final(self).wf(),
            Self::emitted(*old(self), *final(self), r, old(self).members_of(structure)[member as int]),
            final(self).last() == (Instruction::GetMember { target: r, structure, member }),
    {
        let id = match self.expr_type(&structure) {
            Type::Struct(id) => id,
            _ => vstd::pervasive::unreached(),
        };
        let member_type = self.types.structure(id).members()[member as usize];
        let target = self.add_register(member_type);
        self.push_result(
            Ghost(*old(self)),
            Ghost(member_type),
            target,
            Instruction::GetMember { target, structure, member },
        );
        target
    }

    /// The address of the member number `member` in the struct of type
    /// `struct_type` that `struct_pointer` points to.
    pub fn get_member_ptr(
        &mut self,
        struct_pointer: RegID,
        member: u32,
        struct_type: StructTypeID,
    ) -> (r: RegID)
        requires
            old(self).ready(),
            old(self).operand_ok(Expr::Register(struct_pointer)),
            old(self).type_of(Expr::Register(struct_pointer)) is Pointer,
            old(self).types_of().valid(Type::Struct(struct_type)),
            member < old(self).types_of().structs()[struct_type.0 as int].len(),
        ensures
            final(self).wf(),
            Self::emitted(*old(self), *final(self), r, Type::Pointer),
            final(self).last() == (Instruction::GetMemberPtr {
                target: r,
                struct_pointer,
                member,
                struct_type,
            }),
    {
        let target = self.add_register(Type::Pointer);
        self.push_result(
            Ghost(*old(self)),
            Ghost(Type::Pointer),
            target,
            Instruction::GetMemberPtr { target, struct_pointer, member, struct_type },
        );
        target
    }

    /// The address of the variable `var` of the current function.
    pub fn get_var_ptr(&mut self, var: VarID) -> (r: RegID)
        requires
            old(self).ready(),
            old(self).module_of()@.var_in(var, old(self).function_of()->0),
        ensures
            final(self).wf(),
            Self::emitted(*old(self), *final(self), r, Type::Pointer),
            final(self).last() == Instruction::GetVarPointer(r, var),
    {
        let target = self.add_register(Type::Pointer);
        self.push_result(
            Ghost(*old(self)),
            Ghost(Type::Pointer),
            target,
            Instruction::GetVarPointer(target, var),
        );
        target
    }

    /// The address of the function `func`.
    pub fn get_func_ptr(&mut self, func: FuncID) -> (r: RegID)
        requires
            old(self).ready(),
            func.0 < old(self).module_of()@.functions.len(),
        ensures
            final(self).wf(),
            Self::emitted(*old(self), *final(self), r, Type::Pointer),
            final(self).last() == Instruction::GetFunctionPointer(r, func),
    {
        let target = self.add_register(Type::Pointer);
        self.push_result(
            Ghost(*old(self)),
            Ghost(Type::Pointer),
            target,
            Instruction::GetFunctionPointer(target, func),
        );
        target
    }

    /// The value of type `pointee_type` that `ptr` points to.
    pub fn load(&mut self, ptr: RegID, pointee_type: Type) -> (r: RegID)
        requires
            old(self).ready(),
            old(self).operand_ok(Expr::Register(ptr)),
            old(self).type_of(Expr::Register(ptr)) is Pointer,
            old(self).types_of().valid(pointee_type),
        ensures
            final(self).wf(),
            Self::emitted(*old(self), *final(self), r, pointee_type),
            final(self).last() == (Instruction::Load { target: r, pointer: ptr, volatile: false }),
    {
        let target = self.add_register(pointee_type);
        self.push_result(
            Ghost(*old(self)),
            Ghost(pointee_type),
            target,
            Instruction::Load { target, pointer: ptr, volatile: false },
        );
        target
    }

    /// The return type of the current function.
    pub open spec fn return_type(&self) -> Type {
        let f = self.function_of()->0;
        self.module_of()@.functions[f.0 as int].signature.return_type
    }

    /// Element type and length of the array type of the operand `e`.
    pub open spec fn array_of(&self, e: Expr) -> (Type, u64) {
        let id = self.type_of(e)->Array_0;
        self.types_of().arrays()[id.0 as int]
    }

    /// The member types of the struct type of the operand `e`.
    pub open spec fn members_of(&self, e: Expr) -> Seq<Type> {
        let id = self.type_of(e)->Struct_0;
        self.types_of().structs()[id.0 as int]
    }

    proof fn expr_type_valid(&self, e: Expr) -> (ty: Type)
        requires
            self.wf(),
            self.operand_ok(e),
        ensures
            ty == self.type_of(e),
            self.types_of().valid(ty),
    {
        match e {
            Expr::Register(id) => {
                assert(self.types.valid(self.module@.registers[id.0 as int].reg_type));
            },
            Expr::Constant(ConstValue::Poison(t)) => {
                assert(e.types()[0] == t);
            },
            _ => {},
        }
        self.type_of(e)
    }

    /// Ends the current block with a jump to `true_branch` if the truth
    /// value `c` holds, and to `false_branch` if not.
    pub fn branch(&mut self, c: Expr, true_branch: BlockTarget, false_branch: BlockTarget)
        requires
            old(self).ready(),
            old(self).operand_ok(c),
            old(self).type_of(c) is Bool,
            old(self).target_ok(true_branch),
            old(self).target_ok(false_branch),
        ensures
            final(self).wf(),
            Self::appended(*old(self), *final(self)),
            final(self).last() == Instruction::Branch(c, true_branch, false_branch),
    {
        proof {
            let f = self.function_of()->0;
            assert forall|j: int| 0 <= j < true_branch.parameters@.len() implies self.module@.expr_ok(
                f,
                #[trigger] true_branch.parameters@[j],
            ) by {
                assert(self.operand_ok(true_branch.parameters@[j]));
            }
            assert forall|j: int| 0 <= j < false_branch.parameters@.len() implies self.module@.expr_ok(
                f,
                #[trigger] false_branch.parameters@[j],
            ) by {
                assert(self.operand_ok(false_branch.parameters@[j]));
            }
        }
        self.push_plain(Instruction::Branch(c, true_branch, false_branch));
    }

    /// Ends the current block: leaves the function with `value`, which has
    /// the return type of the function.
    pub fn do_return(&mut self, value: Expr)
        requires
            old(self).ready(),
            old(self).operand_ok(value),
            old(self).type_of(value) == old(self).return_type(),
        ensures
            final(self).wf(),
            Self::appended(*old(self), *final(self)),
            final(self).last() == Instruction::Return(value),
    {
        self.push_plain(Instruction::Return(value));
    }

    /// Whether `args` may be handed to a function with the signature
    /// `signature`: there is one argument for each parameter, or more where
    /// the function takes a variable number of them, and each has the type
    /// of its parameter once it is handed to a place of that type.
    pub open spec fn args_ok(&self, signature: FunctionSignature, args: Seq<Expr>) -> bool {
        let tys = signature.parameter_types@;
        &&& self.operands_ok(args)
        &&& args.len() == tys.len() || (signature.is_varargs && args.len() > tys.len())
        &&& forall|i: int|
            0 <= i < tys.len() ==> self.type_of((#[trigger] args[i]).spec_coerce(tys[i])) == tys[i]
    }

    /// The result of calling the function `func` of the module with
    /// `args`.
    pub fn call(&mut self, func: FuncID, args: Vec<Expr>) -> (r: RegID)
        requires
            old(self).ready(),
            func.0 < old(self).module_of()@.functions.len(),
            old(self).args_ok(old(self).module_of()@.functions[func.0 as int].signature, args@),
        ensures
            final(self).wf(),
            Self::emitted(
                *old(self),
                *final(self),
                r,
                old(self).module_of()@.functions[func.0 as int].signature.return_type,
            ),
            final(self).last() matches Instruction::Call { target, function, args: handed }
                && target == r && function == func && handed@ == coerced(
                args@,
                old(self).module_of()@.functions[func.0 as int].signature.parameter_types@,
            ),
    {
        let ret_type = self.module.function(func).return_type();
        assert(self.types.valid(self.module@.functions[func.0 as int].signature.return_type));
        let handed = coerce_all(args, self.module.function(func).parameter_types());
        let target = self.add_register(ret_type);
        proof {
            let f = self.function_of()->0;
            assert forall|i: int| 0 <= i < handed@.len() implies self.module@.expr_ok(
                f,
                #[trigger] handed@[i],
            ) by {
                assert(old(self).operand_ok(args@[i]));
            }
        }
        self.push_result(
            Ghost(*old(self)),
            Ghost(ret_type),
            target,
            Instruction::Call { target, function: func, args: handed },
        );
        target
    }

    /// The result of calling the function that `func_ptr` points to with
    /// `args`. The function returns a value of `ret_type`, takes what
    /// `args` are, and is called as `convention` says.
    pub fn call_ptr(
        &mut self,
        func_ptr: RegID,
        ret_type: Type,
        args: Vec<Expr>,
        convention: CallingConvention,
    ) -> (r: RegID)
        requires
            old(self).ready(),
            old(self).operand_ok(Expr::Register(func_ptr)),
            old(self).type_of(Expr::Register(func_ptr)) is Pointer,
            old(self).types_of().valid(ret_type),
            old(self).operands_ok(args@),
        ensures
            final(self).wf(),
            Self::emitted(*old(self), *final(self), r, ret_type),
            final(self).last() matches Instruction::CallPtr {
                target,
                function_ptr,
                args: handed,
                signature,
            } && target == r && function_ptr == func_ptr && handed == args
                && signature.return_type == ret_type && signature.calling_convention
                == convention && !signature.is_varargs && signature.parameter_types@ == Seq::new(
                args@.len(),
                |i: int| old(self).type_of(args@[i]),
            ),
    {
        let mut parameter_types: Vec<Type> = Vec::new();
        let mut i: usize = 0;
        while i < args.len()
            invariant
                0 <= i <= args@.len(),
                self.wf(),
                self.operands_ok(args@),
                parameter_types@ == Seq::new(i as nat, |k: int| self.type_of(args@[k])),
            decreases args@.len() - i,
        {
            assert(self.operand_ok(args@[i as int]));
            let ty = self.expr_type(&args[i]);
            parameter_types.push(ty);
            assert(parameter_types@ =~= Seq::new((i + 1) as nat, |k: int| self.type_of(args@[k])));
            i += 1;
        }
        let signature = FunctionSignature {
            return_type: ret_type,
            parameter_types,
            calling_convention: convention,
            is_varargs: false,
        };
        let target = self.add_register(ret_type);
        proof {
            let f = self.function_of()->0;
            let operands = seq![Expr::Register(func_ptr)] + args@;
            assert forall|i: int| 0 <= i < operands.len() implies self.module@.expr_ok(
                f,
                #[trigger] operands[i],
            ) by {
                if i > 0 {
                    assert(old(self).operand_ok(args@[i - 1]));
                }
            }
        }
        self.push_result(
            Ghost(*old(self)),
            Ghost(ret_type),
            target,
            Instruction::CallPtr { target, function_ptr: func_ptr, args, signature },
        );
        target
    }

    /// The result, of type `ty`, of the service number `call_id` of the
    /// operating system, asked with `args`. The number and each argument
    /// are handed over as 64-bit values.
    pub fn syscall_x86_64(&mut self, ty: Type, call_id: Expr, args: Vec<Expr>) -> (r: RegID)
        requires
            old(self).ready(),
            old(self).types_of().valid(ty),
            old(self).operand_ok(call_id),
            old(self).type_of(call_id.spec_coerce(Type::Integer(64))) == Type::Integer(64),
            old(self).operands_ok(args@),
            forall|i: int|
                0 <= i < args@.len() ==> {
                    let t = old(self).type_of((#[trigger] args@[i]).spec_coerce(Type::Integer(64)));
                    t == Type::Integer(64) || t is Pointer
                },
        ensures
            final(self).wf(),
            Self::emitted(*old(self), *final(self), r, ty),
            final(self).last() matches Instruction::Syscall { target, number, args: handed }
                && target == r && number == call_id.spec_coerce(Type::Integer(64)) && handed@
                == coerced_to(args@, Type::Integer(64)),
    {
        let number = call_id.coerce(Type::Integer(64));
        let handed = coerce_all_to(args, Type::Integer(64));
        let target = self.add_register(ty);
        proof {
            let f = self.function_of()->0;
            let operands = seq![number] + handed@;
            assert forall|i: int| 0 <= i < operands.len() implies self.module@.expr_ok(
                f,
                #[trigger] operands[i],
            ) by {
                if i > 0 {
                    assert(old(self).operand_ok(args@[i - 1]));
                }
            }
        }
        self.push_result(
            Ghost(*old(self)),
            Ghost(ty),
            target,
            Instruction::Syscall { target, number, args: handed },
        );
        target
    }

    /// A struct value of type `ty` with the members `values`, in this
    /// order.
    pub fn set_struct(&mut self, ty: StructTypeID, values: Vec<Expr>) -> (r: RegID)
        requires
            old(self).ready(),
            old(self).types_of().valid(Type::Struct(ty)),
            old(self).operands_ok(values@),
            values@.len() == old(self).types_of().structs()[ty.0 as int].len(),
            forall|i: int|
                0 <= i < values@.len() ==> old(self).type_of(
                    (#[trigger] values@[i]).spec_coerce(
                        old(self).types_of().structs()[ty.0 as int][i],
                    ),
                ) == old(self).types_of().structs()[ty.0 as int][i],
        ensures
            final(self).wf(),
            Self::emitted(*old(self), *final(self), r, Type::Struct(ty)),
            final(self).last() matches Instruction::MakeStruct(target, handed) && target == r
                && handed@ == coerced(values@, old(self).types_of().structs()[ty.0 as int]),
    {
        let handed = coerce_all(values, self.types.structure(ty).members());
        let target = self.add_register(Type::Struct(ty));
        proof {
            let f = self.function_of()->0;
            assert forall|i: int| 0 <= i < handed@.len() implies self.module@.expr_ok(
                f,
                #[trigger] handed@[i],
            ) by {
                assert(old(self).operand_ok(values@[i]));
            }
        }
        self.push_result(
            Ghost(*old(self)),
            Ghost(Type::Struct(ty)),
            target,
            Instruction::MakeStruct(target, handed),
        );
        target
    }

    /// An array value with the elements `values`, each of type `elem_ty`.
    /// Its type is interned in the store of the builder.
    pub fn set_array(&mut self, elem_ty: Type, values: Vec<Expr>) -> (r: RegID)
        requires
            old(self).ready(),
            old(self).types_of().valid(elem_ty),
            old(self).operands_ok(values@),
            forall|i: int|
                0 <= i < values@.len() ==> old(self).type_of(
                    (#[trigger] values@[i]).spec_coerce(elem_ty),
                ) == elem_ty,
        ensures
            final(self).wf(),
            exists|id: crate::types::ArrTypeID|
                Types::array_interned(
                    old(self).types_of(),
                    final(self).types_of(),
                    elem_ty,
                    values@.len() as u64,
                    id,
                ) && Self::built(*old(self), *final(self), r, Type::Array(id)),
            final(self).last() matches Instruction::MakeArray(target, handed) && target == r
                && handed@ == coerced_to(values@, elem_ty),
    {
        let length = values.len() as u64;
        let id = self.types.make_array(elem_ty, length);
        let ghost mid = *self;
        let handed = coerce_all_to(values, elem_ty);
        let target = self.add_register(Type::Array(id));
        proof {
            let f = self.function_of()->0;
            assert forall|i: int| 0 <= i < handed@.len() implies self.module@.expr_ok(
                f,
                #[trigger] handed@[i],
            ) by {
                assert(old(self).operand_ok(values@[i]));
            }
        }
        self.push_result(
            Ghost(mid),
            Ghost(Type::Array(id)),
            target,
            Instruction::MakeArray(target, handed),
        );
        assert(Self::built(*old(self), *self, target, Type::Array(id)));
        target
    }

    /// An array value that holds `value`, of type `elem_ty`, `size` times.
    /// Its type is interned in the store of the builder.
    pub fn set_array_splat(&mut self, elem_ty: Type, size: u64, value: Expr) -> (r: RegID)
        requires
            old(self).ready(),
            old(self).types_of().valid(elem_ty),
            old(self).operand_ok(value),
            old(self).type_of(value.spec_coerce(elem_ty)) == elem_ty,
        ensures
            final(self).wf(),
            exists|id: crate::types::ArrTypeID|
                Types::array_interned(
                    old(self).types_of(),
                    final(self).types_of(),
                    elem_ty,
                    size,
                    id,
                ) && Self::built(*old(self), *final(self), r, Type::Array(id)),
            final(self).last() == Instruction::MakeShortArray(r, value.spec_coerce(elem_ty), size),
    {
        let id = self.types.make_array(elem_ty, size);
        let ghost mid = *self;
        let value = value.coerce(elem_ty);
        let target = self.add_register(Type::Array(id));
        self.push_result(
            Ghost(mid),
            Ghost(Type::Array(id)),
            target,
            Instruction::MakeShortArray(target, value, size),
        );
        assert(Self::built(*old(self), *self, target, Type::Array(id)));
        target
    }
}

/// The operands `args` as they are handed to places of the types `tys`, one
/// by one. Operands beyond the last type are handed on as they are.
pub open spec fn coerced(args: Seq<Expr>, tys: Seq<Type>) -> Seq<Expr> {
    Seq::new(
        args.len(),
        |i: int|
            if i < tys.len() {
                args[i].spec_coerce(tys[i])
            } else {
                args[i]
            },
    )
}

/// The operands `args` as they are handed to places of the type `ty`.
pub open spec fn coerced_to(args: Seq<Expr>, ty: Type) -> Seq<Expr> {
    Seq::new(args.len(), |i: int| args[i].spec_coerce(ty))
}

fn coerce_all(args: Vec<Expr>, tys: &Vec<Type>) -> (r: Vec<Expr>)
    ensures
        r@ == coerced(args@, tys@),
{
    let mut out: Vec<Expr> = Vec::new();
    let mut i: usize = 0;
    while i < args.len()
        invariant
            0 <= i <= args@.len(),
            out@ == coerced(args@, tys@).take(i as int),
        decreases args@.len() - i,
    {
        let e = if i < tys.len() {
            args[i].coerce(tys[i])
        } else {
            args[i]
        };
        out.push(e);
        assert(out@ =~= coerced(args@, tys@).take(i + 1));
        i += 1;
    }
    assert(out@ =~= coerced(args@, tys@));
    out
}

fn coerce_all_to(args: Vec<Expr>, ty: Type) -> (r: Vec<Expr>)
    ensures
        r@ == coerced_to(args@, ty),
{
    let mut out: Vec<Expr> = Vec::new();
    let mut i: usize = 0;
    while i < args.len()
        invariant
            0 <= i <= args@.len(),
            out@ == coerced_to(args@, ty).take(i as int),
        decreases args@.len() - i,
    {
        out.push(args[i].coerce(ty));
        assert(out@ =~= coerced_to(args@, ty).take(i + 1));
        i += 1;
    }
    assert(out@ =~= coerced_to(args@, ty));
    out
}

} // verus!
