//! The module: the graph of functions, registers, variables, blocks and
//! instructions, each known by its identifier.

use self::block::{Block, BlockID};
use self::function::{FuncID, Function, FunctionDefinition};
use self::instruction::{BlockTarget, Expr, Instruction};
use self::register::{RegID, Register};
use self::variable::{VarID, Variable};
use crate::types::{Type, Types};
use vstd::prelude::*;

pub mod block;
pub mod calling_convention;
pub mod check;
pub mod function;
pub mod instruction;
pub mod register;
pub mod variable;

verus! {

/// Everything that a compilation unit holds. An identifier is the index of
/// its entity here; nothing is ever removed, so it stays valid.
pub struct Module {
    functions: Vec<Function>,
    registers: Vec<Register>,
    variables: Vec<Variable>,
    blocks: Vec<Block>,
}

/// What a module holds, by identifier.
pub struct ModuleView {
    pub functions: Seq<Function>,
    pub registers: Seq<Register>,
    pub variables: Seq<Variable>,
    pub blocks: Seq<Block>,
}

/// Whether the identifiers of `s` grow from each to the next.
pub open spec fn increasing(s: Seq<int>) -> bool {
    forall|a: int, b: int| 0 <= a < b < s.len() ==> s[a] < s[b]
}

impl ModuleView {
    /// Whether `r` is a register of the function `f`.
    pub open spec fn reg_in(&self, r: RegID, f: FuncID) -> bool {
        r.0 < self.registers.len() && self.registers[r.0 as int].function == f
    }

    /// Whether `v` is a variable of the function `f`.
    pub open spec fn var_in(&self, v: VarID, f: FuncID) -> bool {
        v.0 < self.variables.len() && self.variables[v.0 as int].function == f
    }

    /// Whether `b` is a block of the function `f`.
    pub open spec fn block_in(&self, b: BlockID, f: FuncID) -> bool {
        b.0 < self.blocks.len() && self.blocks[b.0 as int].function == f
    }

    /// Whether the operand `e` may stand in the function `f`: a register
    /// has to be one of `f`.
    pub open spec fn expr_ok(&self, f: FuncID, e: Expr) -> bool {
        e matches Expr::Register(r) ==> self.reg_in(r, f)
    }

    /// Whether each operand of `es` may stand in the function `f`.
    pub open spec fn exprs_ok(&self, f: FuncID, es: Seq<Expr>) -> bool {
        forall|i: int| 0 <= i < es.len() ==> self.expr_ok(f, #[trigger] es[i])
    }

    /// Whether a jump to `t` may stand in the function `f`.
    pub open spec fn target_ok(&self, f: FuncID, t: BlockTarget) -> bool {
        self.block_in(t.block, f) && self.exprs_ok(f, t.parameters@)
    }

    /// Whether the instruction may stand in the function `f`: every
    /// register, block and variable that it names is one of `f`, and a
    /// function that it names exists.
    pub open spec fn instr_ok(&self, f: FuncID, instr: Instruction) -> bool {
        &&& instr.target() matches Some(r) ==> self.reg_in(r, f)
        &&& self.exprs_ok(f, instr.operands())
        &&& forall|i: int|
            0 <= i < instr.successors().len() ==> self.target_ok(
                f,
                #[trigger] instr.successors()[i],
            )
        &&& instr.variable() matches Some(v) ==> self.var_in(v, f)
        &&& instr.callee() matches Some(g) ==> g.0 < self.functions.len()
    }

    /// The function `i` lists its own registers, blocks and variables, each
    /// once and in the order of creation; its parameters are registers of
    /// its own with the types of its signature; its entry is a block of its
    /// own.
    pub open spec fn function_wf(&self, i: int) -> bool {
        let f = self.functions[i];
        &&& f.id.0 == i
        &&& increasing(f.registers@.map_values(|r: RegID| r.0 as int))
        &&& forall|k: int|
            0 <= k < f.registers@.len() ==> self.reg_in(#[trigger] f.registers@[k], f.id)
        &&& increasing(f.block_ids().map_values(|b: BlockID| b.0 as int))
        &&& forall|k: int|
            0 <= k < f.block_ids().len() ==> self.block_in(#[trigger] f.block_ids()[k], f.id)
        &&& increasing(f.variable_ids().map_values(|v: VarID| v.0 as int))
        &&& forall|k: int|
            0 <= k < f.variable_ids().len() ==> self.var_in(#[trigger] f.variable_ids()[k], f.id)
        &&& f.signature.parameter_types@.len() == f.parameter_registers@.len()
        &&& forall|k: int|
            0 <= k < f.parameter_registers@.len() ==> {
                &&& self.reg_in(#[trigger] f.parameter_registers@[k], f.id)
                &&& f.signature.parameter_types@[k] == self.registers[f.parameter_registers@[k].0 as int].reg_type
            }
        &&& f.definition matches Some(d) ==> self.block_in(d.entry, f.id)
    }

    /// The register `i` knows its identifier, and its function lists it.
    pub open spec fn register_wf(&self, i: int) -> bool {
        let r = self.registers[i];
        &&& r.id.0 == i
        &&& r.function.0 < self.functions.len()
        &&& self.functions[r.function.0 as int].registers@.contains(r.id)
    }

    /// The variable `i` knows its identifier, and its function lists it.
    pub open spec fn variable_wf(&self, i: int) -> bool {
        let v = self.variables[i];
        &&& v.id.0 == i
        &&& v.function.0 < self.functions.len()
        &&& self.functions[v.function.0 as int].variable_ids().contains(v.id)
    }

    /// The block `i` knows its identifier, and its function lists it; its
    /// parameters are registers of that function, and each of its
    /// instructions may stand in that function.
    pub open spec fn block_wf(&self, i: int) -> bool {
        let b = self.blocks[i];
        &&& b.id.0 == i
        &&& b.function.0 < self.functions.len()
        &&& self.functions[b.function.0 as int].block_ids().contains(b.id)
        &&& forall|k: int|
            0 <= k < b.parameters@.len() ==> self.reg_in(#[trigger] b.parameters@[k], b.function)
        &&& forall|k: int|
            0 <= k < b.body@.len() ==> self.instr_ok(b.function, #[trigger] b.body@[k])
    }

    /// The invariant of a module: whatever is named anywhere exists and
    /// belongs to the function that names it.
    pub open spec fn wf(&self) -> bool {
        &&& forall|i: int| 0 <= i < self.functions.len() ==> #[trigger] self.function_wf(i)
        &&& forall|i: int| 0 <= i < self.registers.len() ==> #[trigger] self.register_wf(i)
        &&& forall|i: int| 0 <= i < self.variables.len() ==> #[trigger] self.variable_wf(i)
        &&& forall|i: int| 0 <= i < self.blocks.len() ==> #[trigger] self.block_wf(i)
    }

    /// Whether the type of every register, of every variable and of the
    /// result of every function is a type of `types`.
    pub open spec fn typed_in(&self, types: &Types) -> bool {
        &&& forall|i: int|
            0 <= i < self.registers.len() ==> types.valid((#[trigger] self.registers[i]).reg_type)
        &&& forall|i: int|
            0 <= i < self.variables.len() ==> types.valid((#[trigger] self.variables[i]).var_type)
        &&& forall|i: int|
            0 <= i < self.functions.len() ==> types.valid(
                (#[trigger] self.functions[i]).signature.return_type,
            )
    }

    /// The register that instruction `k` of block `b` writes, if there is
    /// such an instruction and it writes one.
    pub open spec fn written_at(&self, b: int, k: int) -> Option<RegID> {
        if 0 <= b < self.blocks.len() && 0 <= k < self.blocks[b].body@.len() {
            self.blocks[b].body@[k].target()
        } else {
            None
        }
    }

    /// Whether `r` is a parameter of a function or of a block.
    pub open spec fn is_parameter(&self, r: RegID) -> bool {
        ||| exists|f: int, p: int|
            0 <= f < self.functions.len() && 0 <= p < self.functions[f].parameter_registers@.len()
                && #[trigger] self.functions[f].parameter_registers@[p] == r
        ||| exists|b: int, p: int|
            0 <= b < self.blocks.len() && 0 <= p < self.blocks[b].parameters@.len()
                && #[trigger] self.blocks[b].parameters@[p] == r
    }

    /// Single assignment: no register is written by two instructions, and
    /// no parameter is written by any.
    pub open spec fn ssa(&self) -> bool {
        &&& forall|b1: int, k1: int, b2: int, k2: int|
            #![trigger self.written_at(b1, k1), self.written_at(b2, k2)]
            self.written_at(b1, k1) is Some && self.written_at(b1, k1) == self.written_at(b2, k2)
                ==> b1 == b2 && k1 == k2
        &&& forall|b: int, k: int|
            (#[trigger] self.written_at(b, k)) matches Some(r) ==> !self.is_parameter(r)
    }

    /// In a module that is in order, no instruction writes a register that
    /// does not exist yet, and none such is a parameter.
    pub proof fn lemma_fresh_unused(&self, r: RegID)
        requires
            self.wf(),
            r.0 >= self.registers.len(),
        ensures
            forall|b: int, k: int| #[trigger] self.written_at(b, k) != Some(r),
            !self.is_parameter(r),
    {
        assert forall|b: int, k: int| #[trigger] self.written_at(b, k) != Some(r) by {
            if 0 <= b < self.blocks.len() && 0 <= k < self.blocks[b].body@.len() {
                assert(self.block_wf(b));
                assert(self.instr_ok(self.blocks[b].function, self.blocks[b].body@[k]));
            }
        }
        if self.is_parameter(r) {
            if exists|f: int, p: int|
                0 <= f < self.functions.len() && 0 <= p
                    < self.functions[f].parameter_registers@.len()
                    && #[trigger] self.functions[f].parameter_registers@[p] == r {
                let (f, p) = choose|f: int, p: int|
                    0 <= f < self.functions.len() && 0 <= p
                        < self.functions[f].parameter_registers@.len()
                        && #[trigger] self.functions[f].parameter_registers@[p] == r;
                assert(self.function_wf(f));
                assert(self.reg_in(self.functions[f].parameter_registers@[p], self.functions[f].id));
            } else {
                let (b, p) = choose|b: int, p: int|
                    0 <= b < self.blocks.len() && 0 <= p < self.blocks[b].parameters@.len()
                        && #[trigger] self.blocks[b].parameters@[p] == r;
                assert(self.block_wf(b));
                assert(self.reg_in(self.blocks[b].parameters@[p], self.blocks[b].function));
            }
        }
    }

    /// Whether `post` holds everything that `self` holds, under the same
    /// identifiers and with the same owners, and each function lists in
    /// `post` first what it lists in `self`.
    pub open spec fn grows_to(&self, post: ModuleView) -> bool {
        &&& self.functions.len() <= post.functions.len()
        &&& self.registers.len() <= post.registers.len()
        &&& self.variables.len() <= post.variables.len()
        &&& self.blocks.len() <= post.blocks.len()
        &&& forall|i: int|
            0 <= i < self.registers.len() ==> #[trigger] post.registers[i] == self.registers[i]
        &&& forall|i: int|
            0 <= i < self.variables.len() ==> #[trigger] post.variables[i] == self.variables[i]
        &&& forall|i: int|
            0 <= i < self.blocks.len() ==> (#[trigger] post.blocks[i]).function
                == self.blocks[i].function && post.blocks[i].id == self.blocks[i].id
        &&& forall|i: int|
            0 <= i < self.functions.len() ==> {
                &&& (#[trigger] post.functions[i]).id == self.functions[i].id
                &&& self.functions[i].registers@.is_prefix_of(post.functions[i].registers@)
                &&& self.functions[i].block_ids().is_prefix_of(post.functions[i].block_ids())
                &&& self.functions[i].variable_ids().is_prefix_of(
                    post.functions[i].variable_ids(),
                )
            }
    }

    /// An instruction that may stand in a function still may after the
    /// module has grown.
    pub proof fn lemma_instr_ok_grows(&self, post: ModuleView, f: FuncID, instr: Instruction)
        requires
            self.grows_to(post),
            self.instr_ok(f, instr),
        ensures
            post.instr_ok(f, instr),
    {
        assert forall|i: int| 0 <= i < instr.operands().len() implies post.expr_ok(
            f,
            #[trigger] instr.operands()[i],
        ) by {
            assert(self.expr_ok(f, instr.operands()[i]));
        }
        assert forall|i: int| 0 <= i < instr.successors().len() implies post.target_ok(
            f,
            #[trigger] instr.successors()[i],
        ) by {
            let t = instr.successors()[i];
            assert(self.target_ok(f, t));
            assert forall|j: int| 0 <= j < t.parameters@.len() implies post.expr_ok(
                f,
                #[trigger] t.parameters@[j],
            ) by {
                assert(self.expr_ok(f, t.parameters@[j]));
            }
        }
    }
}

impl View for Module {
    type V = ModuleView;

    closed spec fn view(&self) -> ModuleView {
        ModuleView {
            functions: self.functions@,
            registers: self.registers@,
            variables: self.variables@,
            blocks: self.blocks@,
        }
    }
}

impl Module {
    /// The invariant of a module: whatever is named anywhere exists and
    /// belongs to the function that names it.
    pub open spec fn wf(&self) -> bool {
        self@.wf()
    }

    /// Whether the type of every register, of every variable and of the
    /// result of every function is a type of `types`.
    pub open spec fn typed_in(&self, types: &Types) -> bool {
        self@.typed_in(types)
    }

    /// A module that holds nothing.
    pub fn new() -> (r: Self)
        ensures
            r.wf(),
            r@.ssa(),
            r@.functions.len() == 0,
            r@.registers.len() == 0,
            r@.variables.len() == 0,
            r@.blocks.len() == 0,
    {
        Self {
            functions: Vec::new(),
            registers: Vec::new(),
            variables: Vec::new(),
            blocks: Vec::new(),
        }
    }

    /// The function with the identifier `fid`.
    pub fn function(&self, fid: FuncID) -> (r: &Function)
        requires
            fid.0 < self@.functions.len(),
        ensures
            *r == self@.functions[fid.0 as int],
    {
        &self.functions[fid.0]
    }

    /// The register with the identifier `rid`.
    pub fn register(&self, rid: RegID) -> (r: &Register)
        requires
            rid.0 < self@.registers.len(),
        ensures
            *r == self@.registers[rid.0 as int],
    {
        &self.registers[rid.0]
    }

    /// The variable with the identifier `vid`.
    pub fn variable(&self, vid: VarID) -> (r: &Variable)
        requires
            vid.0 < self@.variables.len(),
        ensures
            *r == self@.variables[vid.0 as int],
    {
        &self.variables[vid.0]
    }

    /// The block with the identifier `bid`.
    pub fn block(&self, bid: BlockID) -> (r: &Block)
        requires
            bid.0 < self@.blocks.len(),
        ensures
            *r == self@.blocks[bid.0 as int],
    {
        &self.blocks[bid.0]
    }

    /// The names of the functions, by identifier.
    pub fn names(&self) -> (r: Vec<String>)
        ensures
            r@.len() == self@.functions.len(),
            forall|i: int| 0 <= i < r@.len() ==> (#[trigger] r@[i])@ == self@.functions[i].name@,
    {
        let mut names: Vec<String> = Vec::new();
        let mut i: usize = 0;
        while i < self.functions.len()
            invariant
                0 <= i <= self.functions@.len(),
                names@.len() == i,
                forall|k: int|
                    0 <= k < i ==> (#[trigger] names@[k])@ == self.functions@[k].name@,
            decreases self.functions@.len() - i,
        {
            names.push(self.functions[i].name.clone());
            i += 1;
        }
        names
    }

    /// The number of functions.
    pub fn function_count(&self) -> (r: usize)
        ensures
            r == self@.functions.len(),
    {
        self.functions.len()
    }

    /// The number of registers.
    pub fn register_count(&self) -> (r: usize)
        ensures
            r == self@.registers.len(),
    {
        self.registers.len()
    }

    /// The number of variables.
    pub fn variable_count(&self) -> (r: usize)
        ensures
            r == self@.variables.len(),
    {
        self.variables.len()
    }

    /// The number of blocks.
    pub fn block_count(&self) -> (r: usize)
        ensures
            r == self@.blocks.len(),
    {
        self.blocks.len()
    }

    /// What `add_function` does: one function more, declared but not
    /// defined, without parameters or registers.
    pub open spec fn function_added(
        pre: ModuleView,
        post: ModuleView,
        name: Seq<char>,
        return_type: Type,
        id: FuncID,
    ) -> bool {
        &&& id.0 == pre.functions.len()
        &&& post.functions.len() == pre.functions.len() + 1
        &&& forall|i: int|
            0 <= i < pre.functions.len() ==> #[trigger] post.functions[i] == pre.functions[i]
        &&& post.functions[id.0 as int].id == id
        &&& post.functions[id.0 as int].name@ == name
        &&& post.functions[id.0 as int].signature.return_type == return_type
        &&& post.functions[id.0 as int].signature.parameter_types@.len() == 0
        &&& post.functions[id.0 as int].signature.calling_convention
            == calling_convention::CallingConvention::Generic(
            calling_convention::GenericConvention::Default,
        )
        &&& !post.functions[id.0 as int].signature.is_varargs
        &&& post.functions[id.0 as int].parameter_registers@.len() == 0
        &&& post.functions[id.0 as int].registers@.len() == 0
        &&& post.functions[id.0 as int].definition is None
        &&& post.registers == pre.registers
        &&& post.variables == pre.variables
        &&& post.blocks == pre.blocks
    }

    /// Declares a function. It has no parameters and no body yet.
    pub fn add_function(&mut self, name: String, ret_type: Type) -> (id: FuncID)
        requires
            old(self).wf(),
        ensures
            final(self).wf(),
            Self::function_added(old(self)@, final(self)@, name@, ret_type, id),
    {
        let id = FuncID(self.functions.len());
        self.functions.push(Function::new(id, name, ret_type));
        proof {
            Self::lemma_grown_wf(old(self)@, self@);
            assert(self@.function_wf(id.0 as int));
        }
        id
    }

    /// What is left to show of the invariant after the module has grown:
    /// the registers and variables that were there are in order, and so is
    /// each function and each block that is as it was.
    pub proof fn lemma_grown_wf(pre: ModuleView, post: ModuleView)
        requires
            pre.wf(),
            pre.grows_to(post),
        ensures
            forall|i: int|
                0 <= i < pre.functions.len() && post.functions[i] == pre.functions[i]
                    ==> #[trigger] post.function_wf(i),
            forall|i: int| 0 <= i < pre.registers.len() ==> #[trigger] post.register_wf(i),
            forall|i: int| 0 <= i < pre.variables.len() ==> #[trigger] post.variable_wf(i),
            forall|i: int|
                0 <= i < pre.blocks.len() && post.blocks[i] == pre.blocks[i]
                    ==> #[trigger] post.block_wf(i),
    {
        assert forall|i: int|
            0 <= i < pre.functions.len() && post.functions[i]
                == pre.functions[i] implies #[trigger] post.function_wf(i) by {
            assert(pre.function_wf(i));
        }
        assert forall|i: int| 0 <= i < pre.registers.len() implies #[trigger] post.register_wf(
            i,
        ) by {
            assert(pre.register_wf(i));
            let r = pre.registers[i];
            let before = pre.functions[r.function.0 as int].registers@;
            let after = post.functions[r.function.0 as int].registers@;
            let k = choose|k: int| 0 <= k < before.len() && before[k] == r.id;
            assert(after[k] == r.id);
        }
        assert forall|i: int| 0 <= i < pre.variables.len() implies #[trigger] post.variable_wf(
            i,
        ) by {
            assert(pre.variable_wf(i));
            let v = pre.variables[i];
            let before = pre.functions[v.function.0 as int].variable_ids();
            let after = post.functions[v.function.0 as int].variable_ids();
            let k = choose|k: int| 0 <= k < before.len() && before[k] == v.id;
            assert(after[k] == v.id);
        }
        assert forall|i: int|
            0 <= i < pre.blocks.len() && post.blocks[i]
                == pre.blocks[i] implies #[trigger] post.block_wf(i) by {
            pre.lemma_block_grown_wf(post, i);
        }
    }

}

impl ModuleView {
    /// A block that holds in `post` what it held in `self`, and perhaps one
    /// parameter or one instruction more that may stand in its function, is
    /// in order.
    pub proof fn lemma_block_grown_wf(&self, post: ModuleView, i: int)
        requires
            self.wf(),
            self.grows_to(post),
            0 <= i < self.blocks.len(),
            self.blocks[i].parameters@.is_prefix_of(post.blocks[i].parameters@),
            self.blocks[i].body@.is_prefix_of(post.blocks[i].body@),
            forall|k: int|
                self.blocks[i].parameters@.len() <= k < post.blocks[i].parameters@.len()
                    ==> post.reg_in(#[trigger] post.blocks[i].parameters@[k], self.blocks[i].function),
            forall|k: int|
                self.blocks[i].body@.len() <= k < post.blocks[i].body@.len() ==> post.instr_ok(
                    self.blocks[i].function,
                    #[trigger] post.blocks[i].body@[k],
                ),
        ensures
            post.block_wf(i),
    {
        assert(self.block_wf(i));
        let b = self.blocks[i];
        let c = post.blocks[i];
        let before = self.functions[b.function.0 as int].block_ids();
        let after = post.functions[b.function.0 as int].block_ids();
        let k = choose|k: int| 0 <= k < before.len() && before[k] == b.id;
        assert(after[k] == b.id);
        assert forall|k: int| 0 <= k < c.parameters@.len() implies post.reg_in(
            #[trigger] c.parameters@[k],
            c.function,
        ) by {
            if k < b.parameters@.len() {
                assert(self.reg_in(b.parameters@[k], b.function));
                assert(c.parameters@[k] == b.parameters@[k]);
            }
        }
        assert forall|k: int| 0 <= k < c.body@.len() implies post.instr_ok(
            c.function,
            #[trigger] c.body@[k],
        ) by {
            if k < b.body@.len() {
                assert(c.body@[k] == b.body@[k]);
                self.lemma_instr_ok_grows(post, b.function, b.body@[k]);
            }
        }
    }

    /// A function that lists in `post` what it listed in `self`, and
    /// perhaps the newest register, block or variable of `post` after that,
    /// is in order.
    pub proof fn lemma_function_grown_wf(
        &self,
        post: ModuleView,
        i: int,
        r: RegID,
        b: BlockID,
        v: VarID,
    )
        requires
            self.wf(),
            self.grows_to(post),
            0 <= i < self.functions.len(),
            ({
                let before = self.functions[i];
                let after = post.functions[i];
                &&& after.registers@ == before.registers@ || (after.registers@
                    == before.registers@.push(r) && r.0 == self.registers.len() && post.reg_in(
                    r,
                    after.id,
                ))
                &&& after.block_ids() == before.block_ids() || (after.block_ids()
                    == before.block_ids().push(b) && b.0 == self.blocks.len() && post.block_in(
                    b,
                    after.id,
                ))
                &&& after.variable_ids() == before.variable_ids() || (after.variable_ids()
                    == before.variable_ids().push(v) && v.0 == self.variables.len() && post.var_in(
                    v,
                    after.id,
                ))
                &&& (after.parameter_registers@ == before.parameter_registers@
                    && after.signature.parameter_types@ == before.signature.parameter_types@) || (
                after.parameter_registers@ == before.parameter_registers@.push(r) && r.0
                    == self.registers.len() && post.reg_in(r, after.id) && after.signature.parameter_types@ == before.signature.parameter_types@.push(
                    post.registers[r.0 as int].reg_type,
                ))
                &&& after.definition matches Some(d) ==> post.block_in(d.entry, after.id)
            }),
        ensures
            post.function_wf(i),
    {
        let before = self.functions[i];
        let after = post.functions[i];
        assert(self.function_wf(i));
        let ids = after.registers@.map_values(|r: RegID| r.0 as int);
        let old_ids = before.registers@.map_values(|r: RegID| r.0 as int);
        assert forall|a: int, c: int| 0 <= a < c < ids.len() implies ids[a] < ids[c] by {
            assert(self.reg_in(before.registers@[a], before.id));
            if c < old_ids.len() {
                assert(old_ids[a] < old_ids[c]);
            }
        }
        assert forall|k: int| 0 <= k < after.registers@.len() implies post.reg_in(
            #[trigger] after.registers@[k],
            after.id,
        ) by {
            if k < before.registers@.len() {
                assert(self.reg_in(before.registers@[k], before.id));
            }
        }
        let bids = after.block_ids().map_values(|b: BlockID| b.0 as int);
        let old_bids = before.block_ids().map_values(|b: BlockID| b.0 as int);
        assert forall|a: int, c: int| 0 <= a < c < bids.len() implies bids[a] < bids[c] by {
            assert(self.block_in(before.block_ids()[a], before.id));
            if c < old_bids.len() {
                assert(old_bids[a] < old_bids[c]);
            }
        }
        assert forall|k: int| 0 <= k < after.block_ids().len() implies post.block_in(
            #[trigger] after.block_ids()[k],
            after.id,
        ) by {
            if k < before.block_ids().len() {
                assert(self.block_in(before.block_ids()[k], before.id));
            }
        }
        let vids = after.variable_ids().map_values(|v: VarID| v.0 as int);
        let old_vids = before.variable_ids().map_values(|v: VarID| v.0 as int);
        assert forall|a: int, c: int| 0 <= a < c < vids.len() implies vids[a] < vids[c] by {
            assert(self.var_in(before.variable_ids()[a], before.id));
            if c < old_vids.len() {
                assert(old_vids[a] < old_vids[c]);
            }
        }
        assert forall|k: int| 0 <= k < after.variable_ids().len() implies post.var_in(
            #[trigger] after.variable_ids()[k],
            after.id,
        ) by {
            if k < before.variable_ids().len() {
                assert(self.var_in(before.variable_ids()[k], before.id));
            }
        }
        assert forall|k: int| 0 <= k < after.parameter_registers@.len() implies {
            &&& post.reg_in(#[trigger] after.parameter_registers@[k], after.id)
            &&& after.signature.parameter_types@[k] == post.registers[after.parameter_registers@[k].0 as int].reg_type
        } by {
            if k < before.parameter_registers@.len() {
                assert(self.reg_in(before.parameter_registers@[k], before.id));
            }
        }
    }
}

impl Module {
    /// What `add_register` and `add_parameter` do: one register more, of
    /// the function `fid`, which lists it last, as a parameter too where
    /// `parameter` holds.
    pub open spec fn register_added(
        pre: ModuleView,
        post: ModuleView,
        fid: FuncID,
        reg_type: Type,
        parameter: bool,
        id: RegID,
    ) -> bool {
        let before = pre.functions[fid.0 as int];
        let after = post.functions[fid.0 as int];
        &&& id.0 == pre.registers.len()
        &&& post.registers == pre.registers.push(Register { id, function: fid, reg_type })
        &&& post.variables == pre.variables
        &&& post.blocks == pre.blocks
        &&& post.functions.len() == pre.functions.len()
        &&& forall|i: int|
            0 <= i < pre.functions.len() && i != fid.0 ==> #[trigger] post.functions[i]
                == pre.functions[i]
        &&& after.id == before.id
        &&& after.name == before.name
        &&& after.definition == before.definition
        &&& after.registers@ == before.registers@.push(id)
        &&& after.signature.return_type == before.signature.return_type
        &&& after.signature.calling_convention == before.signature.calling_convention
        &&& after.signature.is_varargs == before.signature.is_varargs
        &&& if parameter {
            &&& after.parameter_registers@ == before.parameter_registers@.push(id)
            &&& after.signature.parameter_types@ == before.signature.parameter_types@.push(
                reg_type,
            )
        } else {
            &&& after.parameter_registers == before.parameter_registers
            &&& after.signature.parameter_types == before.signature.parameter_types
        }
    }

    /// A module stays in order when a function gets one register more.
    pub proof fn lemma_register_added_wf(
        pre: ModuleView,
        post: ModuleView,
        fid: FuncID,
        reg_type: Type,
        parameter: bool,
        id: RegID,
    )
        requires
            pre.wf(),
            fid.0 < pre.functions.len(),
            Self::register_added(pre, post, fid, reg_type, parameter, id),
        ensures
            post.wf(),
            pre.grows_to(post),
    {
        let before = pre.functions[fid.0 as int];
        let after = post.functions[fid.0 as int];
        assert(pre.function_wf(fid.0 as int));
        assert(after.block_ids() == before.block_ids());
        assert(after.variable_ids() == before.variable_ids());
        assert(pre.grows_to(post));
        Self::lemma_grown_wf(pre, post);
        pre.lemma_function_grown_wf(
            post,
            fid.0 as int,
            id,
            BlockID(pre.blocks.len() as usize),
            VarID(pre.variables.len() as usize),
        );
        assert(after.registers@[before.registers@.len() as int] == id);
        assert(post.register_wf(id.0 as int));
    }

    /// Creates a register of the function `fid`.
    pub fn add_register(&mut self, fid: FuncID, reg_type: Type) -> (id: RegID)
        requires
            old(self).wf(),
            fid.0 < old(self)@.functions.len(),
        ensures
            final(self).wf(),
            old(self)@.grows_to(final(self)@),
            Self::register_added(old(self)@, final(self)@, fid, reg_type, false, id),
    {
        let id = RegID(self.registers.len());
        self.registers.push(Register::new(fid, id, reg_type));
        self.functions[fid.0].registers.push(id);
        proof {
            Self::lemma_register_added_wf(old(self)@, self@, fid, reg_type, false, id);
        }
        id
    }

    /// Creates a register of the function `fid` and makes it the next
    /// parameter of the function.
    pub fn add_parameter(&mut self, fid: FuncID, param_type: Type) -> (id: RegID)
        requires
            old(self).wf(),
            fid.0 < old(self)@.functions.len(),
        ensures
            final(self).wf(),
            old(self)@.grows_to(final(self)@),
            Self::register_added(old(self)@, final(self)@, fid, param_type, true, id),
    {
        let id = RegID(self.registers.len());
        self.registers.push(Register::new(fid, id, param_type));
        self.functions[fid.0].registers.push(id);
        self.functions[fid.0].parameter_registers.push(id);
        self.functions[fid.0].signature.parameter_types.push(param_type);
        proof {
            Self::lemma_register_added_wf(old(self)@, self@, fid, param_type, true, id);
        }
        id
    }

    /// What `start_function_definition` does: the function `fid` is defined
    /// afterwards, with one new, empty block, which is its entry.
    pub open spec fn definition_started(
        pre: ModuleView,
        post: ModuleView,
        fid: FuncID,
        entry: BlockID,
    ) -> bool {
        let before = pre.functions[fid.0 as int];
        let after = post.functions[fid.0 as int];
        &&& Self::block_created(pre, post, fid, entry)
        &&& after.definition matches Some(d) && d.entry == entry && d.variables@.len() == 0
    }

    /// What `add_block` and `start_function_definition` both do: one new,
    /// empty block of the function `fid`, which lists it last.
    pub open spec fn block_created(
        pre: ModuleView,
        post: ModuleView,
        fid: FuncID,
        id: BlockID,
    ) -> bool {
        let before = pre.functions[fid.0 as int];
        let after = post.functions[fid.0 as int];
        &&& id.0 == pre.blocks.len()
        &&& post.blocks.len() == pre.blocks.len() + 1
        &&& forall|i: int| 0 <= i < pre.blocks.len() ==> #[trigger] post.blocks[i] == pre.blocks[i]
        &&& post.blocks[id.0 as int].id == id
        &&& post.blocks[id.0 as int].function == fid
        &&& post.blocks[id.0 as int].parameters@.len() == 0
        &&& post.blocks[id.0 as int].body@.len() == 0
        &&& post.registers == pre.registers
        &&& post.variables == pre.variables
        &&& post.functions.len() == pre.functions.len()
        &&& forall|i: int|
            0 <= i < pre.functions.len() && i != fid.0 ==> #[trigger] post.functions[i]
                == pre.functions[i]
        &&& after.id == before.id
        &&& after.name == before.name
        &&& after.signature == before.signature
        &&& after.parameter_registers == before.parameter_registers
        &&& after.registers == before.registers
        &&& after.block_ids() == before.block_ids().push(id)
        &&& after.variable_ids() == before.variable_ids()
        &&& after.definition is Some
        &&& before.definition matches Some(d) ==> after.definition->0.entry == d.entry
    }

    /// A module stays in order when a function gets one block more.
    pub proof fn lemma_block_created_wf(
        pre: ModuleView,
        post: ModuleView,
        fid: FuncID,
        id: BlockID,
    )
        requires
            pre.wf(),
            fid.0 < pre.functions.len(),
            Self::block_created(pre, post, fid, id),
            pre.functions[fid.0 as int].definition is None ==> post.functions[fid.0 as int].definition->0.entry
                == id,
        ensures
            post.wf(),
            pre.grows_to(post),
    {
        let before = pre.functions[fid.0 as int];
        let after = post.functions[fid.0 as int];
        assert(pre.function_wf(fid.0 as int));
        assert(pre.grows_to(post));
        Self::lemma_grown_wf(pre, post);
        pre.lemma_function_grown_wf(
            post,
            fid.0 as int,
            RegID(pre.registers.len() as usize),
            id,
            VarID(pre.variables.len() as usize),
        );
        assert(after.block_ids()[before.block_ids().len() as int] == id);
        assert(post.block_wf(id.0 as int));
    }

    /// Gives the function `fid` a body: creates its entry block.
    pub fn start_function_definition(&mut self, fid: FuncID) -> (entry: BlockID)
        requires
            old(self).wf(),
            fid.0 < old(self)@.functions.len(),
            old(self)@.functions[fid.0 as int].definition is None,
        ensures
            final(self).wf(),
            old(self)@.grows_to(final(self)@),
            Self::definition_started(old(self)@, final(self)@, fid, entry),
    {
        let entry = BlockID(self.blocks.len());
        self.blocks.push(Block::new(fid, entry));
        let mut blocks: Vec<BlockID> = Vec::new();
        blocks.push(entry);
        self.functions[fid.0].definition = Some(
            FunctionDefinition { variables: Vec::new(), blocks, entry },
        );
        proof {
            assert(self@.functions[fid.0 as int].block_ids() =~= old(
                self,
            )@.functions[fid.0 as int].block_ids().push(entry));
            Self::lemma_block_created_wf(old(self)@, self@, fid, entry);
        }
        entry
    }

    /// Creates an empty block of the function `fid`, which has a body.
    pub fn add_block(&mut self, fid: FuncID) -> (id: BlockID)
        requires
            old(self).wf(),
            fid.0 < old(self)@.functions.len(),
            old(self)@.functions[fid.0 as int].definition is Some,
        ensures
            final(self).wf(),
            old(self)@.grows_to(final(self)@),
            Self::block_created(old(self)@, final(self)@, fid, id),
    {
        let id = BlockID(self.blocks.len());
        self.blocks.push(Block::new(fid, id));
        match &mut self.functions[fid.0].definition {
            Some(d) => {
                d.blocks.push(id);
            },
            None => {},
        }
        proof {
            Self::lemma_block_created_wf(old(self)@, self@, fid, id);
        }
        id
    }

    /// What `add_variable` does: one variable more, of the function `fid`,
    /// which lists it last.
    pub open spec fn variable_added(
        pre: ModuleView,
        post: ModuleView,
        fid: FuncID,
        var_type: Type,
        id: VarID,
    ) -> bool {
        let before = pre.functions[fid.0 as int];
        let after = post.functions[fid.0 as int];
        &&& id.0 == pre.variables.len()
        &&& post.variables == pre.variables.push(Variable { id, function: fid, var_type })
        &&& post.registers == pre.registers
        &&& post.blocks == pre.blocks
        &&& post.functions.len() == pre.functions.len()
        &&& forall|i: int|
            0 <= i < pre.functions.len() && i != fid.0 ==> #[trigger] post.functions[i]
                == pre.functions[i]
        &&& after.id == before.id
        &&& after.name == before.name
        &&& after.signature == before.signature
        &&& after.parameter_registers == before.parameter_registers
        &&& after.registers == before.registers
        &&& after.block_ids() == before.block_ids()
        &&& after.variable_ids() == before.variable_ids().push(id)
        &&& after.definition is Some
        &&& after.definition->0.entry == before.definition->0.entry
    }

    /// Creates a variable of the function `fid`, which has a body.
    pub fn add_variable(&mut self, fid: FuncID, var_type: Type) -> (id: VarID)
        requires
            old(self).wf(),
            fid.0 < old(self)@.functions.len(),
            old(self)@.functions[fid.0 as int].definition is Some,
        ensures
            final(self).wf(),
            old(self)@.grows_to(final(self)@),
            Self::variable_added(old(self)@, final(self)@, fid, var_type, id),
    {
        let id = VarID(self.variables.len());
        self.variables.push(Variable::new(fid, id, var_type));
        match &mut self.functions[fid.0].definition {
            Some(d) => {
                d.variables.push(id);
            },
            None => {},
        }
        proof {
            let pre = old(self)@;
            let post = self@;
            let before = pre.functions[fid.0 as int];
            let after = post.functions[fid.0 as int];
            assert(pre.function_wf(fid.0 as int));
            assert(pre.grows_to(post));
            Self::lemma_grown_wf(pre, post);
            pre.lemma_function_grown_wf(
                post,
                fid.0 as int,
                RegID(pre.registers.len() as usize),
                BlockID(pre.blocks.len() as usize),
                id,
            );
            assert(after.variable_ids()[before.variable_ids().len() as int] == id);
            assert(post.variable_wf(id.0 as int));
        }
        id
    }

    /// What `add_block_parameter` does: one register more, of the function
    /// of the block `bid`, which is the last parameter of that block.
    pub open spec fn block_parameter_added(
        pre: ModuleView,
        post: ModuleView,
        bid: BlockID,
        param_type: Type,
        id: RegID,
    ) -> bool {
        let fid = pre.blocks[bid.0 as int].function;
        let mid = ModuleView { blocks: pre.blocks, ..post };
        &&& Self::register_added(pre, mid, fid, param_type, false, id)
        &&& post.blocks.len() == pre.blocks.len()
        &&& forall|i: int|
            0 <= i < pre.blocks.len() && i != bid.0 ==> #[trigger] post.blocks[i] == pre.blocks[i]
        &&& post.blocks[bid.0 as int].id == bid
        &&& post.blocks[bid.0 as int].function == fid
        &&& post.blocks[bid.0 as int].body == pre.blocks[bid.0 as int].body
        &&& post.blocks[bid.0 as int].parameters@ == pre.blocks[bid.0 as int].parameters@.push(id)
    }

    /// Creates a register in the function of the block `bid` and makes it
    /// the next parameter of the block.
    pub fn add_block_parameter(&mut self, bid: BlockID, param_type: Type) -> (id: RegID)
        requires
            old(self).wf(),
            bid.0 < old(self)@.blocks.len(),
        ensures
            final(self).wf(),
            old(self)@.grows_to(final(self)@),
            Self::block_parameter_added(old(self)@, final(self)@, bid, param_type, id),
    {
        let fid = self.blocks[bid.0].function;
        assert(old(self)@.block_wf(bid.0 as int));
        let rid = self.add_register(fid, param_type);
        let ghost mid = self@;
        self.blocks[bid.0].parameters.push(rid);
        proof {
            let pre = old(self)@;
            let post = self@;
            Self::lemma_register_added_wf(pre, mid, fid, param_type, false, rid);
            assert(mid =~= ModuleView { blocks: pre.blocks, ..post });
            assert(mid.grows_to(post));
            Self::lemma_grown_wf(mid, post);
            mid.lemma_block_grown_wf(post, bid.0 as int);
            assert forall|i: int| 0 <= i < post.functions.len() implies #[trigger] post.function_wf(
                i,
            ) by {
                assert(post.functions[i] == mid.functions[i]);
            }
            assert(pre.grows_to(post));
        }
        rid
    }

    /// What `push_instruction` does: the block `bid` has the instruction
    /// `instr` after those that it had.
    pub open spec fn instruction_pushed(
        pre: ModuleView,
        post: ModuleView,
        bid: BlockID,
        instr: Instruction,
    ) -> bool {
        &&& post.functions == pre.functions
        &&& post.registers == pre.registers
        &&& post.variables == pre.variables
        &&& post.blocks.len() == pre.blocks.len()
        &&& forall|i: int|
            0 <= i < pre.blocks.len() && i != bid.0 ==> #[trigger] post.blocks[i] == pre.blocks[i]
        &&& post.blocks[bid.0 as int].id == bid
        &&& post.blocks[bid.0 as int].function == pre.blocks[bid.0 as int].function
        &&& post.blocks[bid.0 as int].parameters == pre.blocks[bid.0 as int].parameters
        &&& post.blocks[bid.0 as int].body@ == pre.blocks[bid.0 as int].body@.push(instr)
    }

    /// Appends an instruction to the block `bid`. The instruction names
    /// only what belongs to the function of that block.
    pub fn push_instruction(&mut self, bid: BlockID, i: Instruction)
        requires
            old(self).wf(),
            bid.0 < old(self)@.blocks.len(),
            old(self)@.instr_ok(old(self)@.blocks[bid.0 as int].function, i),
        ensures
            final(self).wf(),
            old(self)@.grows_to(final(self)@),
            Self::instruction_pushed(old(self)@, final(self)@, bid, i),
    {
        assert(old(self)@.block_wf(bid.0 as int));
        self.blocks[bid.0].body.push(i);
        proof {
            let pre = old(self)@;
            let post = self@;
            assert(post.functions =~= pre.functions);
            assert(pre.grows_to(post));
            pre.lemma_instr_ok_grows(post, pre.blocks[bid.0 as int].function, i);
            Self::lemma_grown_wf(pre, post);
            pre.lemma_block_grown_wf(post, bid.0 as int);
        }
    }

    /// A module that holds nothing obeys single assignment.
    pub proof fn lemma_empty_ssa(m: ModuleView)
        requires
            m.blocks.len() == 0,
        ensures
            m.ssa(),
    {
    }

    /// Single assignment survives every change that leaves the
    /// instructions as they are and makes no register a parameter but one
    /// that did not exist before.
    pub proof fn lemma_ssa_kept(pre: ModuleView, post: ModuleView)
        requires
            pre.wf(),
            pre.ssa(),
            pre.grows_to(post),
            forall|b: int, k: int| #[trigger] post.written_at(b, k) == pre.written_at(b, k),
            forall|r: RegID| post.is_parameter(r) && r.0 < pre.registers.len() ==> pre.is_parameter(r),
        ensures
            post.ssa(),
    {
        assert forall|b: int, k: int| (#[trigger] post.written_at(b, k)) is Some implies !post.is_parameter(
            post.written_at(b, k)->0,
        ) by {
            let r = post.written_at(b, k)->0;
            assert(pre.written_at(b, k) == Some(r));
            assert(pre.block_wf(b));
            assert(pre.instr_ok(pre.blocks[b].function, pre.blocks[b].body@[k]));
        }
        assert forall|b1: int, k1: int, b2: int, k2: int|
            #![trigger post.written_at(b1, k1), post.written_at(b2, k2)]
            post.written_at(b1, k1) is Some && post.written_at(b1, k1) == post.written_at(
                b2,
                k2,
            ) implies b1 == b2 && k1 == k2 by {
            assert(pre.written_at(b1, k1) == pre.written_at(b2, k2));
        }
    }

    /// Single assignment survives the appending of an instruction that
    /// writes nothing, or a register that no instruction writes yet and
    /// that is no parameter.
    pub proof fn lemma_ssa_pushed(pre: ModuleView, post: ModuleView, bid: BlockID, instr: Instruction)
        requires
            pre.wf(),
            pre.ssa(),
            bid.0 < pre.blocks.len(),
            Self::instruction_pushed(pre, post, bid, instr),
            instr.target() matches Some(r) ==> !pre.is_parameter(r) && forall|b: int, k: int|
                #[trigger] pre.written_at(b, k) != Some(r),
        ensures
            post.ssa(),
    {
        let last = pre.blocks[bid.0 as int].body@.len() as int;
        assert forall|b: int, k: int| #[trigger] post.written_at(b, k) == (if b == bid.0 && k
            == last {
            instr.target()
        } else {
            pre.written_at(b, k)
        }) by {
            if 0 <= b < post.blocks.len() && b != bid.0 {
                assert(post.blocks[b] == pre.blocks[b]);
            }
        }
        assert forall|r: RegID| post.is_parameter(r) implies pre.is_parameter(r) by {
            if exists|f: int, p: int|
                0 <= f < post.functions.len() && 0 <= p
                    < post.functions[f].parameter_registers@.len()
                    && #[trigger] post.functions[f].parameter_registers@[p] == r {
            } else {
                let (b, p) = choose|b: int, p: int|
                    0 <= b < post.blocks.len() && 0 <= p < post.blocks[b].parameters@.len()
                        && #[trigger] post.blocks[b].parameters@[p] == r;
                if b != bid.0 {
                    assert(post.blocks[b] == pre.blocks[b]);
                }
                assert(pre.blocks[b].parameters@[p] == r);
            }
        }
        assert forall|b: int, k: int| (#[trigger] post.written_at(b, k)) is Some implies !post.is_parameter(
            post.written_at(b, k)->0,
        ) by {
            let r = post.written_at(b, k)->0;
            if !(b == bid.0 && k == last) {
                assert(pre.written_at(b, k) == Some(r));
            }
        }
        assert forall|b1: int, k1: int, b2: int, k2: int|
            #![trigger post.written_at(b1, k1), post.written_at(b2, k2)]
            post.written_at(b1, k1) is Some && post.written_at(b1, k1) == post.written_at(
                b2,
                k2,
            ) implies b1 == b2 && k1 == k2 by {
            if b1 == bid.0 && k1 == last {
                if !(b2 == bid.0 && k2 == last) {
                    assert(pre.written_at(b2, k2) == instr.target());
                }
            } else if b2 == bid.0 && k2 == last {
                assert(pre.written_at(b1, k1) == instr.target());
            } else {
                assert(pre.written_at(b1, k1) == pre.written_at(b2, k2));
            }
        }
    }

    /// Single assignment survives a new register, parameter or not.
    pub proof fn lemma_ssa_register_added(
        pre: ModuleView,
        post: ModuleView,
        fid: FuncID,
        reg_type: Type,
        parameter: bool,
        id: RegID,
    )
        requires
            pre.wf(),
            pre.ssa(),
            fid.0 < pre.functions.len(),
            Self::register_added(pre, post, fid, reg_type, parameter, id),
        ensures
            post.ssa(),
    {
        Self::lemma_register_added_wf(pre, post, fid, reg_type, parameter, id);
        assert forall|r: RegID| post.is_parameter(r) && r.0 < pre.registers.len() implies pre.is_parameter(r) by {
            if exists|f: int, p: int|
                0 <= f < post.functions.len() && 0 <= p
                    < post.functions[f].parameter_registers@.len()
                    && #[trigger] post.functions[f].parameter_registers@[p] == r {
                let (f, p) = choose|f: int, p: int|
                    0 <= f < post.functions.len() && 0 <= p
                        < post.functions[f].parameter_registers@.len()
                        && #[trigger] post.functions[f].parameter_registers@[p] == r;
                assert(pre.functions[f].parameter_registers@[p] == r);
            }
        }
        Self::lemma_ssa_kept(pre, post);
    }

    /// Single assignment survives a new block parameter.
    pub proof fn lemma_ssa_block_parameter_added(
        pre: ModuleView,
        post: ModuleView,
        bid: BlockID,
        param_type: Type,
        id: RegID,
    )
        requires
            pre.wf(),
            pre.ssa(),
            bid.0 < pre.blocks.len(),
            pre.grows_to(post),
            Self::block_parameter_added(pre, post, bid, param_type, id),
        ensures
            post.ssa(),
    {
        let fid = pre.blocks[bid.0 as int].function;
        assert forall|b: int, k: int| #[trigger] post.written_at(b, k) == pre.written_at(b, k) by {
            if 0 <= b < pre.blocks.len() && b != bid.0 {
                assert(post.blocks[b] == pre.blocks[b]);
            }
        }
        assert forall|r: RegID| post.is_parameter(r) && r.0 < pre.registers.len() implies pre.is_parameter(r) by {
            if exists|f: int, p: int|
                0 <= f < post.functions.len() && 0 <= p
                    < post.functions[f].parameter_registers@.len()
                    && #[trigger] post.functions[f].parameter_registers@[p] == r {
                let (f, p) = choose|f: int, p: int|
                    0 <= f < post.functions.len() && 0 <= p
                        < post.functions[f].parameter_registers@.len()
                        && #[trigger] post.functions[f].parameter_registers@[p] == r;
                assert(pre.functions[f].parameter_registers@[p] == r);
            } else {
                let (b, p) = choose|b: int, p: int|
                    0 <= b < post.blocks.len() && 0 <= p < post.blocks[b].parameters@.len()
                        && #[trigger] post.blocks[b].parameters@[p] == r;
                if b != bid.0 {
                    assert(post.blocks[b] == pre.blocks[b]);
                }
                assert(pre.blocks[b].parameters@[p] == r);
            }
        }
        Self::lemma_ssa_kept(pre, post);
    }

    /// Single assignment survives a new block, and a new variable.
    pub proof fn lemma_ssa_same_code(pre: ModuleView, post: ModuleView)
        requires
            pre.wf(),
            pre.ssa(),
            pre.grows_to(post),
            post.functions.len() == pre.functions.len(),
            forall|f: int|
                0 <= f < pre.functions.len() ==> (#[trigger] post.functions[f]).parameter_registers
                    == pre.functions[f].parameter_registers,
            forall|b: int| 0 <= b < pre.blocks.len() ==> #[trigger] post.blocks[b] == pre.blocks[b],
            forall|b: int|
                pre.blocks.len() <= b < post.blocks.len() ==> (#[trigger] post.blocks[b]).body@.len()
                    == 0 && post.blocks[b].parameters@.len() == 0,
        ensures
            post.ssa(),
    {
        assert forall|r: RegID| post.is_parameter(r) implies pre.is_parameter(r) by {
            if exists|f: int, p: int|
                0 <= f < post.functions.len() && 0 <= p
                    < post.functions[f].parameter_registers@.len()
                    && #[trigger] post.functions[f].parameter_registers@[p] == r {
                let (f, p) = choose|f: int, p: int|
                    0 <= f < post.functions.len() && 0 <= p
                        < post.functions[f].parameter_registers@.len()
                        && #[trigger] post.functions[f].parameter_registers@[p] == r;
                assert(pre.functions[f].parameter_registers@[p] == r);
            } else {
                let (b, p) = choose|b: int, p: int|
                    0 <= b < post.blocks.len() && 0 <= p < post.blocks[b].parameters@.len()
                        && #[trigger] post.blocks[b].parameters@[p] == r;
                assert(pre.blocks[b].parameters@[p] == r);
            }
        }
        Self::lemma_ssa_kept(pre, post);
    }

    /// What store-to-load forwarding makes of a module: in each block,
    /// each load is a copy where `forwarded` says so, and nothing else has
    /// changed.
    pub open spec fn stores_forwarded(pre: ModuleView, post: ModuleView) -> bool {
        &&& post.functions == pre.functions
        &&& post.registers == pre.registers
        &&& post.variables == pre.variables
        &&& post.blocks.len() == pre.blocks.len()
        &&& forall|b: int|
            0 <= b < pre.blocks.len() ==> block_forwarded(pre.blocks[b], #[trigger] post.blocks[b])
    }

    /// Replaces, in each block, each load from the pointer of the store
    /// before it in the block by a copy of the value that was stored.
    /// Tells whether anything was replaced.
    pub fn forward_stores(&mut self) -> (modified: bool)
        requires
            old(self).wf(),
        ensures
            final(self).wf(),
            Self::stores_forwarded(old(self)@, final(self)@),
            old(self)@.ssa() ==> final(self)@.ssa(),
            modified <==> exists|b: int, k: int|
                0 <= b < old(self)@.blocks.len() && 0 <= k < old(self)@.blocks[b].body@.len()
                    && #[trigger] forwards(old(self)@.blocks[b].body@, k),
    {
        let ghost pre = self@;
        let mut modified = false;
        let mut b: usize = 0;
        while b < self.blocks.len()
            invariant
                0 <= b <= self.blocks@.len(),
                pre.wf(),
                pre == old(self)@,
                self@.functions == pre.functions,
                self@.registers == pre.registers,
                self@.variables == pre.variables,
                self@.blocks.len() == pre.blocks.len(),
                forall|c: int|
                    b <= c < pre.blocks.len() ==> #[trigger] self@.blocks[c] == pre.blocks[c],
                forall|c: int| 0 <= c < b ==> block_forwarded(pre.blocks[c], #[trigger] self@.blocks[c]),
                modified <==> exists|c: int, k: int|
                    0 <= c < b && 0 <= k < pre.blocks[c].body@.len() && #[trigger] forwards(
                        pre.blocks[c].body@,
                        k,
                    ),
            decreases self.blocks@.len() - b,
        {
            let ghost body = pre.blocks[b as int].body@;
            let ghost start = self@.blocks;
            let mut av_store: Option<StoredValue> = None;
            let mut here = false;
            let n = self.blocks[b].body.len();
            let mut k: usize = 0;
            while k < n
                invariant
                    0 <= k <= n,
                    b < self.blocks@.len(),
                    n == body.len(),
                    body == pre.blocks[b as int].body@,
                    self@.functions == pre.functions,
                    self@.registers == pre.registers,
                    self@.variables == pre.variables,
                    self@.blocks.len() == pre.blocks.len(),
                    start.len() == pre.blocks.len(),
                    forall|c: int|
                        0 <= c < pre.blocks.len() && c != b ==> #[trigger] self@.blocks[c]
                            == start[c],
                    self@.blocks[b as int].id == pre.blocks[b as int].id,
                    self@.blocks[b as int].function == pre.blocks[b as int].function,
                    self@.blocks[b as int].parameters == pre.blocks[b as int].parameters,
                    self@.blocks[b as int].body@.len() == n,
                    forall|j: int|
                        0 <= j < k ==> #[trigger] self@.blocks[b as int].body@[j] == forwarded(
                            body,
                            j,
                        ),
                    forall|j: int|
                        k <= j < n ==> #[trigger] self@.blocks[b as int].body@[j] == body[j],
                    av_store == last_store(body, k as int),
                    here <==> exists|j: int| 0 <= j < k && #[trigger] forwards(body, j),
                decreases n - k,
            {
                let mut replace: Option<Instruction> = None;
                match &self.blocks[b].body[k] {
                    Instruction::Store { pointer, value, .. } => {
                        av_store = Some(StoredValue { pointer: *pointer, value: *value });
                    },
                    Instruction::Load { target, pointer, .. } => {
                        if let Some(store) = av_store {
                            if store.pointer == *pointer {
                                replace = Some(Instruction::Assign(*target, store.value));
                            }
                        }
                    },
                    _ => {},
                }
                if let Some(instr) = replace {
                    self.blocks[b].body.set(k, instr);
                    here = true;
                }
                proof {
                    assert(self@.blocks[b as int].body@[k as int] == forwarded(body, k as int));
                    assert(here <==> exists|j: int| 0 <= j < k + 1 && #[trigger] forwards(body, j)) by {
                        if !here {
                            assert forall|j: int| 0 <= j < k + 1 implies !#[trigger] forwards(
                                body,
                                j,
                            ) by {}
                        } else {
                            if !forwards(body, k as int) {
                                let j = choose|j: int| 0 <= j < k && #[trigger] forwards(body, j);
                                assert(forwards(body, j));
                            }
                        }
                    }
                }
                k += 1;
            }
            proof {
                assert(block_forwarded(pre.blocks[b as int], self@.blocks[b as int]));
                assert((modified || here) <==> exists|c: int, k: int|
                    0 <= c < b + 1 && 0 <= k < pre.blocks[c].body@.len() && #[trigger] forwards(
                        pre.blocks[c].body@,
                        k,
                    )) by {
                    if here {
                        let j = choose|j: int| 0 <= j < n && #[trigger] forwards(body, j);
                        assert(forwards(pre.blocks[b as int].body@, j));
                    } else if !modified {
                        assert forall|c: int, k: int|
                            0 <= c < b + 1 && 0 <= k < pre.blocks[c].body@.len() implies !#[trigger] forwards(
                            pre.blocks[c].body@,
                            k,
                        ) by {
                            if c == b {
                                assert(!forwards(body, k));
                            }
                        }
                    } else {
                        let (c, k) = choose|c: int, k: int|
                            0 <= c < b && 0 <= k < pre.blocks[c].body@.len() && #[trigger] forwards(
                                pre.blocks[c].body@,
                                k,
                            );
                        assert(forwards(pre.blocks[c].body@, k));
                    }
                }
            }
            if here {
                modified = true;
            }
            b += 1;
        }
        proof {
            Self::lemma_forwarded_wf(pre, self@);
            if pre.ssa() {
                Self::lemma_forwarded_ssa(pre, self@);
            }
        }
        modified
    }

    /// A module stays in order when stores are forwarded to loads.
    pub proof fn lemma_forwarded_wf(pre: ModuleView, post: ModuleView)
        requires
            pre.wf(),
            Self::stores_forwarded(pre, post),
        ensures
            post.wf(),
    {
        assert forall|i: int| 0 <= i < post.functions.len() implies #[trigger] post.function_wf(
            i,
        ) by {
            assert(pre.function_wf(i));
            let f = pre.functions[i];
            assert forall|k: int| 0 <= k < f.block_ids().len() implies post.block_in(
                #[trigger] f.block_ids()[k],
                f.id,
            ) by {
                assert(pre.block_in(f.block_ids()[k], f.id));
            }
            if f.definition is Some {
                assert(pre.block_in(f.definition->0.entry, f.id));
            }
        }
        assert forall|i: int| 0 <= i < post.registers.len() implies #[trigger] post.register_wf(
            i,
        ) by {
            assert(pre.register_wf(i));
        }
        assert forall|i: int| 0 <= i < post.variables.len() implies #[trigger] post.variable_wf(
            i,
        ) by {
            assert(pre.variable_wf(i));
        }
        assert forall|i: int| 0 <= i < post.blocks.len() implies #[trigger] post.block_wf(i) by {
            assert(pre.block_wf(i));
            let b = pre.blocks[i];
            let c = post.blocks[i];
            assert(block_forwarded(b, c));
            assert forall|k: int| 0 <= k < c.body@.len() implies post.instr_ok(
                c.function,
                #[trigger] c.body@[k],
            ) by {
                assert(c.body@[k] == forwarded(b.body@, k));
                lemma_forwarded_ok(pre, b.function, b.body@, k);
                let instr = forwarded(b.body@, k);
                assert forall|j: int| 0 <= j < instr.operands().len() implies post.expr_ok(
                    c.function,
                    #[trigger] instr.operands()[j],
                ) by {
                    assert(pre.expr_ok(b.function, instr.operands()[j]));
                }
                assert forall|j: int| 0 <= j < instr.successors().len() implies post.target_ok(
                    c.function,
                    #[trigger] instr.successors()[j],
                ) by {
                    let t = instr.successors()[j];
                    assert(pre.target_ok(b.function, t));
                    assert forall|q: int| 0 <= q < t.parameters@.len() implies post.expr_ok(
                        c.function,
                        #[trigger] t.parameters@[q],
                    ) by {
                        assert(pre.expr_ok(b.function, t.parameters@[q]));
                    }
                }
            }
            assert forall|k: int| 0 <= k < c.parameters@.len() implies post.reg_in(
                #[trigger] c.parameters@[k],
                c.function,
            ) by {
                assert(pre.reg_in(b.parameters@[k], b.function));
            }
        }
    }

    /// Single assignment survives the forwarding of stores to loads: each
    /// instruction writes the register that it wrote before.
    pub proof fn lemma_forwarded_ssa(pre: ModuleView, post: ModuleView)
        requires
            pre.wf(),
            pre.ssa(),
            Self::stores_forwarded(pre, post),
        ensures
            post.ssa(),
    {
        assert forall|b: int, k: int| #[trigger] post.written_at(b, k) == pre.written_at(b, k) by {
            if 0 <= b < pre.blocks.len() && 0 <= k < pre.blocks[b].body@.len() {
                assert(block_forwarded(pre.blocks[b], post.blocks[b]));
                assert(post.blocks[b].body@[k] == forwarded(pre.blocks[b].body@, k));
            }
        }
        assert forall|r: RegID| post.is_parameter(r) implies pre.is_parameter(r) by {
            if exists|f: int, p: int|
                0 <= f < post.functions.len() && 0 <= p
                    < post.functions[f].parameter_registers@.len()
                    && #[trigger] post.functions[f].parameter_registers@[p] == r {
            } else {
                let (b, p) = choose|b: int, p: int|
                    0 <= b < post.blocks.len() && 0 <= p < post.blocks[b].parameters@.len()
                        && #[trigger] post.blocks[b].parameters@[p] == r;
                assert(block_forwarded(pre.blocks[b], post.blocks[b]));
                assert(pre.blocks[b].parameters@[p] == r);
            }
        }
        assert forall|b: int, k: int| (#[trigger] post.written_at(b, k)) is Some implies !post.is_parameter(
            post.written_at(b, k)->0,
        ) by {
            assert(pre.written_at(b, k) == post.written_at(b, k));
        }
        assert forall|b1: int, k1: int, b2: int, k2: int|
            #![trigger post.written_at(b1, k1), post.written_at(b2, k2)]
            post.written_at(b1, k1) is Some && post.written_at(b1, k1) == post.written_at(
                b2,
                k2,
            ) implies b1 == b2 && k1 == k2 by {
            assert(pre.written_at(b1, k1) == pre.written_at(b2, k2));
        }
    }
}

/// A store that was seen: the pointer that it writes through and the
/// value that it writes.
#[derive(Copy, Clone, Debug)]
pub struct StoredValue {
    pub pointer: RegID,
    pub value: Expr,
}

/// Whether `post` is the block `pre` after stores were forwarded to
/// loads: each instruction is what `forwarded` makes of it, and nothing
/// else has changed.
pub open spec fn block_forwarded(pre: block::Block, post: block::Block) -> bool {
    &&& post.id == pre.id
    &&& post.function == pre.function
    &&& post.parameters == pre.parameters
    &&& post.body@.len() == pre.body@.len()
    &&& forall|k: int|
        0 <= k < pre.body@.len() ==> #[trigger] post.body@[k] == forwarded(pre.body@, k)
}

/// The store that is the last before position `k` of `body`: its pointer
/// and the value that it writes.
pub open spec fn last_store(body: Seq<Instruction>, k: int) -> Option<StoredValue>
    decreases k,
{
    if k <= 0 || k > body.len() {
        None
    } else {
        match body[k - 1] {
            Instruction::Store { pointer, value, .. } => Some(StoredValue { pointer, value }),
            _ => last_store(body, k - 1),
        }
    }
}

/// Whether the instruction at position `k` of `body` is a load from the
/// pointer of the last store before it.
pub open spec fn forwards(body: Seq<Instruction>, k: int) -> bool {
    body[k] matches Instruction::Load { pointer, .. } && last_store(body, k) matches Some(store)
        && store.pointer == pointer
}

/// What becomes of the instruction at position `k` of `body`: a load from
/// the pointer of the last store before it becomes a copy of the value
/// that was stored; every other instruction stays.
pub open spec fn forwarded(body: Seq<Instruction>, k: int) -> Instruction {
    if forwards(body, k) {
        Instruction::Assign(body[k]->Load_target, last_store(body, k)->0.value)
    } else {
        body[k]
    }
}

/// The value of the last store before a position may stand where the
/// store stands.
pub proof fn lemma_last_store_ok(m: ModuleView, f: FuncID, body: Seq<Instruction>, k: int)
    requires
        0 <= k <= body.len(),
        forall|j: int| 0 <= j < body.len() ==> m.instr_ok(f, #[trigger] body[j]),
        last_store(body, k) is Some,
    ensures
        m.expr_ok(f, last_store(body, k)->0.value),
    decreases k,
{
    if k > 0 {
        match body[k - 1] {
            Instruction::Store { pointer, value, .. } => {
                assert(m.instr_ok(f, body[k - 1]));
                assert(body[k - 1].operands()[1] == value);
            },
            _ => {
                lemma_last_store_ok(m, f, body, k - 1);
            },
        }
    }
}

/// What an instruction becomes may stand where the instruction stands.
pub proof fn lemma_forwarded_ok(m: ModuleView, f: FuncID, body: Seq<Instruction>, k: int)
    requires
        0 <= k < body.len(),
        forall|j: int| 0 <= j < body.len() ==> m.instr_ok(f, #[trigger] body[j]),
    ensures
        m.instr_ok(f, forwarded(body, k)),
{
    assert(m.instr_ok(f, body[k]));
    if forwards(body, k) {
        lemma_last_store_ok(m, f, body, k);
        let instr = forwarded(body, k);
        assert(instr.operands() =~= seq![last_store(body, k)->0.value]);
    }
}

} // verus!
