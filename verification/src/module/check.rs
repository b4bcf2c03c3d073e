//! Checking, while the program runs, that a module is in order.

use super::block::BlockID;
use super::function::FuncID;
use super::instruction::{BlockTarget, Expr, Instruction};
use super::register::RegID;
use super::variable::VarID;
use super::{increasing, Module, ModuleView};
use crate::types::Types;
use vstd::prelude::*;

verus! {

/// Operands may stand in a function exactly if the first of them and the
/// rest of them may.
proof fn lemma_exprs_ok_cons(m: ModuleView, f: FuncID, first: Expr, rest: Seq<Expr>)
    ensures
        m.exprs_ok(f, seq![first] + rest) <==> m.expr_ok(f, first) && m.exprs_ok(f, rest),
{
    let all = seq![first] + rest;
    if m.exprs_ok(f, all) {
        assert(m.expr_ok(f, all[0]));
        assert forall|i: int| 0 <= i < rest.len() implies m.expr_ok(f, #[trigger] rest[i]) by {
            assert(m.expr_ok(f, all[i + 1]));
        }
    }
    if m.expr_ok(f, first) && m.exprs_ok(f, rest) {
        assert forall|i: int| 0 <= i < all.len() implies m.expr_ok(f, #[trigger] all[i]) by {
            if i > 0 {
                assert(m.expr_ok(f, rest[i - 1]));
            }
        }
    }
}

impl Module {
    /// Whether `r` is a register of the function `f`.
    pub fn has_register(&self, r: RegID, f: FuncID) -> (ok: bool)
        ensures
            ok == self@.reg_in(r, f),
    {
        r.0 < self.register_count() && self.register(r).function() == f
    }

    /// Whether `v` is a variable of the function `f`.
    pub fn has_variable(&self, v: VarID, f: FuncID) -> (ok: bool)
        ensures
            ok == self@.var_in(v, f),
    {
        v.0 < self.variable_count() && self.variable(v).function() == f
    }

    /// Whether `b` is a block of the function `f`.
    pub fn has_block(&self, b: BlockID, f: FuncID) -> (ok: bool)
        ensures
            ok == self@.block_in(b, f),
    {
        b.0 < self.block_count() && self.block(b).function() == f
    }

    /// Whether the operand `e` may stand in the function `f`.
    pub fn operand_fits(&self, f: FuncID, e: &Expr) -> (ok: bool)
        ensures
            ok == self@.expr_ok(f, *e),
    {
        match e {
            Expr::Register(r) => self.has_register(*r, f),
            Expr::Constant(_) => true,
        }
    }

    /// Whether each of the operands `es` may stand in the function `f`.
    pub fn operands_fit(&self, f: FuncID, es: &Vec<Expr>) -> (ok: bool)
        ensures
            ok == self@.exprs_ok(f, es@),
    {
        let mut i: usize = 0;
        while i < es.len()
            invariant
                0 <= i <= es@.len(),
                forall|k: int| 0 <= k < i ==> self@.expr_ok(f, #[trigger] es@[k]),
            decreases es@.len() - i,
        {
            if !self.operand_fits(f, &es[i]) {
                return false;
            }
            i += 1;
        }
        true
    }

    /// Whether a jump to `t` may stand in the function `f`.
    pub fn target_fits(&self, f: FuncID, t: &BlockTarget) -> (ok: bool)
        ensures
            ok == self@.target_ok(f, *t),
    {
        self.has_block(t.block, f) && self.operands_fit(f, &t.parameters)
    }

    /// Whether the instruction `instr` may stand in the function `f`.
    pub fn instruction_fits(&self, f: FuncID, instr: &Instruction) -> (ok: bool)
        ensures
            ok == self@.instr_ok(f, *instr),
    {
        let ghost m = self@;
        match instr {
            Instruction::Nop => true,
            Instruction::Assign(t, a) => {
                proof {
                    lemma_exprs_ok_cons(m, f, *a, Seq::empty());
                    assert(seq![*a] + Seq::<Expr>::empty() =~= instr.operands());
                }
                self.has_register(*t, f) && self.operand_fits(f, a)
            },
            Instruction::BinaryOp(t, _, a, b) => {
                proof {
                    lemma_exprs_ok_cons(m, f, *a, seq![*b]);
                    lemma_exprs_ok_cons(m, f, *b, Seq::empty());
                    assert(seq![*a] + seq![*b] =~= instr.operands());
                    assert(seq![*b] + Seq::<Expr>::empty() =~= seq![*b]);
                }
                self.has_register(*t, f) && self.operand_fits(f, a) && self.operand_fits(f, b)
            },
            Instruction::UnaryOp(t, _, a) => {
                proof {
                    lemma_exprs_ok_cons(m, f, *a, Seq::empty());
                    assert(seq![*a] + Seq::<Expr>::empty() =~= instr.operands());
                }
                self.has_register(*t, f) && self.operand_fits(f, a)
            },
            Instruction::TestOp(t, _, a, b) => {
                proof {
                    lemma_exprs_ok_cons(m, f, *a, seq![*b]);
                    lemma_exprs_ok_cons(m, f, *b, Seq::empty());
                    assert(seq![*a] + seq![*b] =~= instr.operands());
                    assert(seq![*b] + Seq::<Expr>::empty() =~= seq![*b]);
                }
                self.has_register(*t, f) && self.operand_fits(f, a) && self.operand_fits(f, b)
            },
            Instruction::MakeStruct(t, values) => self.has_register(*t, f) && self.operands_fit(
                f,
                values,
            ),
            Instruction::MakeArray(t, values) => self.has_register(*t, f) && self.operands_fit(
                f,
                values,
            ),
            Instruction::MakeShortArray(t, value, _) => {
                proof {
                    lemma_exprs_ok_cons(m, f, *value, Seq::empty());
                    assert(seq![*value] + Seq::<Expr>::empty() =~= instr.operands());
                }
                self.has_register(*t, f) && self.operand_fits(f, value)
            },
            Instruction::Select { target, condition, true_value, false_value } => {
                proof {
                    lemma_exprs_ok_cons(m, f, *condition, seq![*true_value, *false_value]);
                    lemma_exprs_ok_cons(m, f, *true_value, seq![*false_value]);
                    lemma_exprs_ok_cons(m, f, *false_value, Seq::empty());
                    assert(seq![*condition] + seq![*true_value, *false_value]
                        =~= instr.operands());
                    assert(seq![*true_value] + seq![*false_value] =~= seq![
                        *true_value,
                        *false_value,
                    ]);
                    assert(seq![*false_value] + Seq::<Expr>::empty() =~= seq![*false_value]);
                }
                self.has_register(*target, f) && self.operand_fits(f, condition)
                    && self.operand_fits(f, true_value) && self.operand_fits(f, false_value)
            },
            Instruction::GetElement { target, array, index } => {
                proof {
                    lemma_exprs_ok_cons(m, f, *array, seq![*index]);
                    lemma_exprs_ok_cons(m, f, *index, Seq::empty());
                    assert(seq![*array] + seq![*index] =~= instr.operands());
                    assert(seq![*index] + Seq::<Expr>::empty() =~= seq![*index]);
                }
                self.has_register(*target, f) && self.operand_fits(f, array) && self.operand_fits(
                    f,
                    index,
                )
            },
            Instruction::GetElementPtr { target, array_pointer, index, .. } => {
                proof {
                    lemma_exprs_ok_cons(m, f, Expr::Register(*array_pointer), seq![*index]);
                    lemma_exprs_ok_cons(m, f, *index, Seq::empty());
                    assert(seq![Expr::Register(*array_pointer)] + seq![*index]
                        =~= instr.operands());
                    assert(seq![*index] + Seq::<Expr>::empty() =~= seq![*index]);
                }
                self.has_register(*target, f) && self.has_register(*array_pointer, f)
                    && self.operand_fits(f, index)
            },
            Instruction::GetMember { target, structure, .. } => {
                proof {
                    lemma_exprs_ok_cons(m, f, *structure, Seq::empty());
                    assert(seq![*structure] + Seq::<Expr>::empty() =~= instr.operands());
                }
                self.has_register(*target, f) && self.operand_fits(f, structure)
            },
            Instruction::GetMemberPtr { target, struct_pointer, .. } => {
                proof {
                    lemma_exprs_ok_cons(m, f, Expr::Register(*struct_pointer), Seq::empty());
                    assert(seq![Expr::Register(*struct_pointer)] + Seq::<Expr>::empty()
                        =~= instr.operands());
                }
                self.has_register(*target, f) && self.has_register(*struct_pointer, f)
            },
            Instruction::GetVarPointer(t, v) => self.has_register(*t, f) && self.has_variable(
                *v,
                f,
            ),
            Instruction::GetFunctionPointer(t, g) => self.has_register(*t, f) && g.0
                < self.function_count(),
            Instruction::Load { target, pointer, .. } => {
                proof {
                    lemma_exprs_ok_cons(m, f, Expr::Register(*pointer), Seq::empty());
                    assert(seq![Expr::Register(*pointer)] + Seq::<Expr>::empty()
                        =~= instr.operands());
                }
                self.has_register(*target, f) && self.has_register(*pointer, f)
            },
            Instruction::Store { pointer, value, .. } => {
                proof {
                    lemma_exprs_ok_cons(m, f, Expr::Register(*pointer), seq![*value]);
                    lemma_exprs_ok_cons(m, f, *value, Seq::empty());
                    assert(seq![Expr::Register(*pointer)] + seq![*value] =~= instr.operands());
                    assert(seq![*value] + Seq::<Expr>::empty() =~= seq![*value]);
                }
                self.has_register(*pointer, f) && self.operand_fits(f, value)
            },
            Instruction::Jump(t) => {
                proof {
                    assert(instr.successors()[0] == *t);
                }
                self.target_fits(f, t)
            },
            Instruction::Branch(c, t, e) => {
                proof {
                    lemma_exprs_ok_cons(m, f, *c, Seq::empty());
                    assert(seq![*c] + Seq::<Expr>::empty() =~= instr.operands());
                    assert(instr.successors()[0] == *t);
                    assert(instr.successors()[1] == *e);
                }
                self.operand_fits(f, c) && self.target_fits(f, t) && self.target_fits(f, e)
            },
            Instruction::Call { target, function, args } => self.has_register(*target, f)
                && function.0 < self.function_count() && self.operands_fit(f, args),
            Instruction::CallPtr { target, function_ptr, args, .. } => {
                proof {
                    lemma_exprs_ok_cons(m, f, Expr::Register(*function_ptr), args@);
                }
                self.has_register(*target, f) && self.has_register(*function_ptr, f)
                    && self.operands_fit(f, args)
            },
            Instruction::Syscall { target, number, args } => {
                proof {
                    lemma_exprs_ok_cons(m, f, *number, args@);
                }
                self.has_register(*target, f) && self.operand_fits(f, number)
                    && self.operands_fit(f, args)
            },
            Instruction::Return(value) => {
                proof {
                    lemma_exprs_ok_cons(m, f, *value, Seq::empty());
                    assert(seq![*value] + Seq::<Expr>::empty() =~= instr.operands());
                }
                self.operand_fits(f, value)
            },
        }
    }

    /// Whether the type of every register, of every variable and of the
    /// result of every function is a type of `types`.
    pub fn is_typed_in(&self, types: &Types) -> (ok: bool)
        ensures
            ok == self.typed_in(types),
    {
        let mut i: usize = 0;
        while i < self.register_count()
            invariant
                0 <= i <= self@.registers.len(),
                forall|k: int|
                    0 <= k < i ==> types.valid((#[trigger] self@.registers[k]).reg_type),
            decreases self@.registers.len() - i,
        {
            if !types.is_valid(self.register(RegID(i)).reg_type()) {
                return false;
            }
            i += 1;
        }
        let mut i: usize = 0;
        while i < self.variable_count()
            invariant
                0 <= i <= self@.variables.len(),
                forall|k: int|
                    0 <= k < self@.registers.len() ==> types.valid(
                        (#[trigger] self@.registers[k]).reg_type,
                    ),
                forall|k: int|
                    0 <= k < i ==> types.valid((#[trigger] self@.variables[k]).var_type),
            decreases self@.variables.len() - i,
        {
            if !types.is_valid(self.variable(VarID(i)).var_type()) {
                return false;
            }
            i += 1;
        }
        let mut i: usize = 0;
        while i < self.function_count()
            invariant
                0 <= i <= self@.functions.len(),
                forall|k: int|
                    0 <= k < self@.registers.len() ==> types.valid(
                        (#[trigger] self@.registers[k]).reg_type,
                    ),
                forall|k: int|
                    0 <= k < self@.variables.len() ==> types.valid(
                        (#[trigger] self@.variables[k]).var_type,
                    ),
                forall|k: int|
                    0 <= k < i ==> types.valid(
                        (#[trigger] self@.functions[k]).signature.return_type,
                    ),
            decreases self@.functions.len() - i,
        {
            if !types.is_valid(self.function(FuncID(i)).return_type()) {
                return false;
            }
            i += 1;
        }
        true
    }
}


impl Module {
    /// Whether each of the registers `list` is a register of the function `f` and
    /// has a greater identifier than the one before it.
    fn registers_listed(&self, f: FuncID, list: &Vec<RegID>) -> (ok: bool)
        ensures
            ok == (increasing(list@.map_values(|x: RegID| x.0 as int)) && forall|k: int|
                0 <= k < list@.len() ==> self@.reg_in(#[trigger] list@[k], f)),
    {
        let ghost ids = list@.map_values(|x: RegID| x.0 as int);
        let mut i: usize = 0;
        while i < list.len()
            invariant
                0 <= i <= list@.len(),
                ids == list@.map_values(|x: RegID| x.0 as int),
                forall|k: int| 0 <= k < i ==> self@.reg_in(#[trigger] list@[k], f),
                forall|a: int, b: int| 0 <= a < b < i ==> ids[a] < ids[b],
            decreases list@.len() - i,
        {
            if !self.has_register(list[i], f) {
                return false;
            }
            if i > 0 && list[i - 1].0 >= list[i].0 {
                assert(!(ids[i - 1] < ids[i as int]));
                return false;
            }
            assert forall|a: int, b: int| 0 <= a < b < i + 1 implies ids[a] < ids[b] by {
                if b == i && a < i - 1 {
                    assert(ids[a] < ids[i - 1]);
                }
            }
            i += 1;
        }
        true
    }

    /// Whether `list` holds `x`.
    fn register_listed(list: &Vec<RegID>, x: RegID) -> (ok: bool)
        ensures
            ok == list@.contains(x),
    {
        let mut i: usize = 0;
        while i < list.len()
            invariant
                0 <= i <= list@.len(),
                forall|k: int| 0 <= k < i ==> list@[k] != x,
            decreases list@.len() - i,
        {
            if list[i] == x {
                return true;
            }
            i += 1;
        }
        false
    }

    /// Whether each of the blocks `list` is a block of the function `f` and
    /// has a greater identifier than the one before it.
    fn blocks_listed(&self, f: FuncID, list: &Vec<BlockID>) -> (ok: bool)
        ensures
            ok == (increasing(list@.map_values(|x: BlockID| x.0 as int)) && forall|k: int|
                0 <= k < list@.len() ==> self@.block_in(#[trigger] list@[k], f)),
    {
        let ghost ids = list@.map_values(|x: BlockID| x.0 as int);
        let mut i: usize = 0;
        while i < list.len()
            invariant
                0 <= i <= list@.len(),
                ids == list@.map_values(|x: BlockID| x.0 as int),
                forall|k: int| 0 <= k < i ==> self@.block_in(#[trigger] list@[k], f),
                forall|a: int, b: int| 0 <= a < b < i ==> ids[a] < ids[b],
            decreases list@.len() - i,
        {
            if !self.has_block(list[i], f) {
                return false;
            }
            if i > 0 && list[i - 1].0 >= list[i].0 {
                assert(!(ids[i - 1] < ids[i as int]));
                return false;
            }
            assert forall|a: int, b: int| 0 <= a < b < i + 1 implies ids[a] < ids[b] by {
                if b == i && a < i - 1 {
                    assert(ids[a] < ids[i - 1]);
                }
            }
            i += 1;
        }
        true
    }

    /// Whether `list` holds `x`.
    fn block_listed(list: &Vec<BlockID>, x: BlockID) -> (ok: bool)
        ensures
            ok == list@.contains(x),
    {
        let mut i: usize = 0;
        while i < list.len()
            invariant
                0 <= i <= list@.len(),
                forall|k: int| 0 <= k < i ==> list@[k] != x,
            decreases list@.len() - i,
        {
            if list[i] == x {
                return true;
            }
            i += 1;
        }
        false
    }

    /// Whether each of the variables `list` is a variable of the function `f` and
    /// has a greater identifier than the one before it.
    fn variables_listed(&self, f: FuncID, list: &Vec<VarID>) -> (ok: bool)
        ensures
            ok == (increasing(list@.map_values(|x: VarID| x.0 as int)) && forall|k: int|
                0 <= k < list@.len() ==> self@.var_in(#[trigger] list@[k], f)),
    {
        let ghost ids = list@.map_values(|x: VarID| x.0 as int);
        let mut i: usize = 0;
        while i < list.len()
            invariant
                0 <= i <= list@.len(),
                ids == list@.map_values(|x: VarID| x.0 as int),
                forall|k: int| 0 <= k < i ==> self@.var_in(#[trigger] list@[k], f),
                forall|a: int, b: int| 0 <= a < b < i ==> ids[a] < ids[b],
            decreases list@.len() - i,
        {
            if !self.has_variable(list[i], f) {
                return false;
            }
            if i > 0 && list[i - 1].0 >= list[i].0 {
                assert(!(ids[i - 1] < ids[i as int]));
                return false;
            }
            assert forall|a: int, b: int| 0 <= a < b < i + 1 implies ids[a] < ids[b] by {
                if b == i && a < i - 1 {
                    assert(ids[a] < ids[i - 1]);
                }
            }
            i += 1;
        }
        true
    }

    /// Whether `list` holds `x`.
    fn variable_listed(list: &Vec<VarID>, x: VarID) -> (ok: bool)
        ensures
            ok == list@.contains(x),
    {
        let mut i: usize = 0;
        while i < list.len()
            invariant
                0 <= i <= list@.len(),
                forall|k: int| 0 <= k < i ==> list@[k] != x,
            decreases list@.len() - i,
        {
            if list[i] == x {
                return true;
            }
            i += 1;
        }
        false
    }

    /// Whether the function number `i` is in order.
    fn function_ok(&self, i: usize) -> (ok: bool)
        requires
            i < self@.functions.len(),
        ensures
            ok == self@.function_wf(i as int),
    {
        let f = self.function(FuncID(i));
        if f.id().0 != i {
            return false;
        }
        if !self.registers_listed(f.id(), f.registers()) {
            return false;
        }
        match f.definition() {
            Some(d) => {
                assert(f.block_ids() == d.blocks@);
                assert(f.variable_ids() == d.variables@);
                if !self.blocks_listed(f.id(), d.blocks()) || !self.variables_listed(
                    f.id(),
                    d.variables(),
                ) || !self.has_block(d.entry(), f.id()) {
                    return false;
                }
            },
            None => {
                assert(f.block_ids() =~= Seq::empty());
                assert(f.variable_ids() =~= Seq::empty());
            },
        }
        let params = f.parameter_registers();
        let tys = f.parameter_types();
        if params.len() != tys.len() {
            return false;
        }
        let mut k: usize = 0;
        while k < params.len()
            invariant
                0 <= k <= params@.len(),
                params@.len() == tys@.len(),
                i < self@.functions.len(),
                *f == self@.functions[i as int],
                params@ == f.parameter_registers@,
                tys@ == f.signature.parameter_types@,
                forall|j: int|
                    0 <= j < k ==> {
                        &&& self@.reg_in(#[trigger] params@[j], f.id)
                        &&& tys@[j] == self@.registers[params@[j].0 as int].reg_type
                    },
            decreases params@.len() - k,
        {
            if !self.has_register(params[k], f.id()) {
                return false;
            }
            if self.register(params[k]).reg_type() != tys[k] {
                return false;
            }
            k += 1;
        }
        true
    }

    /// Whether the register number `i` is in order.
    fn register_ok(&self, i: usize) -> (ok: bool)
        requires
            i < self@.registers.len(),
        ensures
            ok == self@.register_wf(i as int),
    {
        let r = self.register(RegID(i));
        r.id().0 == i && r.function().0 < self.function_count() && Self::register_listed(
            self.function(r.function()).registers(),
            r.id(),
        )
    }

    /// Whether the variable number `i` is in order.
    fn variable_ok(&self, i: usize) -> (ok: bool)
        requires
            i < self@.variables.len(),
        ensures
            ok == self@.variable_wf(i as int),
    {
        let v = self.variable(VarID(i));
        if v.id().0 != i || v.function().0 >= self.function_count() {
            return false;
        }
        let f = self.function(v.function());
        match f.definition() {
            Some(d) => {
                assert(f.variable_ids() == d.variables@);
                Self::variable_listed(d.variables(), v.id())
            },
            None => {
                assert(f.variable_ids() =~= Seq::empty());
                false
            },
        }
    }

    /// Whether the block number `i` is in order.
    fn block_ok(&self, i: usize) -> (ok: bool)
        requires
            i < self@.blocks.len(),
        ensures
            ok == self@.block_wf(i as int),
    {
        let b = self.block(BlockID(i));
        if b.id().0 != i || b.function().0 >= self.function_count() {
            return false;
        }
        let f = self.function(b.function());
        let listed = match f.definition() {
            Some(d) => {
                assert(f.block_ids() == d.blocks@);
                Self::block_listed(d.blocks(), b.id())
            },
            None => {
                assert(f.block_ids() =~= Seq::empty());
                false
            },
        };
        if !listed {
            return false;
        }
        let params = b.parameters();
        let mut k: usize = 0;
        while k < params.len()
            invariant
                0 <= k <= params@.len(),
                i < self@.blocks.len(),
                *b == self@.blocks[i as int],
                params@ == b.parameters@,
                forall|j: int| 0 <= j < k ==> self@.reg_in(#[trigger] params@[j], b.function),
            decreases params@.len() - k,
        {
            if !self.has_register(params[k], b.function()) {
                return false;
            }
            k += 1;
        }
        let body = b.body();
        let mut k: usize = 0;
        while k < body.len()
            invariant
                0 <= k <= body@.len(),
                i < self@.blocks.len(),
                *b == self@.blocks[i as int],
                body@ == b.body@,
                forall|j: int| 0 <= j < k ==> self@.instr_ok(b.function, #[trigger] body@[j]),
            decreases body@.len() - k,
        {
            if !self.instruction_fits(b.function(), &body[k]) {
                return false;
            }
            k += 1;
        }
        true
    }

    /// Whether the module is in order: whatever is named anywhere exists
    /// and belongs to the function that names it.
    pub fn is_wf(&self) -> (ok: bool)
        ensures
            ok == self.wf(),
    {
        let mut i: usize = 0;
        while i < self.function_count()
            invariant
                0 <= i <= self@.functions.len(),
                forall|k: int| 0 <= k < i ==> #[trigger] self@.function_wf(k),
            decreases self@.functions.len() - i,
        {
            if !self.function_ok(i) {
                return false;
            }
            i += 1;
        }
        let mut i: usize = 0;
        while i < self.register_count()
            invariant
                0 <= i <= self@.registers.len(),
                forall|k: int| 0 <= k < self@.functions.len() ==> #[trigger] self@.function_wf(k),
                forall|k: int| 0 <= k < i ==> #[trigger] self@.register_wf(k),
            decreases self@.registers.len() - i,
        {
            if !self.register_ok(i) {
                return false;
            }
            i += 1;
        }
        let mut i: usize = 0;
        while i < self.variable_count()
            invariant
                0 <= i <= self@.variables.len(),
                forall|k: int| 0 <= k < self@.functions.len() ==> #[trigger] self@.function_wf(k),
                forall|k: int| 0 <= k < self@.registers.len() ==> #[trigger] self@.register_wf(k),
                forall|k: int| 0 <= k < i ==> #[trigger] self@.variable_wf(k),
            decreases self@.variables.len() - i,
        {
            if !self.variable_ok(i) {
                return false;
            }
            i += 1;
        }
        let mut i: usize = 0;
        while i < self.block_count()
            invariant
                0 <= i <= self@.blocks.len(),
                forall|k: int| 0 <= k < self@.functions.len() ==> #[trigger] self@.function_wf(k),
                forall|k: int| 0 <= k < self@.registers.len() ==> #[trigger] self@.register_wf(k),
                forall|k: int| 0 <= k < self@.variables.len() ==> #[trigger] self@.variable_wf(k),
                forall|k: int| 0 <= k < i ==> #[trigger] self@.block_wf(k),
            decreases self@.blocks.len() - i,
        {
            if !self.block_ok(i) {
                return false;
            }
            i += 1;
        }
        true
    }
}

} // verus!
