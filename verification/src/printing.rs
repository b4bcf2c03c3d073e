//! The textual form of a module, for reading and for comparing.
//!
//! Inside a function, registers, blocks and variables are named by
//! numbers that count from zero in the order in which the text first
//! mentions them, so that the text of a function does not depend on what
//! else the module holds.

use crate::backend::schedule::{entry_of, is_schedule, reachable_blocks, schedules};
use crate::module::block::BlockID;
use crate::module::function::FuncID;
use crate::module::instruction::{
    BinaryOp, BlockTarget, ConstValue, Expr, Instruction, TestOp, UnaryOp,
};
use crate::module::register::RegID;
use crate::module::variable::VarID;
use crate::module::{Module, ModuleView};
use crate::types::{StructTypeID, Type, Types};
use crate::util::text::{int_text, nat_text, push_int, push_nat};
use vstd::prelude::*;
use vstd::string::StringExecFns;

verus! {

/// The position of the first `x` in `s`, or the length of `s` where `s`
/// does not hold `x`.
pub open spec fn index_in<T>(s: Seq<T>, x: T) -> int
    decreases s.len(),
{
    if s.len() == 0 {
        0
    } else if index_in(s.drop_last(), x) < s.len() - 1 {
        index_in(s.drop_last(), x)
    } else if s.last() == x {
        s.len() - 1
    } else {
        s.len() as int
    }
}

/// `s`, with `x` after it where `s` does not hold `x` yet.
pub open spec fn noted<T>(s: Seq<T>, x: T) -> Seq<T> {
    if index_in(s, x) < s.len() {
        s
    } else {
        s.push(x)
    }
}

/// The text of the type `ty` of the store `types`: `()`, `i1` for a truth
/// value, `i` and the width for an integer, `ptr`, `[ element * length ]`
/// for an array, `{ member, member }` for a struct, and `?` for what is
/// no type of the store.
pub open spec fn type_text(types: Types, ty: Type) -> Seq<char>
    decreases types.rank(ty), 1nat, 0nat,
{
    if !types.wf() || !types.valid(ty) {
        "?"@
    } else {
        match ty {
            Type::Unit => "()"@,
            Type::Bool => "i1"@,
            Type::Integer(bits) => "i"@ + nat_text(bits as nat),
            Type::Pointer => "ptr"@,
            Type::Array(id) => "[ "@ + type_text(types, types.arrays()[id.0 as int].0) + " * "@
                + nat_text(types.arrays()[id.0 as int].1 as nat) + " ]"@,
            Type::Struct(id) => "{ "@ + members_text(
                types,
                id,
                types.structs()[id.0 as int].len(),
            ) + " }"@,
        }
    }
}

/// The text of the first `n` members of the struct type `id`, with a
/// comma and a blank between each two.
pub open spec fn members_text(types: Types, id: StructTypeID, n: nat) -> Seq<char>
    decreases types.rank(Type::Struct(id)), 0nat, n,
{
    if n == 0 || !types.wf() || !types.valid(Type::Struct(id)) || n
        > types.structs()[id.0 as int].len() {
        Seq::empty()
    } else {
        members_text(types, id, (n - 1) as nat) + (if n > 1 {
            ", "@
        } else {
            Seq::empty()
        }) + type_text(types, types.structs()[id.0 as int][n - 1])
    }
}

/// What is printed, and the names that were given so far.
pub struct Page {
    pub m: ModuleView,
    pub types: Types,
    pub out: Seq<char>,
    pub regs: Seq<RegID>,
    pub blocks: Seq<BlockID>,
    pub vars: Seq<VarID>,
}

impl Page {
    /// This page with `s` after its text.
    pub open spec fn text(self, s: Seq<char>) -> Page {
        Page { out: self.out + s, ..self }
    }

    /// This page without names, as at the start of a function.
    pub open spec fn fresh(self) -> Page {
        Page { regs: Seq::empty(), blocks: Seq::empty(), vars: Seq::empty(), ..self }
    }

    /// The type `ty` is printed.
    pub open spec fn ty(self, ty: Type) -> Page {
        self.text(type_text(self.types, ty))
    }

    /// The register `r` is printed: a percent sign and its number in the
    /// function, which it gets now if it has none.
    pub open spec fn reg(self, r: RegID) -> Page {
        Page { regs: noted(self.regs, r), ..self }.text(
            "%"@ + nat_text(index_in(self.regs, r) as nat),
        )
    }

    /// The block `b` is printed: an at sign and its number in the
    /// function, which it gets now if it has none.
    pub open spec fn block(self, b: BlockID) -> Page {
        Page { blocks: noted(self.blocks, b), ..self }.text(
            "@"@ + nat_text(index_in(self.blocks, b) as nat),
        )
    }

    /// The variable `v` is printed: an exclamation mark and its number in
    /// the function, which it gets now if it has none.
    pub open spec fn var(self, v: VarID) -> Page {
        Page { vars: noted(self.vars, v), ..self }.text(
            "!"@ + nat_text(index_in(self.vars, v) as nat),
        )
    }

    /// The function `f` is printed: a dollar sign, its number in the
    /// module, a colon and its name.
    pub open spec fn func(self, f: FuncID) -> Page {
        self.text("$"@ + nat_text(f.0 as nat) + ":"@ + self.m.functions[f.0 as int].name@)
    }

    /// The constant `c` is printed.
    pub open spec fn constant(self, c: ConstValue) -> Page {
        match c {
            ConstValue::Poison(_) => self.text("poison"@),
            ConstValue::Unit => self.text("()"@),
            ConstValue::NullPtr => self.text("nullptr"@),
            ConstValue::Bool(b) => self.text(
                if b {
                    "true"@
                } else {
                    "false"@
                },
            ),
            ConstValue::Integer(v, _) => self.text(int_text(v as int)),
            ConstValue::SizeOf(t, _) => self.text("sizeof "@).ty(t),
        }
    }

    /// The operand `e` is printed.
    pub open spec fn expr(self, e: Expr) -> Page {
        match e {
            Expr::Register(r) => self.reg(r),
            Expr::Constant(c) => self.constant(c),
        }
    }

    /// The first `n` of the operands `es` are printed, with a comma and a
    /// blank between each two.
    pub open spec fn exprs(self, es: Seq<Expr>, n: nat) -> Page
        decreases n,
    {
        if n == 0 || n > es.len() {
            self
        } else {
            let before = self.exprs(es, (n - 1) as nat);
            (if n > 1 {
                before.text(", "@)
            } else {
                before
            }).expr(es[n - 1])
        }
    }

    /// The type of the operand `e`.
    pub open spec fn type_of(self, e: Expr) -> Type {
        match e {
            Expr::Register(r) => self.m.registers[r.0 as int].reg_type,
            Expr::Constant(c) => c.spec_expr_type(),
        }
    }

    /// The type of the register `r`.
    pub open spec fn reg_type(self, r: RegID) -> Type {
        self.m.registers[r.0 as int].reg_type
    }
}

/// Prints a module.
pub struct Printer<'a> {
    out: String,
    module: &'a Module,
    types: &'a Types,
    local_regs: Vec<RegID>,
    local_blocks: Vec<BlockID>,
    local_vars: Vec<VarID>,
}

impl<'a> View for Printer<'a> {
    type V = Page;

    closed spec fn view(&self) -> Page {
        Page {
            m: self.module@,
            types: *self.types,
            out: self.out@,
            regs: self.local_regs@,
            blocks: self.local_blocks@,
            vars: self.local_vars@,
        }
    }
}

/// The position of the first `x` in `s`, or the length of `s`.
fn find_reg(s: &Vec<RegID>, x: RegID) -> (r: usize)
    ensures
        r == index_in(s@, x),
        r <= s@.len(),
{
    let mut i: usize = 0;
    while i < s.len()
        invariant
            0 <= i <= s@.len(),
            index_in(s@.take(i as int), x) == i,
        decreases s@.len() - i,
    {
        proof {
            assert(s@.take(i + 1).drop_last() =~= s@.take(i as int));
        }
        if s[i] == x {
            proof {
                lemma_index_in_stays(s@, x, (i + 1) as int);
            }
            return i;
        }
        i += 1;
    }
    assert(s@.take(s@.len() as int) =~= s@);
    i
}

/// The position of the first `x` in `s`, or the length of `s`.
fn find_block(s: &Vec<BlockID>, x: BlockID) -> (r: usize)
    ensures
        r == index_in(s@, x),
        r <= s@.len(),
{
    let mut i: usize = 0;
    while i < s.len()
        invariant
            0 <= i <= s@.len(),
            index_in(s@.take(i as int), x) == i,
        decreases s@.len() - i,
    {
        proof {
            assert(s@.take(i + 1).drop_last() =~= s@.take(i as int));
        }
        if s[i] == x {
            proof {
                lemma_index_in_stays(s@, x, (i + 1) as int);
            }
            return i;
        }
        i += 1;
    }
    assert(s@.take(s@.len() as int) =~= s@);
    i
}

/// The position of the first `x` in `s`, or the length of `s`.
fn find_var(s: &Vec<VarID>, x: VarID) -> (r: usize)
    ensures
        r == index_in(s@, x),
        r <= s@.len(),
{
    let mut i: usize = 0;
    while i < s.len()
        invariant
            0 <= i <= s@.len(),
            index_in(s@.take(i as int), x) == i,
        decreases s@.len() - i,
    {
        proof {
            assert(s@.take(i + 1).drop_last() =~= s@.take(i as int));
        }
        if s[i] == x {
            proof {
                lemma_index_in_stays(s@, x, (i + 1) as int);
            }
            return i;
        }
        i += 1;
    }
    assert(s@.take(s@.len() as int) =~= s@);
    i
}

/// Where `x` is found among the first `n` items of `s`, it is found among
/// all of them.
pub proof fn lemma_index_in_stays<T>(s: Seq<T>, x: T, n: int)
    requires
        0 <= n <= s.len(),
        index_in(s.take(n), x) < n,
    ensures
        index_in(s, x) == index_in(s.take(n), x),
    decreases s.len() - n,
{
    if n < s.len() {
        assert(s.take(n + 1).drop_last() =~= s.take(n));
        lemma_index_in_stays(s, x, n + 1);
    } else {
        assert(s.take(n) =~= s);
    }
}

impl<'a> Printer<'a> {
    /// Module and types are in order.
    pub open spec fn wf(&self) -> bool {
        self@.m.wf() && self@.types.wf()
    }

    /// A printer for `module`, whose types are those of `types`. Nothing
    /// is printed yet.
    pub fn new(module: &'a Module, types: &'a Types) -> (r: Self)
        requires
            module.wf(),
            types.wf(),
        ensures
            r.wf(),
            r@.m == module@,
            r@.types == *types,
            r@.out == Seq::<char>::empty(),
            r@.regs == Seq::<RegID>::empty(),
            r@.blocks == Seq::<BlockID>::empty(),
            r@.vars == Seq::<VarID>::empty(),
    {
        Self {
            out: String::new(),
            module,
            types,
            local_regs: Vec::new(),
            local_blocks: Vec::new(),
            local_vars: Vec::new(),
        }
    }

    fn text(&mut self, s: &str)
        ensures
            final(self)@ == old(self)@.text(s@),
    {
        self.out.append(s);
    }

    fn number(&mut self, n: usize)
        ensures
            final(self)@ == old(self)@.text(nat_text(n as nat)),
    {
        push_nat(&mut self.out, n as u128);
    }

    /// Gives the register `reg` its number in the function, if it has
    /// none, and returns that number.
    fn make_reg_local(&mut self, reg: RegID) -> (r: usize)
        ensures
            r == index_in(old(self)@.regs, reg),
            final(self)@ == (Page { regs: noted(old(self)@.regs, reg), ..old(self)@ }),
    {
        let at = find_reg(&self.local_regs, reg);
        if at == self.local_regs.len() {
            self.local_regs.push(reg);
        }
        at
    }

    /// Gives the block `block` its number in the function, if it has
    /// none, and returns that number.
    fn make_block_local(&mut self, block: BlockID) -> (r: usize)
        ensures
            r == index_in(old(self)@.blocks, block),
            final(self)@ == (Page { blocks: noted(old(self)@.blocks, block), ..old(self)@ }),
    {
        let at = find_block(&self.local_blocks, block);
        if at == self.local_blocks.len() {
            self.local_blocks.push(block);
        }
        at
    }

    /// Gives the variable `var` its number in the function, if it has
    /// none, and returns that number.
    fn make_var_local(&mut self, var: VarID) -> (r: usize)
        ensures
            r == index_in(old(self)@.vars, var),
            final(self)@ == (Page { vars: noted(old(self)@.vars, var), ..old(self)@ }),
    {
        let at = find_var(&self.local_vars, var);
        if at == self.local_vars.len() {
            self.local_vars.push(var);
        }
        at
    }

    fn print_reg(&mut self, reg: RegID)
        ensures
            final(self)@ == old(self)@.reg(reg),
    {
        let n = self.make_reg_local(reg);
        self.text("%");
        self.number(n);
        assert(self@.out =~= old(self)@.out + ("%"@ + nat_text(n as nat)));
    }

    fn print_block_name(&mut self, block: BlockID)
        ensures
            final(self)@ == old(self)@.block(block),
    {
        let n = self.make_block_local(block);
        self.text("@");
        self.number(n);
        assert(self@.out =~= old(self)@.out + ("@"@ + nat_text(n as nat)));
    }

    fn print_var(&mut self, var: VarID)
        ensures
            final(self)@ == old(self)@.var(var),
    {
        let n = self.make_var_local(var);
        self.text("!");
        self.number(n);
        assert(self@.out =~= old(self)@.out + ("!"@ + nat_text(n as nat)));
    }

    fn print_func(&mut self, f: FuncID)
        requires
            f.0 < old(self)@.m.functions.len(),
        ensures
            final(self)@ == old(self)@.func(f),
    {
        let module: &Module = self.module;
        self.text("$");
        self.number(f.0);
        self.text(":");
        self.text(module.function(f).name());
        assert(self@.out =~= old(self)@.out + ("$"@ + nat_text(f.0 as nat) + ":"@
            + self@.m.functions[f.0 as int].name@));
    }

    /// Prints the type `t`.
    fn print_type(&mut self, t: Type)
        requires
            old(self).wf(),
        ensures
            final(self).wf(),
            final(self)@.m == old(self)@.m,
            final(self)@.types == old(self)@.types,
            final(self)@ == old(self)@.ty(t),
        decreases old(self)@.types.rank(t), 1nat,
    {
        let types: &Types = self.types;
        if !types.is_valid(t) {
            self.text("?");
            return ;
        }
        match t {
            Type::Unit => self.text("()"),
            Type::Bool => self.text("i1"),
            Type::Integer(bits) => {
                self.text("i");
                self.number(bits as usize);
                assert(self@.out =~= old(self)@.out + type_text(*types, t));
            },
            Type::Pointer => self.text("ptr"),
            Type::Array(id) => {
                let element = types.array(id).member();
                let length = types.array(id).length();
                self.text("[ ");
                self.print_type(element);
                self.text(" * ");
                push_nat(&mut self.out, length as u128);
                self.text(" ]");
                assert(self@.out =~= old(self)@.out + type_text(*types, t));
            },
            Type::Struct(id) => {
                self.text("{ ");
                self.print_members(id);
                self.text(" }");
                assert(self@.out =~= old(self)@.out + type_text(*types, t));
            },
        }
    }

    /// Prints the members of the struct type `id`.
    fn print_members(&mut self, id: StructTypeID)
        requires
            old(self).wf(),
            old(self)@.types.valid(Type::Struct(id)),
        ensures
            final(self).wf(),
            final(self)@.m == old(self)@.m,
            final(self)@.types == old(self)@.types,
            final(self)@ == old(self)@.text(
                members_text(
                    old(self)@.types,
                    id,
                    old(self)@.types.structs()[id.0 as int].len(),
                ),
            ),
        decreases old(self)@.types.rank(Type::Struct(id)), 0nat,
    {
        let types: &Types = self.types;
        let members = types.structure(id).members();
        let mut i: usize = 0;
        assert(self@.out =~= old(self)@.out + members_text(*types, id, 0));
        while i < members.len()
            invariant
                0 <= i <= members@.len(),
                self.wf(),
                *types == self@.types,
                types.valid(Type::Struct(id)),
                members@ == types.structs()[id.0 as int],
                self@ == old(self)@.text(members_text(*types, id, i as nat)),
            decreases members@.len() - i,
        {
            if i > 0 {
                self.text(", ");
            }
            self.print_type(members[i]);
            assert(self@.out =~= old(self)@.out + members_text(*types, id, (i + 1) as nat));
            i += 1;
        }
    }

    fn print_const_val(&mut self, val: &ConstValue)
        requires
            old(self).wf(),
        ensures
            final(self).wf(),
            final(self)@.m == old(self)@.m,
            final(self)@.types == old(self)@.types,
            final(self)@ == old(self)@.constant(*val),
    {
        match val {
            ConstValue::Poison(_) => self.text("poison"),
            ConstValue::Unit => self.text("()"),
            ConstValue::NullPtr => self.text("nullptr"),
            ConstValue::Bool(value) => {
                if *value {
                    self.text("true");
                } else {
                    self.text("false");
                }
            },
            ConstValue::Integer(value, _) => {
                push_int(&mut self.out, *value);
            },
            ConstValue::SizeOf(t, _) => {
                self.text("sizeof ");
                self.print_type(*t);
            },
        }
    }

    fn print_expr(&mut self, e: &Expr)
        requires
            old(self).wf(),
        ensures
            final(self).wf(),
            final(self)@.m == old(self)@.m,
            final(self)@.types == old(self)@.types,
            final(self)@ == old(self)@.expr(*e),
    {
        match e {
            Expr::Register(id) => self.print_reg(*id),
            Expr::Constant(c) => self.print_const_val(c),
        }
    }

    fn print_exprs(&mut self, es: &Vec<Expr>)
        requires
            old(self).wf(),
        ensures
            final(self).wf(),
            final(self)@.m == old(self)@.m,
            final(self)@.types == old(self)@.types,
            final(self)@ == old(self)@.exprs(es@, es@.len()),
    {
        let mut i: usize = 0;
        while i < es.len()
            invariant
                0 <= i <= es@.len(),
                self.wf(),
                self@.m == old(self)@.m,
                self@.types == old(self)@.types,
                self@ == old(self)@.exprs(es@, i as nat),
            decreases es@.len() - i,
        {
            if i > 0 {
                self.text(", ");
            }
            self.print_expr(&es[i]);
            i += 1;
        }
    }
}


impl Page {
    /// The word `volatile` and a blank are printed where `volatile` holds.
    pub open spec fn volatile(self, volatile: bool) -> Page {
        if volatile {
            self.text("volatile "@)
        } else {
            self
        }
    }

    /// The type of member number `member` of the struct type `id` is
    /// printed, or `?` where there is no such member.
    pub open spec fn member_ty(self, id: StructTypeID, member: u32) -> Page {
        if self.types.wf() && self.types.valid(Type::Struct(id)) && member
            < self.types.structs()[id.0 as int].len() {
            self.ty(self.types.structs()[id.0 as int][member as int])
        } else {
            self.text("?"@)
        }
    }

    /// Where a jump goes is printed: the block; with values, the block, a
    /// colon and the values, all in round brackets.
    pub open spec fn target(self, t: BlockTarget) -> Page {
        if t.parameters@.len() == 0 {
            self.block(t.block)
        } else {
            self.text("("@).block(t.block).text(": "@).exprs(
                t.parameters@,
                t.parameters@.len(),
            ).text(")"@)
        }
    }

    /// A copy: the target, its type and the value.
    pub open spec fn set(self, t: RegID, value: Expr) -> Page {
        self.reg(t).text(" = "@).ty(self.reg_type(t)).text(" "@).expr(value)
    }

    /// An operation on two values: the target, the operation, the type of the
    /// target and the operands.
    pub open spec fn binop(self, t: RegID, op: BinaryOp, a: Expr, b: Expr) -> Page {
        self.reg(t).text(" = "@).text(op.spec_mnemonic()).text(" "@).ty(self.reg_type(t)).text(" "@).expr(a).text(", "@).expr(b)
    }

    /// An operation on one value: the target, the operation, the type of the
    /// target and the operand.
    pub open spec fn unop(self, t: RegID, op: UnaryOp, a: Expr) -> Page {
        self.reg(t).text(" = "@).text(op.spec_mnemonic()).text(" "@).ty(self.reg_type(t)).text(" "@).expr(a)
    }

    /// A comparison: the target, the comparison, the type of the operands and
    /// the operands.
    pub open spec fn testop(self, t: RegID, op: TestOp, a: Expr, b: Expr) -> Page {
        self.reg(t).text(" = "@).text(op.spec_mnemonic()).text(" "@).ty(self.type_of(a)).text(" "@).expr(a).text(", "@).expr(b)
    }

    /// A struct built from its members.
    pub open spec fn make_struct(self, t: RegID, values: Seq<Expr>) -> Page {
        self.reg(t).text(" = struct { "@).exprs(values, values.len()).text(" }"@)
    }

    /// An array built from its elements.
    pub open spec fn make_array(self, t: RegID, values: Seq<Expr>) -> Page {
        self.reg(t).text(" = array [ "@).exprs(values, values.len()).text(" ]"@)
    }

    /// An array that holds one value a number of times.
    pub open spec fn make_short_array(self, t: RegID, value: Expr, length: u64) -> Page {
        self.reg(t).text(" = array [ "@).expr(value).text(" * "@).text(nat_text(length as nat)).text(" ]"@)
    }

    /// A choice: the target, the condition, the type of the values and the
    /// values.
    pub open spec fn select(self, t: RegID, c: Expr, x: Expr, y: Expr) -> Page {
        self.reg(t).text(" = select "@).expr(c).text(" "@).ty(self.type_of(x)).text(" "@).expr(x).text(", "@).expr(y)
    }

    /// An element of an array value.
    pub open spec fn get_element(self, t: RegID, array: Expr, index: Expr) -> Page {
        self.reg(t).text(" = getelement "@).ty(self.reg_type(t)).text(" "@).expr(array).text(", "@).expr(index)
    }

    /// The address of an element of an array in memory.
    pub open spec fn get_element_ptr(self, t: RegID, ptr: RegID, index: Expr, el_t: Type) -> Page {
        self.reg(t).text(" = getelementptr "@).ty(el_t).text(" "@).reg(ptr).text(", "@).expr(index)
    }

    /// A member of a struct value.
    pub open spec fn get_member(self, t: RegID, structure: Expr, member: u32) -> Page {
        self.reg(t).text(" = getmember "@).ty(self.reg_type(t)).text(" "@).expr(structure).text(", "@).text(nat_text(member as nat))
    }

    /// The address of a member of a struct in memory.
    pub open spec fn get_member_ptr(self, t: RegID, ptr: RegID, member: u32, struct_type: StructTypeID) -> Page {
        self.reg(t).text(" = getmemberptr "@).member_ty(struct_type, member).text(" "@).reg(ptr).text(", "@).text(nat_text(member as nat))
    }

    /// The address of a variable.
    pub open spec fn get_var_ptr(self, t: RegID, var: VarID) -> Page {
        self.reg(t).text(" = getvarptr "@).ty(self.m.variables[var.0 as int].var_type).text(" "@).var(var)
    }

    /// The address of a function.
    pub open spec fn get_func_ptr(self, t: RegID, func: FuncID) -> Page {
        self.reg(t).text(" = getfuncptr "@).func(func)
    }

    /// A read through a pointer.
    pub open spec fn load(self, t: RegID, ptr: RegID, volatile: bool) -> Page {
        self.reg(t).text(" = load "@).volatile(volatile).ty(self.reg_type(t)).text(" "@).reg(ptr)
    }

    /// A write through a pointer.
    pub open spec fn store(self, ptr: RegID, value: Expr, volatile: bool) -> Page {
        self.text("store "@).volatile(volatile).ty(self.type_of(value)).text(" "@).expr(value).text(" into "@).reg(ptr)
    }

    /// A jump.
    pub open spec fn jump(self, target: BlockTarget) -> Page {
        self.text("jump "@).target(target)
    }

    /// A branch: the condition, and on a line each the two ways on.
    pub open spec fn branch(self, c: Expr, yes: BlockTarget, no: BlockTarget) -> Page {
        self.text("branch "@).expr(c).text("\n      "@).target(yes).text("\n      "@).target(no)
    }

    /// A call of a function of the module.
    pub open spec fn call(self, t: RegID, func: FuncID, args: Seq<Expr>) -> Page {
        self.reg(t).text(" = call "@).ty(self.reg_type(t)).text(" "@).func(func).text(" ("@).exprs(args, args.len()).text(")"@)
    }

    /// A call through a pointer.
    pub open spec fn call_ptr(self, t: RegID, ptr: RegID, args: Seq<Expr>) -> Page {
        self.reg(t).text(" = call "@).ty(self.reg_type(t)).text(" "@).reg(ptr).text(" ("@).exprs(args, args.len()).text(")"@)
    }

    /// A request to the operating system.
    pub open spec fn syscall(self, t: RegID, number: Expr, args: Seq<Expr>) -> Page {
        self.reg(t).text(" = syscall "@).ty(self.reg_type(t)).text(" "@).expr(number).text(" ("@).exprs(args, args.len()).text(")"@)
    }

    /// A return: the type of the value and the value.
    pub open spec fn ret(self, value: Expr) -> Page {
        self.text("return "@).ty(self.type_of(value)).text(" "@).expr(value)
    }

    /// The instruction `instr` is printed.
    #[verifier::opaque]
    pub open spec fn instr(self, instr: Instruction) -> Page {
        match instr {
            Instruction::Nop => self.text("nop"@),
            Instruction::Assign(t, value) => self.set(t, value),
            Instruction::BinaryOp(t, op, a, b) => self.binop(t, op, a, b),
            Instruction::UnaryOp(t, op, a) => self.unop(t, op, a),
            Instruction::TestOp(t, op, a, b) => self.testop(t, op, a, b),
            Instruction::MakeStruct(t, values) => self.make_struct(t, values@),
            Instruction::MakeArray(t, values) => self.make_array(t, values@),
            Instruction::MakeShortArray(t, value, length) => self.make_short_array(
                t,
                value,
                length,
            ),
            Instruction::Select { target, condition, true_value, false_value } => self.select(
                target,
                condition,
                true_value,
                false_value,
            ),
            Instruction::GetElement { target, array, index } => self.get_element(
                target,
                array,
                index,
            ),
            Instruction::GetElementPtr {
                target,
                array_pointer,
                index,
                element_type,
            } => self.get_element_ptr(target, array_pointer, index, element_type),
            Instruction::GetMember { target, structure, member } => self.get_member(
                target,
                structure,
                member,
            ),
            Instruction::GetMemberPtr {
                target,
                struct_pointer,
                member,
                struct_type,
            } => self.get_member_ptr(target, struct_pointer, member, struct_type),
            Instruction::GetVarPointer(t, var) => self.get_var_ptr(t, var),
            Instruction::GetFunctionPointer(t, func) => self.get_func_ptr(t, func),
            Instruction::Load { target, pointer, volatile } => self.load(target, pointer, volatile),
            Instruction::Store { pointer, value, volatile } => self.store(pointer, value, volatile),
            Instruction::Jump(target) => self.jump(target),
            Instruction::Branch(c, yes, no) => self.branch(c, yes, no),
            Instruction::Call { target, function, args } => self.call(target, function, args@),
            Instruction::CallPtr { target, function_ptr, args, .. } => self.call_ptr(
                target,
                function_ptr,
                args@,
            ),
            Instruction::Syscall { target, number, args } => self.syscall(target, number, args@),
            Instruction::Return(value) => self.ret(value),
        }
    }

    /// The line of the instruction `instr` is printed: four blanks, the
    /// instruction, and the end of the line.
    pub open spec fn line(self, instr: Instruction) -> Page {
        self.text("    "@).instr(instr).text("\n"@)
    }

    /// The lines of the first `n` of the instructions `body` are printed.
    #[verifier::opaque]
    pub open spec fn lines(self, body: Seq<Instruction>, n: nat) -> Page
        decreases n,
    {
        if n == 0 || n > body.len() {
            self
        } else {
            self.lines(body, (n - 1) as nat).line(body[n - 1])
        }
    }

    /// The first `n` of the parameters `params` are printed, each as its
    /// type, a blank and the register, with a comma and a blank between
    /// each two.
    pub open spec fn params(self, params: Seq<RegID>, n: nat) -> Page
        decreases n,
    {
        if n == 0 || n > params.len() {
            self
        } else {
            let before = self.params(params, (n - 1) as nat);
            (if n > 1 {
                before.text(", "@)
            } else {
                before
            }).ty(self.reg_type(params[n - 1])).text(" "@).reg(params[n - 1])
        }
    }

    /// The block `b` is printed: two blanks, the block, its parameters in
    /// round brackets if it has any, a colon, and the lines of its
    /// instructions.
    #[verifier::opaque]
    pub open spec fn whole_block(self, b: BlockID) -> Page {
        let block = self.m.blocks[b.0 as int];
        let named = self.text("  "@).block(b);
        (if block.parameters@.len() > 0 {
            named.text("("@).params(block.parameters@, block.parameters@.len()).text(")"@)
        } else {
            named
        }).text(":\n"@).lines(block.body@, block.body@.len())
    }

    /// The first `n` of the blocks `order` are printed.
    #[verifier::opaque]
    pub open spec fn blocks_of(self, order: Seq<BlockID>, n: nat) -> Page
        decreases n,
    {
        if n == 0 || n > order.len() {
            self
        } else {
            self.blocks_of(order, (n - 1) as nat).whole_block(order[n - 1])
        }
    }

    /// The function `f` is printed, with names that count from zero: the
    /// word `fun`, the function, its parameters in round brackets, an
    /// arrow and the type of its result; then, if it has a body, its
    /// blocks in the order `order`.
    #[verifier::opaque]
    pub open spec fn function(self, f: FuncID, order: Seq<BlockID>) -> Page {
        let fun = self.m.functions[f.0 as int];
        let head = self.fresh().text("fun "@).func(f).text(" ("@).params(
            fun.parameter_registers@,
            fun.parameter_registers@.len(),
        ).text(") -> "@).ty(fun.signature.return_type).text("\n"@);
        if fun.definition is Some {
            head.blocks_of(order, order.len())
        } else {
            head
        }
    }

    /// The first `n` functions of the module are printed, each followed
    /// by an empty line.
    #[verifier::opaque]
    pub open spec fn functions(self, orders: Seq<Seq<BlockID>>, n: nat) -> Page
        decreases n,
    {
        if n == 0 || n > self.m.functions.len() {
            self
        } else {
            self.functions(orders, (n - 1) as nat).function(
                FuncID((n - 1) as usize),
                orders[n - 1],
            ).text("\n"@)
        }
    }
}

impl<'a> Printer<'a> {
    fn print_volatile(&mut self, volatile: bool)
        ensures
            final(self)@ == old(self)@.volatile(volatile),
    {
        if volatile {
            self.text("volatile ");
        }
    }

    fn print_member_type(&mut self, id: StructTypeID, member: u32)
        requires
            old(self).wf(),
        ensures
            final(self).wf(),
            final(self)@.m == old(self)@.m,
            final(self)@.types == old(self)@.types,
            final(self)@ == old(self)@.member_ty(id, member),
    {
        let types: &Types = self.types;
        if types.is_valid(Type::Struct(id)) {
            let members = types.structure(id).members();
            if (member as usize) < members.len() {
                self.print_type(members[member as usize]);
                return ;
            }
        }
        self.text("?");
    }

    fn print_block_target(&mut self, b: &BlockTarget)
        requires
            old(self).wf(),
        ensures
            final(self).wf(),
            final(self)@.m == old(self)@.m,
            final(self)@.types == old(self)@.types,
            final(self)@ == old(self)@.target(*b),
    {
        if b.parameters.len() == 0 {
            self.print_block_name(b.block);
        } else {
            self.text("(");
            self.print_block_name(b.block);
            self.text(": ");
            self.print_exprs(&b.parameters);
            self.text(")");
        }
    }

    fn print_set(&mut self, Ghost(f): Ghost<FuncID>, target: RegID, value: &Expr)
        requires
            old(self).wf(),
            old(self)@.m.instr_ok(f, Instruction::Assign(target, *value)),
        ensures
            final(self).wf(),
            final(self)@.m == old(self)@.m,
            final(self)@.types == old(self)@.types,
            final(self)@ == old(self)@.instr(Instruction::Assign(target, *value)),
    {
        proof {
            reveal(Page::instr);
            assert(self@.m.reg_in(target, f));
        }
        let module: &Module = self.module;
        self.print_reg(target);
        self.text(" = ");
        self.print_type(module.register(target).reg_type());
        self.text(" ");
        self.print_expr(value);
    }

    fn print_binop(
        &mut self,
        Ghost(f): Ghost<FuncID>,
        target: RegID,
        op: BinaryOp,
        a: &Expr,
        b: &Expr,
    )
        requires
            old(self).wf(),
            old(self)@.m.instr_ok(f, Instruction::BinaryOp(target, op, *a, *b)),
        ensures
            final(self).wf(),
            final(self)@.m == old(self)@.m,
            final(self)@.types == old(self)@.types,
            final(self)@ == old(self)@.instr(Instruction::BinaryOp(target, op, *a, *b)),
    {
        proof {
            reveal(Page::instr);
            assert(self@.m.reg_in(target, f));
        }
        let module: &Module = self.module;
        self.print_reg(target);
        self.text(" = ");
        self.text(op.mnemonic());
        self.text(" ");
        self.print_type(module.register(target).reg_type());
        self.text(" ");
        self.print_expr(a);
        self.text(", ");
        self.print_expr(b);
    }

    fn print_unop(&mut self, Ghost(f): Ghost<FuncID>, target: RegID, op: UnaryOp, a: &Expr)
        requires
            old(self).wf(),
            old(self)@.m.instr_ok(f, Instruction::UnaryOp(target, op, *a)),
        ensures
            final(self).wf(),
            final(self)@.m == old(self)@.m,
            final(self)@.types == old(self)@.types,
            final(self)@ == old(self)@.instr(Instruction::UnaryOp(target, op, *a)),
    {
        proof {
            reveal(Page::instr);
            assert(self@.m.reg_in(target, f));
        }
        let module: &Module = self.module;
        self.print_reg(target);
        self.text(" = ");
        self.text(op.mnemonic());
        self.text(" ");
        self.print_type(module.register(target).reg_type());
        self.text(" ");
        self.print_expr(a);
    }

    fn print_testop(
        &mut self,
        Ghost(f): Ghost<FuncID>,
        target: RegID,
        op: TestOp,
        a: &Expr,
        b: &Expr,
    )
        requires
            old(self).wf(),
            old(self)@.m.instr_ok(f, Instruction::TestOp(target, op, *a, *b)),
        ensures
            final(self).wf(),
            final(self)@.m == old(self)@.m,
            final(self)@.types == old(self)@.types,
            final(self)@ == old(self)@.instr(Instruction::TestOp(target, op, *a, *b)),
    {
        proof {
            reveal(Page::instr);
            assert(self@.m.expr_ok(f, (Instruction::TestOp(target, op, *a, *b)).operands()[0]));
        }
        let module: &Module = self.module;
        self.print_reg(target);
        self.text(" = ");
        self.text(op.mnemonic());
        self.text(" ");
        self.print_type(a.expr_type(module));
        self.text(" ");
        self.print_expr(a);
        self.text(", ");
        self.print_expr(b);
    }

    fn print_make_struct(&mut self, Ghost(f): Ghost<FuncID>, target: RegID, values: &Vec<Expr>)
        requires
            old(self).wf(),
            old(self)@.m.instr_ok(f, Instruction::MakeStruct(target, *values)),
        ensures
            final(self).wf(),
            final(self)@.m == old(self)@.m,
            final(self)@.types == old(self)@.types,
            final(self)@ == old(self)@.instr(Instruction::MakeStruct(target, *values)),
    {
        proof {
            reveal(Page::instr);
        }
        let module: &Module = self.module;
        self.print_reg(target);
        self.text(" = struct { ");
        self.print_exprs(values);
        self.text(" }");
    }

    fn print_make_array(&mut self, Ghost(f): Ghost<FuncID>, target: RegID, values: &Vec<Expr>)
        requires
            old(self).wf(),
            old(self)@.m.instr_ok(f, Instruction::MakeArray(target, *values)),
        ensures
            final(self).wf(),
            final(self)@.m == old(self)@.m,
            final(self)@.types == old(self)@.types,
            final(self)@ == old(self)@.instr(Instruction::MakeArray(target, *values)),
    {
        proof {
            reveal(Page::instr);
        }
        let module: &Module = self.module;
        self.print_reg(target);
        self.text(" = array [ ");
        self.print_exprs(values);
        self.text(" ]");
    }

    fn print_make_short_array(
        &mut self,
        Ghost(f): Ghost<FuncID>,
        target: RegID,
        value: &Expr,
        length: u64,
    )
        requires
            old(self).wf(),
            old(self)@.m.instr_ok(f, Instruction::MakeShortArray(target, *value, length)),
        ensures
            final(self).wf(),
            final(self)@.m == old(self)@.m,
            final(self)@.types == old(self)@.types,
            final(self)@ == old(self)@.instr(Instruction::MakeShortArray(target, *value, length)),
    {
        proof {
            reveal(Page::instr);
        }
        let module: &Module = self.module;
        self.print_reg(target);
        self.text(" = array [ ");
        self.print_expr(value);
        self.text(" * ");
        push_nat(&mut self.out, length as u128);
        self.text(" ]");
    }

    fn print_select(&mut self, Ghost(f): Ghost<FuncID>, target: RegID, c: &Expr, x: &Expr, y: &Expr)
        requires
            old(self).wf(),
            old(self)@.m.instr_ok(f, (Instruction::Select { target, condition: *c, true_value: *x, false_value: *y })),
        ensures
            final(self).wf(),
            final(self)@.m == old(self)@.m,
            final(self)@.types == old(self)@.types,
            final(self)@ == old(self)@.instr((Instruction::Select { target, condition: *c, true_value: *x, false_value: *y })),
    {
        proof {
            reveal(Page::instr);
            assert(self@.m.expr_ok(f, ((Instruction::Select { target, condition: *c, true_value: *x, false_value: *y })).operands()[1]));
        }
        let module: &Module = self.module;
        self.print_reg(target);
        self.text(" = select ");
        self.print_expr(c);
        self.text(" ");
        self.print_type(x.expr_type(module));
        self.text(" ");
        self.print_expr(x);
        self.text(", ");
        self.print_expr(y);
    }

    fn print_get_element(
        &mut self,
        Ghost(f): Ghost<FuncID>,
        target: RegID,
        array: &Expr,
        index: &Expr,
    )
        requires
            old(self).wf(),
            old(self)@.m.instr_ok(f, (Instruction::GetElement { target, array: *array, index: *index })),
        ensures
            final(self).wf(),
            final(self)@.m == old(self)@.m,
            final(self)@.types == old(self)@.types,
            final(self)@ == old(self)@.instr((Instruction::GetElement { target, array: *array, index: *index })),
    {
        proof {
            reveal(Page::instr);
            assert(self@.m.reg_in(target, f));
        }
        let module: &Module = self.module;
        self.print_reg(target);
        self.text(" = getelement ");
        self.print_type(module.register(target).reg_type());
        self.text(" ");
        self.print_expr(array);
        self.text(", ");
        self.print_expr(index);
    }

    fn print_get_element_ptr(
        &mut self,
        Ghost(f): Ghost<FuncID>,
        target: RegID,
        ptr: RegID,
        index: &Expr,
        el_t: Type,
    )
        requires
            old(self).wf(),
            old(self)@.m.instr_ok(f, (Instruction::GetElementPtr { target, array_pointer: ptr, index: *index, element_type: el_t })),
        ensures
            final(self).wf(),
            final(self)@.m == old(self)@.m,
            final(self)@.types == old(self)@.types,
            final(self)@ == old(self)@.instr((Instruction::GetElementPtr { target, array_pointer: ptr, index: *index, element_type: el_t })),
    {
        proof {
            reveal(Page::instr);
        }
        let module: &Module = self.module;
        self.print_reg(target);
        self.text(" = getelementptr ");
        self.print_type(el_t);
        self.text(" ");
        self.print_reg(ptr);
        self.text(", ");
        self.print_expr(index);
    }

    fn print_get_member(
        &mut self,
        Ghost(f): Ghost<FuncID>,
        target: RegID,
        structure: &Expr,
        member: u32,
    )
        requires
            old(self).wf(),
            old(self)@.m.instr_ok(f, (Instruction::GetMember { target, structure: *structure, member })),
        ensures
            final(self).wf(),
            final(self)@.m == old(self)@.m,
            final(self)@.types == old(self)@.types,
            final(self)@ == old(self)@.instr((Instruction::GetMember { target, structure: *structure, member })),
    {
        proof {
            reveal(Page::instr);
            assert(self@.m.reg_in(target, f));
        }
        let module: &Module = self.module;
        self.print_reg(target);
        self.text(" = getmember ");
        self.print_type(module.register(target).reg_type());
        self.text(" ");
        self.print_expr(structure);
        self.text(", ");
        self.number(member as usize);
    }

    fn print_get_member_ptr(
        &mut self,
        Ghost(f): Ghost<FuncID>,
        target: RegID,
        ptr: RegID,
        member: u32,
        struct_type: StructTypeID,
    )
        requires
            old(self).wf(),
            old(self)@.m.instr_ok(f, (Instruction::GetMemberPtr { target, struct_pointer: ptr, member, struct_type })),
        ensures
            final(self).wf(),
            final(self)@.m == old(self)@.m,
            final(self)@.types == old(self)@.types,
            final(self)@ == old(self)@.instr((Instruction::GetMemberPtr { target, struct_pointer: ptr, member, struct_type })),
    {
        proof {
            reveal(Page::instr);
        }
        let module: &Module = self.module;
        self.print_reg(target);
        self.text(" = getmemberptr ");
        self.print_member_type(struct_type, member);
        self.text(" ");
        self.print_reg(ptr);
        self.text(", ");
        self.number(member as usize);
    }

    fn print_get_var_ptr(&mut self, Ghost(f): Ghost<FuncID>, target: RegID, var: VarID)
        requires
            old(self).wf(),
            old(self)@.m.instr_ok(f, Instruction::GetVarPointer(target, var)),
        ensures
            final(self).wf(),
            final(self)@.m == old(self)@.m,
            final(self)@.types == old(self)@.types,
            final(self)@ == old(self)@.instr(Instruction::GetVarPointer(target, var)),
    {
        proof {
            reveal(Page::instr);
        }
        let module: &Module = self.module;
        self.print_reg(target);
        self.text(" = getvarptr ");
        self.print_type(module.variable(var).var_type());
        self.text(" ");
        self.print_var(var);
    }

    fn print_get_func_ptr(&mut self, Ghost(f): Ghost<FuncID>, target: RegID, func: FuncID)
        requires
            old(self).wf(),
            old(self)@.m.instr_ok(f, Instruction::GetFunctionPointer(target, func)),
        ensures
            final(self).wf(),
            final(self)@.m == old(self)@.m,
            final(self)@.types == old(self)@.types,
            final(self)@ == old(self)@.instr(Instruction::GetFunctionPointer(target, func)),
    {
        proof {
            reveal(Page::instr);
        }
        let module: &Module = self.module;
        self.print_reg(target);
        self.text(" = getfuncptr ");
        self.print_func(func);
    }

    fn print_load(&mut self, Ghost(f): Ghost<FuncID>, target: RegID, ptr: RegID, volatile: bool)
        requires
            old(self).wf(),
            old(self)@.m.instr_ok(f, (Instruction::Load { target, pointer: ptr, volatile })),
        ensures
            final(self).wf(),
            final(self)@.m == old(self)@.m,
            final(self)@.types == old(self)@.types,
            final(self)@ == old(self)@.instr((Instruction::Load { target, pointer: ptr, volatile })),
    {
        proof {
            reveal(Page::instr);
            assert(self@.m.reg_in(target, f));
        }
        let module: &Module = self.module;
        self.print_reg(target);
        self.text(" = load ");
        self.print_volatile(volatile);
        self.print_type(module.register(target).reg_type());
        self.text(" ");
        self.print_reg(ptr);
    }

    fn print_store(&mut self, Ghost(f): Ghost<FuncID>, ptr: RegID, value: &Expr, volatile: bool)
        requires
            old(self).wf(),
            old(self)@.m.instr_ok(f, (Instruction::Store { pointer: ptr, value: *value, volatile })),
        ensures
            final(self).wf(),
            final(self)@.m == old(self)@.m,
            final(self)@.types == old(self)@.types,
            final(self)@ == old(self)@.instr((Instruction::Store { pointer: ptr, value: *value, volatile })),
    {
        proof {
            reveal(Page::instr);
            assert(self@.m.expr_ok(f, ((Instruction::Store { pointer: ptr, value: *value, volatile })).operands()[1]));
        }
        let module: &Module = self.module;
        self.text("store ");
        self.print_volatile(volatile);
        self.print_type(value.expr_type(module));
        self.text(" ");
        self.print_expr(value);
        self.text(" into ");
        self.print_reg(ptr);
    }

    fn print_jump(&mut self, Ghost(f): Ghost<FuncID>, target: &BlockTarget)
        requires
            old(self).wf(),
            old(self)@.m.instr_ok(f, Instruction::Jump(*target)),
        ensures
            final(self).wf(),
            final(self)@.m == old(self)@.m,
            final(self)@.types == old(self)@.types,
            final(self)@ == old(self)@.instr(Instruction::Jump(*target)),
    {
        proof {
            reveal(Page::instr);
        }
        let module: &Module = self.module;
        self.text("jump ");
        self.print_block_target(target);
    }

    fn print_branch(
        &mut self,
        Ghost(f): Ghost<FuncID>,
        c: &Expr,
        yes: &BlockTarget,
        no: &BlockTarget,
    )
        requires
            old(self).wf(),
            old(self)@.m.instr_ok(f, Instruction::Branch(*c, *yes, *no)),
        ensures
            final(self).wf(),
            final(self)@.m == old(self)@.m,
            final(self)@.types == old(self)@.types,
            final(self)@ == old(self)@.instr(Instruction::Branch(*c, *yes, *no)),
    {
        proof {
            reveal(Page::instr);
        }
        let module: &Module = self.module;
        self.text("branch ");
        self.print_expr(c);
        self.text("\n      ");
        self.print_block_target(yes);
        self.text("\n      ");
        self.print_block_target(no);
    }

    fn print_call(&mut self, Ghost(f): Ghost<FuncID>, target: RegID, func: FuncID, args: &Vec<Expr>)
        requires
            old(self).wf(),
            old(self)@.m.instr_ok(f, (Instruction::Call { target, function: func, args: *args })),
        ensures
            final(self).wf(),
            final(self)@.m == old(self)@.m,
            final(self)@.types == old(self)@.types,
            final(self)@ == old(self)@.instr((Instruction::Call { target, function: func, args: *args })),
    {
        proof {
            reveal(Page::instr);
            assert(self@.m.reg_in(target, f));
        }
        let module: &Module = self.module;
        self.print_reg(target);
        self.text(" = call ");
        self.print_type(module.register(target).reg_type());
        self.text(" ");
        self.print_func(func);
        self.text(" (");
        self.print_exprs(args);
        self.text(")");
    }

    fn print_call_ptr(
        &mut self,
        Ghost(f): Ghost<FuncID>,
        target: RegID,
        ptr: RegID,
        args: &Vec<Expr>,
        signature: &crate::module::function::FunctionSignature,
    )
        requires
            old(self).wf(),
            old(self)@.m.instr_ok(f, (Instruction::CallPtr { target, function_ptr: ptr, args: *args, signature: *signature })),
        ensures
            final(self).wf(),
            final(self)@.m == old(self)@.m,
            final(self)@.types == old(self)@.types,
            final(self)@ == old(self)@.instr((Instruction::CallPtr { target, function_ptr: ptr, args: *args, signature: *signature })),
    {
        proof {
            reveal(Page::instr);
            assert(self@.m.reg_in(target, f));
        }
        let module: &Module = self.module;
        self.print_reg(target);
        self.text(" = call ");
        self.print_type(module.register(target).reg_type());
        self.text(" ");
        self.print_reg(ptr);
        self.text(" (");
        self.print_exprs(args);
        self.text(")");
    }

    fn print_syscall(
        &mut self,
        Ghost(f): Ghost<FuncID>,
        target: RegID,
        number: &Expr,
        args: &Vec<Expr>,
    )
        requires
            old(self).wf(),
            old(self)@.m.instr_ok(f, (Instruction::Syscall { target, number: *number, args: *args })),
        ensures
            final(self).wf(),
            final(self)@.m == old(self)@.m,
            final(self)@.types == old(self)@.types,
            final(self)@ == old(self)@.instr((Instruction::Syscall { target, number: *number, args: *args })),
    {
        proof {
            reveal(Page::instr);
            assert(self@.m.reg_in(target, f));
        }
        let module: &Module = self.module;
        self.print_reg(target);
        self.text(" = syscall ");
        self.print_type(module.register(target).reg_type());
        self.text(" ");
        self.print_expr(number);
        self.text(" (");
        self.print_exprs(args);
        self.text(")");
    }

    fn print_return(&mut self, Ghost(f): Ghost<FuncID>, value: &Expr)
        requires
            old(self).wf(),
            old(self)@.m.instr_ok(f, Instruction::Return(*value)),
        ensures
            final(self).wf(),
            final(self)@.m == old(self)@.m,
            final(self)@.types == old(self)@.types,
            final(self)@ == old(self)@.instr(Instruction::Return(*value)),
    {
        proof {
            reveal(Page::instr);
            assert(self@.m.expr_ok(f, (Instruction::Return(*value)).operands()[0]));
        }
        let module: &Module = self.module;
        self.text("return ");
        self.print_type(value.expr_type(module));
        self.text(" ");
        self.print_expr(value);
    }

    /// Prints the instruction `inst`, which may stand in the function `f`.
    fn print_instruction(&mut self, Ghost(f): Ghost<FuncID>, inst: &Instruction)
        requires
            old(self).wf(),
            old(self)@.m.instr_ok(f, *inst),
        ensures
            final(self).wf(),
            final(self)@.m == old(self)@.m,
            final(self)@.types == old(self)@.types,
            final(self)@ == old(self)@.line(*inst),
    {
        self.text("    ");
        match inst {
            Instruction::Nop => {
                proof {
                    reveal(Page::instr);
                }
                self.text("nop");
            },
            Instruction::Assign(t, val) => self.print_set(Ghost(f), *t, val),
            Instruction::BinaryOp(t, op, a, b) => self.print_binop(Ghost(f), *t, *op, a, b),
            Instruction::UnaryOp(t, op, a) => self.print_unop(Ghost(f), *t, *op, a),
            Instruction::TestOp(t, op, a, b) => self.print_testop(Ghost(f), *t, *op, a, b),
            Instruction::MakeStruct(t, values) => self.print_make_struct(Ghost(f), *t, values),
            Instruction::MakeArray(t, values) => self.print_make_array(Ghost(f), *t, values),
            Instruction::MakeShortArray(t, value, length) => self.print_make_short_array(
                Ghost(f),
                *t,
                value,
                *length,
            ),
            Instruction::Select {
                target,
                condition,
                true_value,
                false_value,
            } => self.print_select(Ghost(f), *target, condition, true_value, false_value),
            Instruction::GetElement { target, array, index } => self.print_get_element(
                Ghost(f),
                *target,
                array,
                index,
            ),
            Instruction::GetElementPtr {
                target,
                array_pointer,
                index,
                element_type,
            } => self.print_get_element_ptr(Ghost(f), *target, *array_pointer, index, *element_type),
            Instruction::GetMember { target, structure, member } => self.print_get_member(
                Ghost(f),
                *target,
                structure,
                *member,
            ),
            Instruction::GetMemberPtr {
                target,
                struct_pointer,
                member,
                struct_type,
            } => self.print_get_member_ptr(
                Ghost(f),
                *target,
                *struct_pointer,
                *member,
                *struct_type,
            ),
            Instruction::GetVarPointer(target, var) => self.print_get_var_ptr(
                Ghost(f),
                *target,
                *var,
            ),
            Instruction::GetFunctionPointer(target, func) => self.print_get_func_ptr(
                Ghost(f),
                *target,
                *func,
            ),
            Instruction::Load { target, pointer, volatile } => self.print_load(
                Ghost(f),
                *target,
                *pointer,
                *volatile,
            ),
            Instruction::Store { pointer, value, volatile } => self.print_store(
                Ghost(f),
                *pointer,
                value,
                *volatile,
            ),
            Instruction::Jump(block) => self.print_jump(Ghost(f), block),
            Instruction::Branch(c, t, e) => self.print_branch(Ghost(f), c, t, e),
            Instruction::Call { target, function, args } => self.print_call(
                Ghost(f),
                *target,
                *function,
                args,
            ),
            Instruction::CallPtr { target, function_ptr, args, signature } => self.print_call_ptr(
                Ghost(f),
                *target,
                *function_ptr,
                args,
                signature,
            ),
            Instruction::Syscall { target, number, args } => self.print_syscall(
                Ghost(f),
                *target,
                number,
                args,
            ),
            Instruction::Return(value) => self.print_return(Ghost(f), value),
        }
        self.text("\n");
    }
}


impl<'a> Printer<'a> {
    fn print_params(&mut self, params: &Vec<RegID>)
        requires
            old(self).wf(),
            forall|k: int|
                0 <= k < params@.len() ==> (#[trigger] params@[k]).0 < old(self)@.m.registers.len(),
        ensures
            final(self).wf(),
            final(self)@.m == old(self)@.m,
            final(self)@.types == old(self)@.types,
            final(self)@ == old(self)@.params(params@, params@.len()),
    {
        let module: &Module = self.module;
        let mut i: usize = 0;
        while i < params.len()
            invariant
                0 <= i <= params@.len(),
                self.wf(),
                module@ == self@.m,
                self@.m == old(self)@.m,
                self@.types == old(self)@.types,
                forall|k: int|
                    0 <= k < params@.len() ==> (#[trigger] params@[k]).0 < self@.m.registers.len(),
                self@ == old(self)@.params(params@, i as nat),
            decreases params@.len() - i,
        {
            if i > 0 {
                self.text(", ");
            }
            assert(params@[i as int].0 < self@.m.registers.len());
            self.print_type(module.register(params[i]).reg_type());
            self.text(" ");
            self.print_reg(params[i]);
            i += 1;
        }
    }

    fn print_body(&mut self, Ghost(f): Ghost<FuncID>, body: &Vec<Instruction>)
        requires
            old(self).wf(),
            forall|k: int| 0 <= k < body@.len() ==> old(self)@.m.instr_ok(f, #[trigger] body@[k]),
        ensures
            final(self).wf(),
            final(self)@.m == old(self)@.m,
            final(self)@.types == old(self)@.types,
            final(self)@ == old(self)@.lines(body@, body@.len()),
    {
        proof {
            reveal_with_fuel(Page::lines, 2);
        }
        let mut i: usize = 0;
        while i < body.len()
            invariant
                0 <= i <= body@.len(),
                self.wf(),
                self@.m == old(self)@.m,
                self@.types == old(self)@.types,
                forall|k: int| 0 <= k < body@.len() ==> self@.m.instr_ok(f, #[trigger] body@[k]),
                self@ == old(self)@.lines(body@, i as nat),
            decreases body@.len() - i,
        {
            proof {
                reveal_with_fuel(Page::lines, 2);
            }
            self.print_instruction(Ghost(f), &body[i]);
            i += 1;
        }
    }

    /// Prints the block `bid`.
    fn print_block(&mut self, bid: BlockID)
        requires
            old(self).wf(),
            bid.0 < old(self)@.m.blocks.len(),
        ensures
            final(self).wf(),
            final(self)@.m == old(self)@.m,
            final(self)@.types == old(self)@.types,
            final(self)@ == old(self)@.whole_block(bid),
    {
        proof {
            reveal(Page::whole_block);
        }
        let module: &Module = self.module;
        let block = module.block(bid);
        assert(self@.m.block_wf(bid.0 as int));
        self.text("  ");
        self.print_block_name(bid);
        if block.parameters().len() > 0 {
            self.text("(");
            assert forall|k: int| 0 <= k < block.parameters@.len() implies (#[trigger] block.parameters@[k]).0
                < self@.m.registers.len() by {
                assert(self@.m.reg_in(block.parameters@[k], block.function));
            }
            self.print_params(block.parameters());
            self.text(")");
        }
        self.text(":\n");
        self.print_body(Ghost(block.function), block.body());
    }

    /// Prints the function `fid`: its head and, if it has a body, the
    /// blocks that can be reached from its entry, each once.
    fn print_function(&mut self, fid: FuncID) -> (order: Ghost<Seq<BlockID>>)
        requires
            old(self).wf(),
            fid.0 < old(self)@.m.functions.len(),
        ensures
            final(self).wf(),
            final(self)@.m == old(self)@.m,
            final(self)@.types == old(self)@.types,
            old(self)@.m.functions[fid.0 as int].definition is Some ==> is_schedule(
                old(self)@.m,
                entry_of(old(self)@.m, fid.0 as int),
                order@,
            ),
            final(self)@ == old(self)@.function(fid, order@),
    {
        proof {
            reveal(Page::function);
            reveal_with_fuel(Page::blocks_of, 2);
        }
        self.local_regs.clear();
        self.local_blocks.clear();
        self.local_vars.clear();
        assert(self@ == old(self)@.fresh());
        let module: &Module = self.module;
        let func = module.function(fid);
        assert(self@.m.function_wf(fid.0 as int));
        self.text("fun ");
        self.print_func(fid);
        self.text(" (");
        assert forall|k: int| 0 <= k < func.parameter_registers@.len() implies (#[trigger] func.parameter_registers@[k]).0
            < self@.m.registers.len() by {
            assert(self@.m.reg_in(func.parameter_registers@[k], func.id));
        }
        self.print_params(func.parameter_registers());
        self.text(") -> ");
        self.print_type(func.return_type());
        self.text("\n");
        match func.entry_block() {
            Some(entry) => {
                let order = reachable_blocks(module, entry);
                let ghost head = self@;
                let mut i: usize = 0;
                while i < order.len()
                    invariant
                        0 <= i <= order@.len(),
                        self.wf(),
                        module@ == self@.m,
                        self@.m == old(self)@.m,
                        self@.types == old(self)@.types,
                        forall|k: int|
                            0 <= k < order@.len() ==> (#[trigger] order@[k]).0
                                < self@.m.blocks.len(),
                        self@ == head.blocks_of(order@, i as nat),
                    decreases order@.len() - i,
                {
                    proof {
                        reveal_with_fuel(Page::blocks_of, 2);
                    }
                    self.print_block(order[i]);
                    i += 1;
                }
                Ghost(order@)
            },
            None => Ghost(Seq::empty()),
        }
    }

    /// Prints the module: each function, followed by an empty line.
    ///
    /// The blocks of a function come in some order in which each block
    /// that can be reached from the entry stands once and no other block
    /// does.
    pub fn pretty_print(&mut self)
        requires
            old(self).wf(),
        ensures
            final(self).wf(),
            final(self)@.m == old(self)@.m,
            final(self)@.types == old(self)@.types,
            exists|orders: Seq<Seq<BlockID>>|
                schedules(old(self)@.m, orders) && final(self)@ == #[trigger] old(self)@.functions(orders, old(self)@.m.functions.len()),
    {
        proof {
            reveal_with_fuel(Page::functions, 2);
        }
        let module: &Module = self.module;
        let n = module.function_count();
        let ghost mut orders: Seq<Seq<BlockID>> = Seq::empty();
        let mut f: usize = 0;
        while f < n
            invariant
                0 <= f <= n,
                n == self@.m.functions.len(),
                self.wf(),
                module@ == self@.m,
                self@.m == old(self)@.m,
                self@.types == old(self)@.types,
                orders.len() == f,
                forall|g: int|
                    0 <= g < f && self@.m.functions[g].definition is Some ==> is_schedule(
                        self@.m,
                        entry_of(self@.m, g),
                        #[trigger] orders[g],
                    ),
                self@ == old(self)@.functions(orders, f as nat),
            decreases n - f,
        {
            let ghost before = orders;
            let order = self.print_function(FuncID(f));
            self.text("\n");
            proof {
                reveal_with_fuel(Page::functions, 2);
                orders = orders.push(order@);
                lemma_functions_orders(old(self)@, before, orders, f as nat);
            }
            f += 1;
        }
    }

    /// Hands out the text that was printed.
    pub fn finish(self) -> (r: String)
        ensures
            r@ == self@.out,
    {
        self.out
    }
}

/// The text of the first `n` functions is the same whatever is said of the
/// order of the blocks of later functions.
pub proof fn lemma_functions_orders(
    page: Page,
    first: Seq<Seq<BlockID>>,
    second: Seq<Seq<BlockID>>,
    n: nat,
)
    requires
        n <= first.len(),
        n <= second.len(),
        forall|i: int| 0 <= i < n ==> first[i] == second[i],
    ensures
        page.functions(first, n) == page.functions(second, n),
    decreases n,
{
    reveal_with_fuel(Page::functions, 2);
    if n > 0 && n <= page.m.functions.len() {
        lemma_functions_orders(page, first, second, (n - 1) as nat);
    }
}

} // verus!
