//! The type system: primitive types, interned composite types and their
//! memory layout.

use crate::target::Target;
use crate::util::dedup_list::{DedupItem, DedupList};
use vstd::prelude::*;

verus! {

/// The identifier of an interned array type.
#[derive(Copy, Clone, Debug, PartialEq, Eq, Hash, Structural)]
pub struct ArrTypeID(pub usize);

/// The identifier of an interned struct type.
#[derive(Copy, Clone, Debug, PartialEq, Eq, Hash, Structural)]
pub struct StructTypeID(pub usize);

/// The integer widths that the machine handles natively.
#[derive(Copy, Clone, Debug, PartialEq, Eq, Hash, Structural)]
pub enum IntSize {
    Byte,
    Short,
    Int,
    Long,
}

impl IntSize {
    /// The width in bytes.
    pub open spec fn spec_bytes(self) -> u8 {
        match self {
            IntSize::Byte => 1,
            IntSize::Short => 2,
            IntSize::Int => 4,
            IntSize::Long => 8,
        }
    }

    /// The width in bits.
    pub open spec fn spec_bits(self) -> u8 {
        match self {
            IntSize::Byte => 8,
            IntSize::Short => 16,
            IntSize::Int => 32,
            IntSize::Long => 64,
        }
    }

    /// The width in bits.
    #[verifier::when_used_as_spec(spec_bits)]
    pub fn bits(self) -> (r: u8)
        ensures
            r == self.spec_bits(),
            r == 8 * self.spec_bytes(),
    {
        self.bytes() * 8
    }

    /// The width in bytes.
    #[verifier::when_used_as_spec(spec_bytes)]
    pub fn bytes(self) -> (r: u8)
        ensures
            r == self.spec_bytes(),
    {
        match self {
            IntSize::Byte => 1,
            IntSize::Short => 2,
            IntSize::Int => 4,
            IntSize::Long => 8,
        }
    }

    /// The native size that is `bits` wide, if there is one.
    pub fn from_bits(bits: u16) -> (r: Option<IntSize>)
        ensures
            match r {
                Some(s) => s.spec_bits() == bits,
                None => bits != 8 && bits != 16 && bits != 32 && bits != 64,
            },
    {
        if bits == 8 {
            Some(IntSize::Byte)
        } else if bits == 16 {
            Some(IntSize::Short)
        } else if bits == 32 {
            Some(IntSize::Int)
        } else if bits == 64 {
            Some(IntSize::Long)
        } else {
            None
        }
    }
}

/// The type of a value.
///
/// Primitive types are compared by what they are, composite types by their
/// identifier in the `Types` store that interned them. The width of an
/// integer is given in bits and lies between 1 and 256.
#[derive(Copy, Clone, Debug, PartialEq, Eq, Hash, Structural)]
pub enum Type {
    Unit,
    Bool,
    Integer(u16),
    Pointer,
    Array(ArrTypeID),
    Struct(StructTypeID),
}

impl Type {
    /// Whether this is an integer type.
    pub fn is_integer(&self) -> (r: bool)
        ensures
            r == (*self is Integer),
    {
        match self {
            Type::Integer(_) => true,
            _ => false,
        }
    }

    /// Whether this is the pointer type.
    pub fn is_pointer(&self) -> (r: bool)
        ensures
            r == (*self is Pointer),
    {
        match self {
            Type::Pointer => true,
            _ => false,
        }
    }

    /// The integer type of a native size.
    pub open spec fn of_size(size: IntSize) -> Type {
        Type::Integer(size.spec_bits() as u16)
    }

    /// The integer type that is `bits` wide, where such a type exists.
    pub fn integer(bits: u16) -> (r: Option<Type>)
        ensures
            r == if 1 <= bits <= 256 {
                Some(Type::Integer(bits))
            } else {
                None
            },
    {
        if 1 <= bits && bits <= 256 {
            Some(Type::Integer(bits))
        } else {
            None
        }
    }
}

impl From<IntSize> for Type {
    fn from(value: IntSize) -> (r: Type) {
        Type::Integer(value.bits() as u16)
    }
}

impl vstd::std_specs::convert::FromSpecImpl<IntSize> for Type {
    open spec fn obeys_from_spec() -> bool {
        true
    }

    open spec fn from_spec(value: IntSize) -> Type {
        Type::of_size(value)
    }
}

impl From<ArrTypeID> for Type {
    fn from(value: ArrTypeID) -> (r: Type) {
        Type::Array(value)
    }
}

impl vstd::std_specs::convert::FromSpecImpl<ArrTypeID> for Type {
    open spec fn obeys_from_spec() -> bool {
        true
    }

    open spec fn from_spec(value: ArrTypeID) -> Type {
        Type::Array(value)
    }
}

impl From<StructTypeID> for Type {
    fn from(value: StructTypeID) -> (r: Type) {
        Type::Struct(value)
    }
}

impl vstd::std_specs::convert::FromSpecImpl<StructTypeID> for Type {
    open spec fn obeys_from_spec() -> bool {
        true
    }

    open spec fn from_spec(value: StructTypeID) -> Type {
        Type::Struct(value)
    }
}

/// An array type: `length` elements of type `member`.
pub struct ArrayType {
    pub id: ArrTypeID,
    pub member: Type,
    pub length: u64,
}

impl ArrayType {
    pub(crate) fn new(id: usize, member: Type, length: u64) -> (r: Self)
        ensures
            r.id == ArrTypeID(id),
            r.member == member,
            r.length == length,
    {
        Self { id: ArrTypeID(id), member, length }
    }

    /// The identifier under which the type is interned.
    pub fn id(&self) -> (r: ArrTypeID)
        ensures
            r == self.id,
    {
        self.id
    }

    /// The type of the elements.
    pub fn member(&self) -> (r: Type)
        ensures
            r == self.member,
    {
        self.member
    }

    /// The number of elements.
    pub fn length(&self) -> (r: u64)
        ensures
            r == self.length,
    {
        self.length
    }
}

impl DedupItem for ArrayType {
    type Content = (Type, u64);

    open spec fn content(&self) -> (Type, u64) {
        (self.member, self.length)
    }

    fn is_equivalent_to(&self, other: &Self) -> (r: bool) {
        self.member == other.member && self.length == other.length
    }
}

/// A struct type: its members in declaration order.
pub struct StructType {
    pub id: StructTypeID,
    pub members: Vec<Type>,
}

impl StructType {
    pub(crate) fn new(id: StructTypeID, members: Vec<Type>) -> (r: Self)
        ensures
            r.id == id,
            r.members == members,
    {
        Self { id, members }
    }

    /// The identifier under which the type is interned.
    pub fn id(&self) -> (r: StructTypeID)
        ensures
            r == self.id,
    {
        self.id
    }

    /// The types of the members, in declaration order.
    pub fn members(&self) -> (r: &Vec<Type>)
        ensures
            r == &self.members,
    {
        &self.members
    }
}

impl DedupItem for StructType {
    type Content = Seq<Type>;

    open spec fn content(&self) -> Seq<Type> {
        self.members@
    }

    fn is_equivalent_to(&self, other: &Self) -> (r: bool) {
        if self.members.len() != other.members.len() {
            return false;
        }
        let mut i: usize = 0;
        while i < self.members.len()
            invariant
                0 <= i <= self.members@.len(),
                self.members@.len() == other.members@.len(),
                forall|k: int| 0 <= k < i ==> self.members@[k] == other.members@[k],
            decreases self.members@.len() - i,
        {
            if self.members[i] != other.members[i] {
                return false;
            }
            i += 1;
        }
        assert(self.members@ =~= other.members@);
        true
    }
}

/// The number of bytes that hold an integer of `bits` bits.
pub open spec fn int_bytes(bits: u16) -> nat {
    ((bits as nat) + 7) / 8
}

/// The least multiple of `a` that is not below `x`.
pub open spec fn align_up(x: nat, a: nat) -> nat {
    if a == 0 || x % a == 0 {
        x
    } else {
        (x + a - x % a) as nat
    }
}

/// `align_up(x, a)` is a multiple of `a` and lies in `[x, x + a)`.
pub proof fn lemma_align_up(x: nat, a: nat)
    requires
        a > 0,
    ensures
        align_up(x, a) % a == 0,
        x <= align_up(x, a) < x + a,
{
    let xi = x as int;
    let ai = a as int;
    let r = xi % ai;
    let q = xi / ai;
    assert(xi == ai * q + r && 0 <= r < ai) by {
        vstd::arithmetic::div_mod::lemma_fundamental_div_mod(xi, ai);
        vstd::arithmetic::div_mod::lemma_mod_bound(xi, ai);
    }
    let up = align_up(x, a) as int;
    if r != 0 {
        assert(up == (q + 1) * ai) by (nonlinear_arith)
            requires
                xi == ai * q + r,
                up == xi + ai - r,
        ;
        assert(((q + 1) * ai) % ai == 0) by {
            vstd::arithmetic::div_mod::lemma_mod_multiples_basic(q + 1, ai);
        }
    }
}

/// No multiple of `a` lies between `x` and `align_up(x, a)`.
pub proof fn lemma_align_up_least(x: nat, a: nat, y: nat)
    requires
        a > 0,
        x <= y,
        y % a == 0,
    ensures
        align_up(x, a) <= y,
{
    let xi = x as int;
    let ai = a as int;
    let yi = y as int;
    let r = xi % ai;
    let q = xi / ai;
    let k = yi / ai;
    assert(xi == ai * q + r && 0 <= r < ai) by {
        vstd::arithmetic::div_mod::lemma_fundamental_div_mod(xi, ai);
        vstd::arithmetic::div_mod::lemma_mod_bound(xi, ai);
    }
    assert(yi == ai * k) by {
        vstd::arithmetic::div_mod::lemma_fundamental_div_mod(yi, ai);
    }
    if r != 0 {
        assert(k > q) by (nonlinear_arith)
            requires
                ai * k >= ai * q + r,
                r > 0,
                ai > 0,
        ;
        assert(ai * k >= ai * q + ai) by (nonlinear_arith)
            requires
                k >= q + 1,
                ai > 0,
        ;
    }
}

/// Where the members of a struct lie, and how large the struct is.
pub struct StructLayout {
    pub size: u64,
    pub alignment: u64,
    pub field_offsets: Vec<u64>,
}

/// The store that interns composite types and computes memory layouts.
pub struct Types {
    arrays: DedupList<ArrayType>,
    structs: DedupList<StructType>,
    array_ranks: Ghost<Seq<nat>>,
    struct_ranks: Ghost<Seq<nat>>,
}

impl Types {
    /// The interned array types by identifier: element type and length.
    pub closed spec fn arrays(&self) -> Seq<(Type, u64)> {
        self.arrays.contents()
    }

    /// The interned struct types by identifier: the member types.
    pub closed spec fn structs(&self) -> Seq<Seq<Type>> {
        self.structs.contents()
    }

    /// The nesting rank of the array type `i`: it exceeds the rank of its
    /// element type.
    pub closed spec fn array_rank(&self, i: int) -> nat {
        if 0 <= i < self.array_ranks@.len() {
            self.array_ranks@[i]
        } else {
            0
        }
    }

    /// The nesting rank of the struct type `i`: it exceeds the rank of each
    /// member type.
    pub closed spec fn struct_rank(&self, i: int) -> nat {
        if 0 <= i < self.struct_ranks@.len() {
            self.struct_ranks@[i]
        } else {
            0
        }
    }

    /// What the stored items say about themselves agrees with where they are
    /// stored.
    pub closed spec fn ids_wf(&self) -> bool {
        &&& self.arrays.wf()
        &&& self.structs.wf()
        &&& self.array_ranks@.len() == self.arrays@.len()
        &&& self.struct_ranks@.len() == self.structs@.len()
        &&& forall|i: int| 0 <= i < self.arrays@.len() ==> (#[trigger] self.arrays@[i]).id.0 == i
        &&& forall|i: int|
            0 <= i < self.structs@.len() ==> (#[trigger] self.structs@[i]).id.0 == i
    }

    /// The nesting rank of a type: zero for a primitive type.
    pub open spec fn rank(&self, ty: Type) -> nat {
        match ty {
            Type::Array(id) => self.array_rank(id.0 as int),
            Type::Struct(id) => self.struct_rank(id.0 as int),
            _ => 0,
        }
    }

    /// Whether `ty` is a type of this store: an integer has between 1 and
    /// 256 bits, and a composite type was interned here.
    pub open spec fn valid(&self, ty: Type) -> bool {
        match ty {
            Type::Integer(bits) => 1 <= bits <= 256,
            Type::Array(id) => id.0 < self.arrays().len(),
            Type::Struct(id) => id.0 < self.structs().len(),
            _ => true,
        }
    }

    /// Whether every type of `tys` is a type of this store.
    pub open spec fn all_valid(&self, tys: Seq<Type>) -> bool {
        forall|i: int| 0 <= i < tys.len() ==> self.valid(#[trigger] tys[i])
    }

    /// The invariant of the store: each content is interned once, and a
    /// composite type is built from types that were there before it.
    pub open spec fn wf(&self) -> bool {
        &&& self.ids_wf()
        &&& forall|i: int|
            0 <= i < self.arrays().len() ==> {
                &&& self.valid((#[trigger] self.arrays()[i]).0)
                &&& self.rank(self.arrays()[i].0) < self.array_rank(i)
            }
        &&& forall|s: int, j: int|
            0 <= s < self.structs().len() && 0 <= j < self.structs()[s].len() ==> {
                &&& self.valid(#[trigger] self.structs()[s][j])
                &&& self.rank(self.structs()[s][j]) < self.struct_rank(s)
            }
        &&& forall|i: int, j: int|
            0 <= i < j < self.arrays().len() ==> self.arrays()[i] != self.arrays()[j]
        &&& forall|i: int, j: int|
            0 <= i < j < self.structs().len() ==> self.structs()[i] != self.structs()[j]
    }

    /// Size and alignment of a type, in bytes.
    ///
    /// An array is as large as its elements together. The members of a
    /// struct lie in declaration order, each at the next multiple of its own
    /// alignment; the struct is aligned like its strictest member and its
    /// size is a multiple of that alignment.
    pub open spec fn layout_of(&self, ty: Type) -> (nat, nat)
        decreases self.rank(ty), 1nat, 0nat,
    {
        match ty {
            Type::Unit => (0, 1),
            Type::Bool => (1, 1),
            Type::Integer(bits) => (int_bytes(bits), int_bytes(bits)),
            Type::Pointer => (8, 8),
            Type::Array(id) => if self.wf() && self.valid(ty) {
                let element = self.layout_of(self.arrays()[id.0 as int].0);
                (element.0 * (self.arrays()[id.0 as int].1 as nat), element.1)
            } else {
                (0, 1)
            },
            Type::Struct(id) => if self.wf() && self.valid(ty) {
                let all = self.extent(id, self.structs()[id.0 as int].len());
                (align_up(all.0, all.1), all.1)
            } else {
                (0, 1)
            },
        }
    }

    /// Where the first `n` members of a struct end, and the strictest
    /// alignment among them.
    pub open spec fn extent(&self, id: StructTypeID, n: nat) -> (nat, nat)
        decreases self.rank(Type::Struct(id)), 0nat, n,
    {
        if n == 0 || !self.wf() || !self.valid(Type::Struct(id)) || n > self.structs()[id.0 as int].len() {
            (0, 1)
        } else {
            let before = self.extent(id, (n - 1) as nat);
            let member = self.layout_of(self.structs()[id.0 as int][n - 1]);
            (
                align_up(before.0, member.1) + member.0,
                if member.1 > before.1 {
                    member.1
                } else {
                    before.1
                },
            )
        }
    }

    /// The size of a type in bytes.
    pub open spec fn size_of(&self, ty: Type) -> nat {
        self.layout_of(ty).0
    }

    /// The alignment of a type in bytes.
    pub open spec fn align_of(&self, ty: Type) -> nat {
        self.layout_of(ty).1
    }

    /// The offset of member `i` of a struct from the start of the struct.
    pub open spec fn member_offset(&self, id: StructTypeID, i: nat) -> nat {
        align_up(self.extent(id, i).0, self.align_of(self.structs()[id.0 as int][i as int]))
    }

    /// The greatest rank among `tys`, and zero where there is none.
    pub open spec fn max_rank(&self, tys: Seq<Type>) -> nat
        decreases tys.len(),
    {
        if tys.len() == 0 {
            0
        } else {
            let rest = self.max_rank(tys.drop_last());
            if self.rank(tys.last()) > rest {
                self.rank(tys.last())
            } else {
                rest
            }
        }
    }

    proof fn lemma_max_rank(&self, tys: Seq<Type>, i: int)
        requires
            0 <= i < tys.len(),
        ensures
            self.rank(tys[i]) <= self.max_rank(tys),
        decreases tys.len(),
    {
        if i < tys.len() - 1 {
            self.lemma_max_rank(tys.drop_last(), i);
        }
    }

    /// What `make_array` does: the content `(member, length)` is in the
    /// store afterwards under `id`, once, and nothing else has changed.
    pub open spec fn array_interned(
        pre: Types,
        post: Types,
        member: Type,
        length: u64,
        id: ArrTypeID,
    ) -> bool {
        &&& post.structs() == pre.structs()
        &&& forall|ty: Type| pre.valid(ty) ==> #[trigger] post.rank(ty) == pre.rank(ty)
        &&& if pre.arrays().contains((member, length)) {
            &&& post.arrays() == pre.arrays()
            &&& id.0 < pre.arrays().len()
            &&& pre.arrays()[id.0 as int] == (member, length)
        } else {
            &&& post.arrays() == pre.arrays().push((member, length))
            &&& id.0 == pre.arrays().len()
        }
    }

    /// What `make_struct` does: the member list is in the store afterwards
    /// under `id`, once, and nothing else has changed.
    pub open spec fn struct_interned(
        pre: Types,
        post: Types,
        members: Seq<Type>,
        id: StructTypeID,
    ) -> bool {
        &&& post.arrays() == pre.arrays()
        &&& forall|ty: Type| pre.valid(ty) ==> #[trigger] post.rank(ty) == pre.rank(ty)
        &&& if pre.structs().contains(members) {
            &&& post.structs() == pre.structs()
            &&& id.0 < pre.structs().len()
            &&& pre.structs()[id.0 as int] == members
        } else {
            &&& post.structs() == pre.structs().push(members)
            &&& id.0 == pre.structs().len()
        }
    }

    /// A store without composite types.
    pub fn new() -> (r: Self)
        ensures
            r.wf(),
            r.arrays().len() == 0,
            r.structs().len() == 0,
    {
        Self {
            arrays: DedupList::new(),
            structs: DedupList::new(),
            array_ranks: Ghost(Seq::empty()),
            struct_ranks: Ghost(Seq::empty()),
        }
    }

    /// The identifier of the array type of `length` elements of type
    /// `member`. The same content always has the same identifier.
    pub fn make_array(&mut self, member: Type, length: u64) -> (id: ArrTypeID)
        requires
            old(self).wf(),
            old(self).valid(member),
        ensures
            final(self).wf(),
            Self::array_interned(*old(self), *final(self), member, length, id),
    {
        let make = |i: usize| -> (r: ArrayType)
            ensures
                r.id == ArrTypeID(i),
                r.member == member,
                r.length == length,
            { ArrayType::new(i, member, length) };
        let ghost before = self.arrays;
        let i = self.arrays.insert(make);
        proof {
            let item = choose|item: ArrayType|
                make.ensures((before@.len() as usize,), item) && DedupList::inserted(
                    before,
                    self.arrays,
                    item,
                    i,
                );
            assert(item.content() == (member, length));
            if before.holds((member, length)) {
                let k = before.position((member, length));
                assert(before.contents()[k] == (member, length));
                assert(self.arrays.contents() =~= before.contents());
                assert(before.contents()[i as int] == (member, length));
            } else {
                assert forall|k: int| 0 <= k < before.contents().len() implies before.contents()[k]
                    != (member, length) by {
                    assert(before@[k].content() == before.contents()[k]);
                }
                self.array_ranks@ = self.array_ranks@.push(old(self).rank(member) + 1);
                assert(self.arrays.contents() =~= before.contents().push((member, length)));
            }
            assert(forall|ty: Type| old(self).valid(ty) ==> self.valid(ty));
            assert(forall|ty: Type| old(self).valid(ty) ==> self.rank(ty) == old(self).rank(ty));
            assert forall|k: int| 0 <= k < self.arrays().len() implies {
                &&& self.valid((#[trigger] self.arrays()[k]).0)
                &&& self.rank(self.arrays()[k].0) < self.array_rank(k)
            } by {
                if k < old(self).arrays().len() {
                    let t = old(self).arrays()[k];
                    assert(self.arrays()[k] == t);
                    assert(old(self).valid(t.0));
                }
            }
            assert forall|s: int, j: int|
                0 <= s < self.structs().len() && 0 <= j < self.structs()[s].len() implies {
                &&& self.valid(#[trigger] self.structs()[s][j])
                &&& self.rank(self.structs()[s][j]) < self.struct_rank(s)
            } by {
                let t = old(self).structs()[s][j];
                assert(old(self).valid(t));
            }
            assert forall|a: int, b: int| 0 <= a < b < self.arrays().len() implies self.arrays()[a]
                != self.arrays()[b] by {
                assert(self.arrays@[a].content() != self.arrays@[b].content());
            }
        }
        ArrTypeID(i)
    }

    /// The identifier of the struct type with the given member types, in
    /// this order. The same content always has the same identifier.
    pub fn make_struct(&mut self, members: Vec<Type>) -> (id: StructTypeID)
        requires
            old(self).wf(),
            old(self).all_valid(members@),
        ensures
            final(self).wf(),
            Self::struct_interned(*old(self), *final(self), members@, id),
    {
        let ghost content = members@;
        let make = |i: usize| -> (r: StructType)
            ensures
                r.id == StructTypeID(i),
                r.members@ == content,
            { StructType::new(StructTypeID(i), members) };
        let ghost before = self.structs;
        let i = self.structs.insert(make);
        proof {
            let item = choose|item: StructType|
                make.ensures((before@.len() as usize,), item) && DedupList::inserted(
                    before,
                    self.structs,
                    item,
                    i,
                );
            assert(item.content() == content);
            if before.holds(content) {
                let k = before.position(content);
                assert(before.contents()[k] == content);
                assert(self.structs.contents() =~= before.contents());
                assert(before.contents()[i as int] == content);
            } else {
                assert forall|k: int| 0 <= k < before.contents().len() implies before.contents()[k]
                    != content by {
                    assert(before@[k].content() == before.contents()[k]);
                }
                self.struct_ranks@ = self.struct_ranks@.push(old(self).max_rank(content) + 1);
                assert(self.structs.contents() =~= before.contents().push(content));
                assert forall|j: int| 0 <= j < content.len() implies old(self).rank(content[j])
                    < old(self).max_rank(content) + 1 by {
                    old(self).lemma_max_rank(content, j);
                }
            }
            assert(forall|ty: Type| old(self).valid(ty) ==> self.valid(ty));
            assert(forall|ty: Type| old(self).valid(ty) ==> self.rank(ty) == old(self).rank(ty));
            assert forall|k: int| 0 <= k < self.arrays().len() implies {
                &&& self.valid((#[trigger] self.arrays()[k]).0)
                &&& self.rank(self.arrays()[k].0) < self.array_rank(k)
            } by {
                let t = old(self).arrays()[k];
                assert(old(self).valid(t.0));
            }
            assert forall|s: int, j: int|
                0 <= s < self.structs().len() && 0 <= j < self.structs()[s].len() implies {
                &&& self.valid(#[trigger] self.structs()[s][j])
                &&& self.rank(self.structs()[s][j]) < self.struct_rank(s)
            } by {
                if s < old(self).structs().len() {
                    let t = old(self).structs()[s][j];
                    assert(self.structs()[s] == old(self).structs()[s]);
                    assert(old(self).valid(t));
                } else {
                    assert(self.structs()[s] == content);
                    assert(old(self).valid(content[j]));
                }
            }
            assert forall|a: int, b: int|
                0 <= a < b < self.structs().len() implies self.structs()[a] != self.structs()[b] by {
                assert(self.structs@[a].content() != self.structs@[b].content());
            }
        }
        StructTypeID(i)
    }

    /// Whether `ty` is a type of this store.
    pub fn is_valid(&self, ty: Type) -> (r: bool)
        ensures
            r == self.valid(ty),
    {
        match ty {
            Type::Integer(bits) => 1 <= bits && bits <= 256,
            Type::Array(id) => id.0 < self.arrays.len(),
            Type::Struct(id) => id.0 < self.structs.len(),
            _ => true,
        }
    }

    /// The array type with the identifier `id`.
    pub fn array(&self, id: ArrTypeID) -> (r: &ArrayType)
        requires
            self.wf(),
            self.valid(Type::Array(id)),
        ensures
            r.id == id,
            (r.member, r.length) == self.arrays()[id.0 as int],
    {
        self.arrays.get(id.0)
    }

    /// The struct type with the identifier `id`.
    pub fn structure(&self, id: StructTypeID) -> (r: &StructType)
        requires
            self.wf(),
            self.valid(Type::Struct(id)),
        ensures
            r.id == id,
            r.members@ == self.structs()[id.0 as int],
    {
        self.structs.get(id.0)
    }

    proof fn lemma_extent_steps(&self, id: StructTypeID, i: nat, n: nat)
        requires
            self.wf(),
            self.valid(Type::Struct(id)),
            i <= n <= self.structs()[id.0 as int].len(),
        ensures
            self.extent(id, i).0 <= self.extent(id, n).0,
        decreases n,
    {
        if i < n {
            self.lemma_extent_steps(id, i, (n - 1) as nat);
            let before = self.extent(id, (n - 1) as nat);
            let member = self.layout_of(self.structs()[id.0 as int][n - 1]);
            if member.1 > 0 {
                lemma_align_up(before.0, member.1);
            }
        }
    }

    /// The first members of a struct never end after more of them do, nor
    /// after the struct itself.
    pub proof fn lemma_extent_grows(&self, id: StructTypeID, i: nat, n: nat)
        requires
            self.wf(),
            self.valid(Type::Struct(id)),
            i <= n <= self.structs()[id.0 as int].len(),
        ensures
            self.extent(id, i).0 <= self.extent(id, n).0,
            self.extent(id, n).0 <= self.size_of(Type::Struct(id)),
    {
        let len = self.structs()[id.0 as int].len();
        self.lemma_extent_steps(id, i, n);
        self.lemma_extent_steps(id, n, len);
        let all = self.extent(id, len);
        if all.1 > 0 {
            lemma_align_up(all.0, all.1);
        }
    }

    /// The strictest alignment among the first members of a struct is no
    /// stricter than that among more of them.
    pub proof fn lemma_extent_align_grows(&self, id: StructTypeID, i: nat, n: nat)
        requires
            self.wf(),
            self.valid(Type::Struct(id)),
            1 <= i <= n <= self.structs()[id.0 as int].len(),
        ensures
            self.align_of(self.structs()[id.0 as int][i - 1]) <= self.extent(id, i).1,
            self.extent(id, i).1 <= self.extent(id, n).1,
        decreases n,
    {
        if i < n {
            self.lemma_extent_align_grows(id, i, (n - 1) as nat);
        }
    }

    /// The alignment of a type of the store lies between 1 and 32.
    pub proof fn lemma_align_bounds(&self, ty: Type)
        requires
            self.wf(),
            self.valid(ty),
        ensures
            1 <= self.align_of(ty) <= 32,
        decreases self.rank(ty), 1nat, 0nat,
    {
        match ty {
            Type::Array(id) => {
                self.lemma_align_bounds(self.arrays()[id.0 as int].0);
            },
            Type::Struct(id) => {
                self.lemma_extent_align_bounds(id, self.structs()[id.0 as int].len());
            },
            _ => {},
        }
    }

    /// The strictest alignment among the first members of a struct lies
    /// between 1 and 32.
    pub proof fn lemma_extent_align_bounds(&self, id: StructTypeID, n: nat)
        requires
            self.wf(),
            self.valid(Type::Struct(id)),
            n <= self.structs()[id.0 as int].len(),
        ensures
            1 <= self.extent(id, n).1 <= 32,
        decreases self.rank(Type::Struct(id)), 0nat, n,
    {
        if n > 0 {
            self.lemma_extent_align_bounds(id, (n - 1) as nat);
            self.lemma_align_bounds(self.structs()[id.0 as int][n - 1]);
        }
    }

    /// The alignment of a type in bytes.
    pub fn alignment(&self, ty: Type) -> (a: u64)
        requires
            self.wf(),
            self.valid(ty),
        ensures
            a == self.align_of(ty),
            1 <= a <= 32,
        decreases self.rank(ty),
    {
        match ty {
            Type::Unit => 1,
            Type::Bool => 1,
            Type::Integer(bits) => ((bits + 7) / 8) as u64,
            Type::Pointer => 8,
            Type::Array(id) => {
                let member = self.arrays.get(id.0).member;
                assert(member == self.arrays()[id.0 as int].0);
                self.alignment(member)
            },
            Type::Struct(id) => {
                let st = self.structs.get(id.0);
                assert(st.members@ == self.structs()[id.0 as int]);
                let mut align: u64 = 1;
                let mut i: usize = 0;
                while i < st.members.len()
                    invariant
                        self.wf(),
                        self.valid(ty),
                        ty == Type::Struct(id),
                        st.members@ == self.structs()[id.0 as int],
                        0 <= i <= st.members@.len(),
                        align == self.extent(id, i as nat).1,
                        1 <= align <= 32,
                    decreases st.members@.len() - i,
                {
                    let member = st.members[i];
                    assert(member == self.structs()[id.0 as int][i as int]);
                    let a = self.alignment(member);
                    if a > align {
                        align = a;
                    }
                    i += 1;
                }
                align
            },
        }
    }

    /// Size and alignment of a type, or `None` where the size is not below
    /// 2^64.
    pub fn checked_layout(&self, ty: Type) -> (r: Option<(u64, u64)>)
        requires
            self.wf(),
            self.valid(ty),
        ensures
            match r {
                Some(l) => l.0 == self.size_of(ty) && l.1 == self.align_of(ty),
                None => self.size_of(ty) > u64::MAX,
            },
        decreases self.rank(ty), 1nat,
    {
        match ty {
            Type::Unit => Some((0, 1)),
            Type::Bool => Some((1, 1)),
            Type::Integer(bits) => {
                let bytes = ((bits + 7) / 8) as u64;
                Some((bytes, bytes))
            },
            Type::Pointer => Some((8, 8)),
            Type::Array(id) => {
                let arr = self.arrays.get(id.0);
                let member = arr.member;
                let length = arr.length;
                assert((member, length) == self.arrays()[id.0 as int]);
                if length == 0 {
                    let align = self.alignment(member);
                    assert(self.size_of(member) * 0 == 0);
                    Some((0, align))
                } else {
                    match self.checked_layout(member) {
                        None => {
                            assert(self.size_of(member) * (length as nat) >= self.size_of(member))
                                by (nonlinear_arith)
                                requires
                                    length >= 1,
                            ;
                            None
                        },
                        Some((size, align)) => match size.checked_mul(length) {
                            None => None,
                            Some(total) => Some((total, align)),
                        },
                    }
                }
            },
            Type::Struct(id) => match self.struct_layout(id) {
                None => None,
                Some(l) => Some((l.size, l.alignment)),
            },
        }
    }

    /// Size, alignment and member offsets of a struct type, or `None` where
    /// the size is not below 2^64.
    pub fn struct_layout(&self, id: StructTypeID) -> (r: Option<StructLayout>)
        requires
            self.wf(),
            self.valid(Type::Struct(id)),
        ensures
            match r {
                Some(l) => {
                    &&& l.size == self.size_of(Type::Struct(id))
                    &&& l.alignment == self.align_of(Type::Struct(id))
                    &&& l.field_offsets@.len() == self.structs()[id.0 as int].len()
                    &&& forall|i: int|
                        0 <= i < l.field_offsets@.len() ==> #[trigger] l.field_offsets@[i]
                            == self.member_offset(id, i as nat)
                },
                None => self.size_of(Type::Struct(id)) > u64::MAX,
            },
        decreases self.rank(Type::Struct(id)), 0nat,
    {
        let st = self.structs.get(id.0);
        assert(st.members@ == self.structs()[id.0 as int]);
        let mut end: u64 = 0;
        let mut align: u64 = 1;
        let mut offsets: Vec<u64> = Vec::new();
        let mut i: usize = 0;
        while i < st.members.len()
            invariant
                self.wf(),
                self.valid(Type::Struct(id)),
                st.members@ == self.structs()[id.0 as int],
                0 <= i <= st.members@.len(),
                end == self.extent(id, i as nat).0,
                align == self.extent(id, i as nat).1,
                1 <= align <= 32,
                offsets@.len() == i,
                forall|k: int|
                    0 <= k < i ==> #[trigger] offsets@[k] == self.member_offset(id, k as nat),
            decreases st.members@.len() - i,
        {
            let member = st.members[i];
            assert(member == self.structs()[id.0 as int][i as int]);
            proof {
                self.lemma_extent_grows(id, (i + 1) as nat, st.members@.len());
            }
            let member_align = self.alignment(member);
            let start = match align_up_checked(end, member_align) {
                None => {
                    return None;
                },
                Some(start) => start,
            };
            let (member_size, _) = match self.checked_layout(member) {
                None => {
                    return None;
                },
                Some(l) => l,
            };
            end = match start.checked_add(member_size) {
                None => {
                    return None;
                },
                Some(e) => e,
            };
            if member_align > align {
                align = member_align;
            }
            offsets.push(start);
            i += 1;
        }
        match align_up_checked(end, align) {
            None => None,
            Some(size) => Some(StructLayout { size, alignment: align, field_offsets: offsets }),
        }
    }

    /// Size and alignment of a type on `target`, in bytes.
    ///
    /// Every supported target has pointers of 8 bytes.
    pub fn layout(&self, ty: Type, target: Target) -> (r: (u64, u64))
        requires
            self.wf(),
            self.valid(ty),
            self.size_of(ty) <= u64::MAX,
        ensures
            r.0 == self.size_of(ty),
            r.1 == self.align_of(ty),
    {
        self.checked_layout(ty).unwrap()
    }
}

/// The least multiple of `a` that is not below `x`, or `None` where it is not
/// below 2^64.
pub fn align_up_checked(x: u64, a: u64) -> (r: Option<u64>)
    requires
        a >= 1,
    ensures
        match r {
            Some(v) => v == align_up(x as nat, a as nat),
            None => align_up(x as nat, a as nat) > u64::MAX,
        },
{
    let rem = x % a;
    if rem == 0 {
        Some(x)
    } else {
        x.checked_add(a - rem)
    }
}

/// The layout of each primitive type: the unit type takes no space, a
/// truth value one byte, a pointer eight bytes, and an integer as many whole
/// bytes as hold its bits; each is aligned to its size, the unit type to 1.
pub proof fn lemma_primitive_layouts(types: Types, bits: u16)
    ensures
        types.layout_of(Type::Unit) == (0nat, 1nat),
        types.layout_of(Type::Bool) == (1nat, 1nat),
        types.layout_of(Type::Pointer) == (8nat, 8nat),
        types.layout_of(Type::Integer(bits)) == (int_bytes(bits), int_bytes(bits)),
        int_bytes(bits) * 8 >= bits > (int_bytes(bits) - 1) * 8,
{
}

/// An array is as large as its elements together and aligned like one of
/// them.
pub proof fn lemma_array_layout(types: Types, id: ArrTypeID)
    requires
        types.wf(),
        types.valid(Type::Array(id)),
    ensures
        types.size_of(Type::Array(id)) == types.size_of(types.arrays()[id.0 as int].0) * (
        types.arrays()[id.0 as int].1 as nat),
        types.align_of(Type::Array(id)) == types.align_of(types.arrays()[id.0 as int].0),
{
}

/// The members of a struct lie in declaration order without overlap, each
/// at a multiple of its alignment and inside the struct; the size of the
/// struct is a multiple of its alignment, which is a multiple of no less
/// than each member's.
pub proof fn lemma_struct_layout(types: Types, id: StructTypeID, i: nat)
    requires
        types.wf(),
        types.valid(Type::Struct(id)),
        i < types.structs()[id.0 as int].len(),
    ensures
        types.member_offset(id, i) % types.align_of(types.structs()[id.0 as int][i as int]) == 0,
        i > 0 ==> types.member_offset(id, (i - 1) as nat) + types.size_of(
            types.structs()[id.0 as int][i - 1],
        ) <= types.member_offset(id, i),
        types.member_offset(id, i) + types.size_of(types.structs()[id.0 as int][i as int])
            <= types.size_of(Type::Struct(id)),
        types.align_of(types.structs()[id.0 as int][i as int]) <= types.align_of(Type::Struct(id)),
        types.size_of(Type::Struct(id)) % types.align_of(Type::Struct(id)) == 0,
{
    let members = types.structs()[id.0 as int];
    let member = members[i as int];
    types.lemma_align_bounds(member);
    types.lemma_align_bounds(Type::Struct(id));
    lemma_align_up(types.extent(id, i).0, types.align_of(member));
    types.lemma_extent_grows(id, i + 1, members.len());
    lemma_align_up(types.extent(id, members.len()).0, types.align_of(Type::Struct(id)));
    types.lemma_extent_align_grows(id, i + 1, members.len());
    if i > 0 {
        assert(types.extent(id, i).0 == types.member_offset(id, (i - 1) as nat) + types.size_of(
            members[i - 1],
        ));
    }
}

/// Interning the same array content again yields the same identifier and
/// leaves the store as it is.
pub proof fn lemma_make_array_idempotent(
    s0: Types,
    s1: Types,
    s2: Types,
    member: Type,
    length: u64,
    first: ArrTypeID,
    second: ArrTypeID,
)
    requires
        s0.wf(),
        s1.wf(),
        Types::array_interned(s0, s1, member, length, first),
        Types::array_interned(s1, s2, member, length, second),
    ensures
        first == second,
        s2.arrays() == s1.arrays(),
        s2.structs() == s1.structs(),
{
    assert(s1.arrays()[first.0 as int] == (member, length));
    assert(s1.arrays().contains((member, length)));
}

/// Array types of different element type or length have different
/// identifiers.
pub proof fn lemma_make_array_distinct(
    s0: Types,
    s1: Types,
    s2: Types,
    member1: Type,
    length1: u64,
    member2: Type,
    length2: u64,
    first: ArrTypeID,
    second: ArrTypeID,
)
    requires
        s0.wf(),
        s1.wf(),
        Types::array_interned(s0, s1, member1, length1, first),
        Types::array_interned(s1, s2, member2, length2, second),
        member1 != member2 || length1 != length2,
    ensures
        first != second,
{
    assert(s1.arrays()[first.0 as int] == (member1, length1));
}

/// Interning the same member list again yields the same identifier and
/// leaves the store as it is.
pub proof fn lemma_make_struct_idempotent(
    s0: Types,
    s1: Types,
    s2: Types,
    members: Seq<Type>,
    first: StructTypeID,
    second: StructTypeID,
)
    requires
        s0.wf(),
        s1.wf(),
        Types::struct_interned(s0, s1, members, first),
        Types::struct_interned(s1, s2, members, second),
    ensures
        first == second,
        s2.arrays() == s1.arrays(),
        s2.structs() == s1.structs(),
{
    assert(s1.structs()[first.0 as int] == members);
    assert(s1.structs().contains(members));
}

/// Struct types whose member lists differ, in a type, in the order or in
/// the number of members, have different identifiers.
pub proof fn lemma_make_struct_distinct(
    s0: Types,
    s1: Types,
    s2: Types,
    members1: Seq<Type>,
    members2: Seq<Type>,
    first: StructTypeID,
    second: StructTypeID,
)
    requires
        s0.wf(),
        s1.wf(),
        Types::struct_interned(s0, s1, members1, first),
        Types::struct_interned(s1, s2, members2, second),
        members1 != members2,
    ensures
        first != second,
{
    assert(s1.structs()[first.0 as int] == members1);
}


impl Types {
    /// Whether `post` holds every composite type of `self` under the same
    /// identifier and with the same rank.
    pub open spec fn grows_to(&self, post: Types) -> bool {
        &&& self.arrays().is_prefix_of(post.arrays())
        &&& self.structs().is_prefix_of(post.structs())
        &&& forall|ty: Type| self.valid(ty) ==> #[trigger] post.rank(ty) == self.rank(ty)
    }

    /// A type of a store is a type of each store that the store grows to,
    /// with the same size and alignment: interning never changes the
    /// layout of a type that was there.
    pub proof fn lemma_grown_layout(&self, post: Types, ty: Type)
        requires
            self.wf(),
            post.wf(),
            self.grows_to(post),
            self.valid(ty),
        ensures
            post.valid(ty),
            post.layout_of(ty) == self.layout_of(ty),
        decreases self.rank(ty), 1nat, 0nat,
    {
        match ty {
            Type::Array(id) => {
                assert(post.arrays()[id.0 as int] == self.arrays()[id.0 as int]);
                self.lemma_grown_layout(post, self.arrays()[id.0 as int].0);
            },
            Type::Struct(id) => {
                assert(post.structs()[id.0 as int] == self.structs()[id.0 as int]);
                self.lemma_grown_extent(post, id, self.structs()[id.0 as int].len());
            },
            _ => {},
        }
    }

    /// The first members of a struct type of a store end at the same place
    /// in each store that the store grows to.
    pub proof fn lemma_grown_extent(&self, post: Types, id: StructTypeID, n: nat)
        requires
            self.wf(),
            post.wf(),
            self.grows_to(post),
            self.valid(Type::Struct(id)),
            n <= self.structs()[id.0 as int].len(),
        ensures
            post.extent(id, n) == self.extent(id, n),
        decreases self.rank(Type::Struct(id)), 0nat, n,
    {
        assert(post.structs()[id.0 as int] == self.structs()[id.0 as int]);
        if n > 0 {
            self.lemma_grown_extent(post, id, (n - 1) as nat);
            self.lemma_grown_layout(post, self.structs()[id.0 as int][n - 1]);
        }
    }

    /// A store grows to what it is after an array type was interned.
    pub proof fn lemma_array_interned_grows(
        pre: Types,
        post: Types,
        member: Type,
        length: u64,
        id: ArrTypeID,
    )
        requires
            Self::array_interned(pre, post, member, length, id),
        ensures
            pre.grows_to(post),
    {
    }

    /// A store grows to what it is after a struct type was interned.
    pub proof fn lemma_struct_interned_grows(
        pre: Types,
        post: Types,
        members: Seq<Type>,
        id: StructTypeID,
    )
        requires
            Self::struct_interned(pre, post, members, id),
        ensures
            pre.grows_to(post),
    {
    }
}

} // verus!
