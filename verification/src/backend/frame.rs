//! The stack frame: where each variable and each register of a function
//! lies, as an offset from the frame base.

use crate::types::{align_up, lemma_align_up};
use vstd::prelude::*;

verus! {

/// How far below the frame base the stack reaches once a value of `size`
/// bytes, aligned to `align`, lies below `depth` bytes that are taken.
pub open spec fn place(depth: nat, size: nat, align: nat) -> nat {
    align_up(depth + size, align)
}

/// How far below the frame base the stack reaches once the first `n` of
/// `items`, each given by size and alignment, are placed one below the
/// other.
pub open spec fn depth_after(items: Seq<(nat, nat)>, n: nat) -> nat
    decreases n,
{
    if n == 0 || n > items.len() {
        0
    } else {
        place(depth_after(items, (n - 1) as nat), items[n - 1].0, items[n - 1].1)
    }
}

/// The offset of item `k` from the frame base. It is not positive: the
/// stack grows downwards.
pub open spec fn slot_offset(items: Seq<(nat, nat)>, k: int) -> int {
    -(depth_after(items, (k + 1) as nat) as int)
}

/// The stack never reaches less far once more items are placed.
pub proof fn lemma_depth_grows(items: Seq<(nat, nat)>, i: nat, j: nat)
    requires
        i <= j <= items.len(),
    ensures
        depth_after(items, i) <= depth_after(items, j),
    decreases j,
{
    if i < j {
        lemma_depth_grows(items, i, (j - 1) as nat);
        let before = depth_after(items, (j - 1) as nat);
        if items[j - 1].1 > 0 {
            lemma_align_up(before + items[j - 1].0, items[j - 1].1);
        }
    }
}

/// The slot of an item lies at a multiple of its alignment, below the
/// items placed before it, and inside the frame.
pub proof fn lemma_slot(items: Seq<(nat, nat)>, k: int)
    requires
        0 <= k < items.len(),
        items[k].1 >= 1,
    ensures
        slot_offset(items, k) % (items[k].1 as int) == 0,
        slot_offset(items, k) + items[k].0 <= -(depth_after(items, k as nat) as int),
        -(depth_after(items, items.len()) as int) <= slot_offset(items, k),
        slot_offset(items, k) + items[k].0 <= 0,
{
    let before = depth_after(items, k as nat);
    let depth = depth_after(items, (k + 1) as nat);
    lemma_align_up(before + items[k].0, items[k].1);
    lemma_depth_grows(items, (k + 1) as nat, items.len());
    let a = items[k].1 as int;
    assert((-(depth as int)) % a == 0) by {
        vstd::arithmetic::div_mod::lemma_fundamental_div_mod(depth as int, a);
        let q = (depth as int) / a;
        assert(depth as int == a * q);
        assert(-(depth as int) == (-q) * a) by (nonlinear_arith)
            requires
                depth as int == a * q,
        ;
        vstd::arithmetic::div_mod::lemma_mod_multiples_basic(-q, a);
    }
}

/// The slots of two different items have no byte in common.
pub proof fn lemma_slots_disjoint(items: Seq<(nat, nat)>, k: int, j: int)
    requires
        0 <= k < j < items.len(),
        items[k].1 >= 1,
        items[j].1 >= 1,
    ensures
        slot_offset(items, j) + items[j].0 <= slot_offset(items, k),
{
    lemma_slot(items, j);
    lemma_depth_grows(items, (k + 1) as nat, j as nat);
}

} // verus!
