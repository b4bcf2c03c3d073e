//! The order in which the blocks of a function are visited: each block that
//! can be reached from the entry once, and no other.

use crate::module::block::BlockID;
use crate::module::instruction::Instruction;
use crate::module::{Module, ModuleView};
use vstd::prelude::*;

verus! {

/// The position of the first instruction of `body` that goes on in
/// another block, or the length of `body` where there is none among the
/// first `n`.
pub open spec fn first_exit(body: Seq<Instruction>, n: nat) -> nat
    decreases n,
{
    if n == 0 || n > body.len() {
        body.len()
    } else {
        let before = first_exit(body, (n - 1) as nat);
        if before < body.len() {
            before
        } else if body[n - 1].successors().len() > 0 {
            (n - 1) as nat
        } else {
            body.len()
        }
    }
}

/// The blocks in which execution may go on after the block `b`: those that
/// the first jump or branch of `b` names.
pub open spec fn successors_of(m: ModuleView, b: BlockID) -> Seq<BlockID> {
    if b.0 < m.blocks.len() {
        let body = m.blocks[b.0 as int].body@;
        let at = first_exit(body, body.len());
        if at < body.len() {
            Seq::new(body[at as int].successors().len(), |i: int| body[at as int].successors()[i].block)
        } else {
            Seq::empty()
        }
    } else {
        Seq::empty()
    }
}

/// Whether execution can go from each block of `path` to the next.
pub open spec fn is_path(m: ModuleView, path: Seq<BlockID>) -> bool {
    &&& path.len() >= 1
    &&& forall|i: int|
        0 <= i < path.len() - 1 ==> successors_of(m, #[trigger] path[i]).contains(path[i + 1])
}

/// Whether execution that starts in `entry` can arrive in `b`.
pub open spec fn reachable(m: ModuleView, entry: BlockID, b: BlockID) -> bool {
    exists|path: Seq<BlockID>| is_path(m, path) && path[0] == entry && path.last() == b
}

/// Whether `order` is a way to visit the blocks that can be reached from
/// `entry`: it starts with `entry`, holds no block twice, and holds a
/// block exactly if execution can arrive there.
#[verifier::opaque]
pub open spec fn is_schedule(m: ModuleView, entry: BlockID, order: Seq<BlockID>) -> bool {
    &&& order.len() >= 1
    &&& order[0] == entry
    &&& forall|i: int, j: int| 0 <= i < j < order.len() ==> order[i] != order[j]
    &&& forall|b: BlockID| order.contains(b) <==> reachable(m, entry, b)
}

/// The number of entries of `s` that are not set.
pub open spec fn unmarked(s: Seq<bool>) -> nat
    decreases s.len(),
{
    if s.len() == 0 {
        0
    } else {
        unmarked(s.drop_last()) + if s.last() {
            0nat
        } else {
            1nat
        }
    }
}

proof fn lemma_mark(s: Seq<bool>, i: int)
    requires
        0 <= i < s.len(),
        !s[i],
    ensures
        unmarked(s.update(i, true)) + 1 == unmarked(s),
    decreases s.len(),
{
    let t = s.update(i, true);
    if i == s.len() - 1 {
        assert(t.drop_last() =~= s.drop_last());
    } else {
        assert(t.drop_last() =~= s.drop_last().update(i, true));
        lemma_mark(s.drop_last(), i);
    }
}

/// A set of blocks that holds `entry` and, with each block, the blocks
/// in which execution may go on, holds every block that can be reached
/// from `entry`.
pub proof fn lemma_closed_holds_reachable(
    m: ModuleView,
    entry: BlockID,
    order: Seq<BlockID>,
    path: Seq<BlockID>,
)
    requires
        order.contains(entry),
        forall|b: BlockID, s: BlockID|
            order.contains(b) && #[trigger] successors_of(m, b).contains(s) ==> order.contains(s),
        is_path(m, path),
        path[0] == entry,
    ensures
        order.contains(path.last()),
    decreases path.len(),
{
    if path.len() > 1 {
        let shorter = path.drop_last();
        assert forall|i: int| 0 <= i < shorter.len() - 1 implies successors_of(
            m,
            #[trigger] shorter[i],
        ).contains(shorter[i + 1]) by {
            assert(successors_of(m, path[i]).contains(path[i + 1]));
        }
        lemma_closed_holds_reachable(m, entry, order, shorter);
        let k = path.len() - 2;
        assert(successors_of(m, path[k]).contains(path[k + 1]));
    }
}

/// A block in which execution may go on after a block that can be reached
/// can be reached too.
pub proof fn lemma_reachable_step(m: ModuleView, entry: BlockID, b: BlockID, s: BlockID)
    requires
        reachable(m, entry, b),
        successors_of(m, b).contains(s),
    ensures
        reachable(m, entry, s),
{
    let path = choose|path: Seq<BlockID>| is_path(m, path) && path[0] == entry && path.last() == b;
    let longer = path.push(s);
    assert forall|i: int| 0 <= i < longer.len() - 1 implies successors_of(
        m,
        #[trigger] longer[i],
    ).contains(longer[i + 1]) by {
        if i < path.len() - 1 {
            assert(successors_of(m, path[i]).contains(path[i + 1]));
        }
    }
    assert(is_path(m, longer) && longer[0] == entry && longer.last() == s);
}

/// The position of the first instruction of `block` that goes on in
/// another block.
pub fn find_exit(body: &Vec<Instruction>) -> (r: Option<usize>)
    ensures
        match r {
            Some(at) => at < body@.len() && first_exit(body@, body@.len()) == at,
            None => first_exit(body@, body@.len()) == body@.len(),
        },
{
    let mut i: usize = 0;
    while i < body.len()
        invariant
            0 <= i <= body@.len(),
            first_exit(body@, i as nat) == body@.len(),
        decreases body@.len() - i,
    {
        if body[i].next_blocks().is_some() {
            proof {
                lemma_first_exit_stays(body@, (i + 1) as nat, body@.len());
            }
            return Some(i);
        }
        i += 1;
    }
    None
}

proof fn lemma_first_exit_stays(body: Seq<Instruction>, n: nat, k: nat)
    requires
        n <= k <= body.len(),
        first_exit(body, n) < body.len(),
    ensures
        first_exit(body, k) == first_exit(body, n),
    decreases k,
{
    if n < k {
        lemma_first_exit_stays(body, n, (k - 1) as nat);
    }
}

/// The blocks that can be reached from `entry`, each once, `entry` first.
pub fn reachable_blocks(module: &Module, entry: BlockID) -> (order: Vec<BlockID>)
    requires
        module.wf(),
        entry.0 < module@.blocks.len(),
    ensures
        is_schedule(module@, entry, order@),
        forall|i: int|
            0 <= i < order@.len() ==> (#[trigger] order@[i]).0 < module@.blocks.len()
                && module@.blocks[order@[i].0 as int].function
                == module@.blocks[entry.0 as int].function,
{
    let ghost m = module@;
    let ghost f = m.blocks[entry.0 as int].function;
    let n = module.block_count();
    let mut marked: Vec<bool> = vec![false; n];
    let mut pending: Vec<BlockID> = Vec::new();
    let mut order: Vec<BlockID> = Vec::new();
    marked.set(entry.0, true);
    pending.push(entry);
    proof {
        lemma_mark(Seq::new(n as nat, |i: int| false), entry.0 as int);
        assert(is_path(m, seq![entry]));
        assert(seq![entry][0] == entry && seq![entry].last() == entry);
        assert(marked@ =~= Seq::new(n as nat, |i: int| false).update(entry.0 as int, true));
    }
    while pending.len() > 0
        invariant
            module.wf(),
            m == module@,
            n == m.blocks.len(),
            entry.0 < n,
            f == m.blocks[entry.0 as int].function,
            marked@.len() == n,
            forall|b: BlockID|
                b.0 < n ==> (#[trigger] marked@[b.0 as int] <==> (order@.contains(b)
                    || pending@.contains(b))),
            forall|i: int| 0 <= i < order@.len() ==> (#[trigger] order@[i]).0 < n,
            forall|i: int| 0 <= i < pending@.len() ==> (#[trigger] pending@[i]).0 < n,
            forall|i: int, j: int| 0 <= i < j < order@.len() ==> order@[i] != order@[j],
            forall|i: int, j: int| 0 <= i < j < pending@.len() ==> pending@[i] != pending@[j],
            forall|i: int, j: int|
                0 <= i < order@.len() && 0 <= j < pending@.len() ==> order@[i] != pending@[j],
            forall|i: int|
                0 <= i < order@.len() ==> reachable(m, entry, #[trigger] order@[i])
                    && m.blocks[order@[i].0 as int].function == f,
            forall|i: int|
                0 <= i < pending@.len() ==> reachable(m, entry, #[trigger] pending@[i])
                    && m.blocks[pending@[i].0 as int].function == f,
            forall|b: BlockID, s: BlockID|
                order@.contains(b) && #[trigger] successors_of(m, b).contains(s) ==> (
                order@.contains(s) || pending@.contains(s)),
            order@.len() == 0 ==> pending@ == seq![entry],
            order@.len() > 0 ==> order@[0] == entry,
        decreases 2 * unmarked(marked@) + pending@.len(),
    {
        let ghost old_pending = pending@;
        let ghost old_order = order@;
        let ghost old_marked = marked@;
        let b = pending.pop().unwrap();
        order.push(b);
        assert(old_pending =~= pending@.push(b));
        assert(m.block_wf(b.0 as int));
        let block = module.block(b);
        let exit = find_exit(block.body());
        let next = match exit {
            Some(at) => {
                assert(m.instr_ok(f, block.body@[at as int]));
                block.body()[at].next_blocks()
            },
            None => None,
        };
        let mut first: Option<BlockID> = None;
        let mut second: Option<BlockID> = None;
        match next {
            Some((s, t)) => {
                first = Some(s);
                second = t;
            },
            None => {},
        }
        proof {
            let succ = successors_of(m, b);
            assert(forall|s: BlockID|
                succ.contains(s) ==> first == Some(s) || second == Some(s)) by {
                assert forall|s: BlockID| succ.contains(s) implies first == Some(s) || second
                    == Some(s) by {
                    let k = choose|k: int| 0 <= k < succ.len() && succ[k] == s;
                    assert(succ[k] == s);
                }
            }
            if first is Some {
                assert(succ[0] == first->0);
                assert(succ.contains(first->0));
                lemma_reachable_step(m, entry, b, first->0);
                let at = exit->0;
                assert(m.target_ok(f, block.body@[at as int].successors()[0]));
            }
            if second is Some {
                assert(succ[1] == second->0);
                assert(succ.contains(second->0));
                lemma_reachable_step(m, entry, b, second->0);
                let at = exit->0;
                assert(m.target_ok(f, block.body@[at as int].successors()[1]));
            }
            assert forall|x: BlockID| order@.contains(x) implies old_order.contains(x) || x
                == b by {
                let k = choose|k: int| 0 <= k < order@.len() && order@[k] == x;
                if k < old_order.len() {
                    assert(old_order[k] == x);
                }
            }
            assert forall|x: BlockID| old_order.contains(x) implies order@.contains(x) by {
                let k = choose|k: int| 0 <= k < old_order.len() && old_order[k] == x;
                assert(order@[k] == x);
            }
            assert(order@[old_order.len() as int] == b);
            assert(order@.contains(b));
            assert forall|x: BlockID| old_pending.contains(x) implies pending@.contains(x) || x
                == b by {
                let k = choose|k: int| 0 <= k < old_pending.len() && old_pending[k] == x;
                if k < pending@.len() {
                    assert(pending@[k] == x);
                }
            }
            assert forall|x: BlockID| pending@.contains(x) implies old_pending.contains(x) by {
                let k = choose|k: int| 0 <= k < pending@.len() && pending@[k] == x;
                assert(old_pending[k] == x);
            }
            assert(!pending@.contains(b)) by {
                if pending@.contains(b) {
                    let k = choose|k: int| 0 <= k < pending@.len() && pending@[k] == b;
                    assert(old_pending[k] == old_pending[pending@.len() as int]);
                }
            }
        }
        let ghost mid_pending = pending@;
        if let Some(s) = first {
            if !marked[s.0] {
                proof {
                    lemma_mark(marked@, s.0 as int);
                }
                marked.set(s.0, true);
                pending.push(s);
            }
        }
        let ghost mid2_pending = pending@;
        let ghost mid2_marked = marked@;
        proof {
            assert forall|x: BlockID| mid2_pending.contains(x) implies mid_pending.contains(x) || Some(x)
                == first by {
                let k = choose|k: int| 0 <= k < mid2_pending.len() && mid2_pending[k] == x;
                if k < mid_pending.len() {
                    assert(mid_pending[k] == x);
                }
            }
            assert forall|x: BlockID| mid_pending.contains(x) implies mid2_pending.contains(x) by {
                let k = choose|k: int| 0 <= k < mid_pending.len() && mid_pending[k] == x;
                assert(mid2_pending[k] == x);
            }
            if first is Some && !old_marked[(first->0).0 as int] {
                assert(mid2_pending[mid_pending.len() as int] == first->0);
                assert(mid2_pending.contains(first->0));
            }
        }
        if let Some(s) = second {
            if !marked[s.0] {
                proof {
                    lemma_mark(marked@, s.0 as int);
                }
                marked.set(s.0, true);
                pending.push(s);
            }
        }
        proof {
            assert forall|x: BlockID| pending@.contains(x) implies mid2_pending.contains(x) || Some(x)
                == second by {
                let k = choose|k: int| 0 <= k < pending@.len() && pending@[k] == x;
                if k < mid2_pending.len() {
                    assert(mid2_pending[k] == x);
                }
            }
            assert forall|x: BlockID| mid2_pending.contains(x) implies pending@.contains(x) by {
                let k = choose|k: int| 0 <= k < mid2_pending.len() && mid2_pending[k] == x;
                assert(pending@[k] == x);
            }
            if second is Some && !mid2_marked[(second->0).0 as int] {
                assert(pending@[mid2_pending.len() as int] == second->0);
                assert(pending@.contains(second->0));
            }
            assert forall|i: int, j: int| 0 <= i < j < pending@.len() implies pending@[i] != pending@[j] by {
                if j < mid_pending.len() {
                    assert(old_pending[i] != old_pending[j]);
                } else if i < mid_pending.len() {
                    assert(mid_pending.contains(pending@[i]));
                } else {
                }
            }
            assert forall|i: int, j: int|
                0 <= i < order@.len() && 0 <= j < pending@.len() implies order@[i] != pending@[j] by {
                assert(order@.contains(order@[i]));
                assert(pending@.contains(pending@[j]));
            }
            assert forall|i: int, j: int| 0 <= i < j < order@.len() implies order@[i]
                != order@[j] by {
                if j == old_order.len() {
                    assert(old_order[i] != old_pending[mid_pending.len() as int]);
                }
            }
        }
    }
    proof {
        assert(pending@.len() == 0);
        assert(order@.len() > 0);
        assert forall|b: BlockID, s: BlockID|
            order@.contains(b) && #[trigger] successors_of(m, b).contains(s) implies order@.contains(
            s,
        ) by {
            if pending@.contains(s) {
                let k = choose|k: int| 0 <= k < pending@.len() && pending@[k] == s;
            }
        }
        assert(order@.contains(entry)) by {
            assert(order@[0] == entry);
        }
        assert forall|b: BlockID| order@.contains(b) <==> reachable(m, entry, b) by {
            if order@.contains(b) {
                let k = choose|k: int| 0 <= k < order@.len() && order@[k] == b;
                assert(reachable(m, entry, order@[k]));
            }
            if reachable(m, entry, b) {
                let path = choose|path: Seq<BlockID>|
                    is_path(m, path) && path[0] == entry && path.last() == b;
                lemma_closed_holds_reachable(m, entry, order@, path);
            }
        }
        reveal(is_schedule);
    }
    order
}

/// The entry block of the function `f`, which has a body.
pub open spec fn entry_of(m: ModuleView, f: int) -> BlockID {
    m.functions[f].definition->0.entry
}

/// Whether `orders` gives, for each function of `m` that has a body, a way
/// to visit the blocks that can be reached from its entry.
pub open spec fn schedules(m: ModuleView, orders: Seq<Seq<BlockID>>) -> bool {
    &&& orders.len() == m.functions.len()
    &&& forall|f: int|
        0 <= f < m.functions.len() && m.functions[f].definition is Some
            ==> is_schedule(m, entry_of(m, f), #[trigger] orders[f])
}



/// A way to visit the blocks of a function starts with the entry, holds
/// each block that can be reached from the entry exactly once, and holds
/// no block that cannot be reached.
pub proof fn lemma_schedule(m: ModuleView, entry: BlockID, order: Seq<BlockID>, b: BlockID)
    requires
        is_schedule(m, entry, order),
    ensures
        order.len() >= 1,
        order[0] == entry,
        order.no_duplicates(),
        order.contains(b) <==> reachable(m, entry, b),
{
    reveal(is_schedule);
}

} // verus!
