//! Forwarding of stored values to loads inside a block.

use crate::module::{forwards, Module};
use vstd::prelude::*;

verus! {

/// Replaces, in each block of `module`, each load from the pointer of the
/// store before it in the block by a copy of the value that was stored.
/// Tells whether anything was replaced.
pub fn run_local_store_load_forwarding(module: &mut Module) -> (modified: bool)
    requires
        old(module).wf(),
    ensures
        final(module).wf(),
        Module::stores_forwarded(old(module)@, final(module)@),
        old(module)@.ssa() ==> final(module)@.ssa(),
        modified <==> exists|b: int, k: int|
            0 <= b < old(module)@.blocks.len() && 0 <= k < old(module)@.blocks[b].body@.len()
                && #[trigger] forwards(old(module)@.blocks[b].body@, k),
{
    module.forward_stores()
}

} // verus!
