//! Operations that carry an entity's components to peers.

use vstd::prelude::*;

use crate::networking::messages::ComponentData;
use crate::networking::operations::ComponentOp;
use crate::networking::vector_clock::VectorClock;

verus! {

/// Whether `op` sets component `discriminant` to the inline bytes `bytes`,
/// stamped with the clock `clock`.
pub open spec fn sets_inline(op: ComponentOp, discriminant: u16, bytes: Vec<u8>, clock: Map<u128, u64>) -> bool {
    op matches ComponentOp::SetValue { discriminant: d, data: ComponentData::Inline(b), vector_clock }
        && d == discriminant && b == bytes && vector_clock@ == clock
}

/// One `SetValue` operation per serialized component, in order, each with
/// its bytes inline and stamped with `vector_clock` as it is: the caller has
/// already ticked it, and all operations of one delta share that stamp.
pub fn build_entity_operations(components: Vec<(u16, Vec<u8>)>, vector_clock: &VectorClock) -> (ops: Vec<
    ComponentOp,
>)
    ensures
        ops@.len() == components@.len(),
        forall|i: int|
            0 <= i < ops@.len() ==> sets_inline(
                #[trigger] ops@[i],
                components@[i].0,
                components@[i].1,
                vector_clock@,
            ),
{
    let ghost all = components@;
    let mut ops: Vec<ComponentOp> = Vec::new();
    for c in it: components
        invariant
            it.seq() == all,
            ops@.len() == it.index(),
            forall|i: int| 0 <= i < ops@.len() ==> sets_inline(#[trigger] ops@[i], all[i].0, all[i].1, vector_clock@),
    {
        let (discriminant, bytes) = c;
        ops.push(
            ComponentOp::SetValue {
                discriminant,
                data: ComponentData::Inline(bytes),
                vector_clock: vector_clock.clone(),
            },
        );
    }
    ops
}

} // verus!
