//! The node's own clock, and the bookkeeping of delta generation.

use vstd::prelude::*;

use crate::ids::NodeId;
use crate::networking::change_detection::{needs_sync, LastSyncVersions};
use crate::networking::messages::EntityDelta;
use crate::networking::operations::ComponentOp;
use crate::networking::vector_clock::{count, VectorClock};

verus! {

/// This node's identity and vector clock.
pub struct NodeVectorClock {
    /// This node's ID.
    pub node_id: NodeId,
    /// This node's vector clock.
    pub clock: VectorClock,
}

impl NodeVectorClock {
    /// A node's clock before any event.
    pub fn new(node_id: NodeId) -> (c: Self)
        ensures
            c.node_id == node_id,
            c.clock@ == Map::<NodeId, u64>::empty(),
    {
        NodeVectorClock { node_id, clock: VectorClock::new() }
    }

    /// Advance this node's entry by one; returns the new sequence number.
    pub fn tick(&mut self) -> (s: u64)
        requires
            count(old(self).clock@, old(self).node_id) < u64::MAX,
        ensures
            s == count(old(self).clock@, old(self).node_id) + 1,
            final(self).node_id == old(self).node_id,
            final(self).clock@ == old(self).clock@.insert(old(self).node_id, s),
    {
        self.clock.increment(self.node_id)
    }

    /// This node's current sequence number.
    pub fn sequence(&self) -> (s: u64)
        ensures
            s == count(self.clock@, self.node_id),
    {
        self.clock.get(self.node_id)
    }

    /// The first step of generating a delta for a changed entity: when the
    /// entity's next version has not been sent, tick the clock and return the
    /// new sequence number and a copy of the clock; otherwise change nothing
    /// (the change was already sent in this round).
    pub fn begin_delta(&mut self, versions: &LastSyncVersions, network_id: u128) -> (r: Option<(u64, VectorClock)>)
        requires
            count(old(self).clock@, old(self).node_id) < u64::MAX,
        ensures
            final(self).node_id == old(self).node_id,
            needs_sync(versions@, network_id, (count(old(self).clock@, old(self).node_id) + 1) as u64)
                ==> (r matches Some(p) && p.0 == count(old(self).clock@, old(self).node_id) + 1
                && final(self).clock@ == old(self).clock@.insert(old(self).node_id, p.0) && p.1@
                == final(self).clock@),
            !needs_sync(versions@, network_id, (count(old(self).clock@, old(self).node_id) + 1) as u64)
                ==> r is None && final(self).clock@ == old(self).clock@,
    {
        let next = self.sequence() + 1;
        if !versions.should_sync(network_id, next) {
            return None;
        }
        let seq = self.tick();
        Some((seq, self.clock.clone()))
    }
}

/// The last step of generating a delta: no delta when there are no
/// operations; otherwise the delta, with the sequence number recorded as
/// sent.
pub fn finish_delta(
    versions: &mut LastSyncVersions,
    network_id: u128,
    node_id: NodeId,
    seq: u64,
    clock: VectorClock,
    operations: Vec<ComponentOp>,
) -> (r: Option<EntityDelta>)
    ensures
        operations@.len() == 0 ==> r is None && final(versions)@ == old(versions)@,
        operations@.len() > 0 ==> r == Some(
            EntityDelta { entity_id: network_id, node_id, vector_clock: clock, operations },
        ) && final(versions)@ == old(versions)@.insert(network_id, seq),
{
    if operations.len() == 0 {
        return None;
    }
    let delta = EntityDelta::new(network_id, node_id, clock, operations);
    versions.update(network_id, seq);
    Some(delta)
}

} // verus!
