//! Entity tombstones: deletion semantics for replicated entities.
//!
//! Deleting an entity leaves a tombstone holding the vector clock of the
//! deletion. An operation on a tombstoned entity is applied only when the
//! deletion happened before it; an operation that happened before the
//! deletion, or concurrently with it, is ignored (deletion wins), which keeps
//! deleted entities from coming back. Tombstones are kept for a grace period
//! so that late operations still meet them, and collected after it.

use std::collections::HashMap;
use vstd::prelude::*;
use vstd::std_specs::iter::IteratorSpec;

use crate::ids::NodeId;
use crate::networking::delta_generation::NodeVectorClock;
use crate::networking::messages::EntityDelta;
use crate::networking::operations::{ticked, ComponentOp, ComponentOpBuilder};
use crate::networking::vector_clock::{
    clock_lt,
    count,
    lemma_clock_lt_asymmetric,
    lemma_iter_covers,
    VectorClock,
};
use crate::time::{elapsed, elapsed_millis, now_millis};

verus! {

broadcast use vstd::std_specs::hash::group_hash_axioms;

/// How long to keep tombstones before garbage collection, in seconds.
pub const TOMBSTONE_TTL_SECS: u64 = 3600;

/// The abstract content of a tombstone: entity, deleting node, deletion
/// clock, and creation time in milliseconds.
pub type TombstoneView = (u128, NodeId, Map<NodeId, u64>, u64);

/// A tombstone record for a deleted entity.
pub struct Tombstone {
    /// The entity that was deleted.
    pub entity_id: u128,
    /// Node that initiated the deletion.
    pub deleting_node: NodeId,
    /// Vector clock when deletion occurred.
    pub deletion_clock: VectorClock,
    /// When this tombstone was created, in milliseconds since the Unix epoch.
    pub timestamp: u64,
}

impl View for Tombstone {
    type V = TombstoneView;

    open spec fn view(&self) -> TombstoneView {
        (self.entity_id, self.deleting_node, self.deletion_clock@, self.timestamp)
    }
}

/// Whether a tombstone created at `ts` is still within its grace period at
/// time `now`.
pub open spec fn tombstone_fresh(ts: u64, now: u64) -> bool {
    elapsed(now, ts) < TOMBSTONE_TTL_SECS * 1000
}

/// The tombstones that are still within their grace period at `now`.
pub open spec fn fresh_tombstones(m: Map<u128, TombstoneView>, now: u64) -> Map<u128, TombstoneView> {
    m.restrict(m.dom().filter(|e: u128| tombstone_fresh(m[e].3, now)))
}

/// What recording a deletion at time `now` makes of the tombstones: a new
/// tombstone when the entity had none, a replacement when the new deletion
/// happened after the recorded one, and no change otherwise.
pub open spec fn recorded_deletion(
    m: Map<u128, TombstoneView>,
    entity_id: u128,
    node: NodeId,
    clock: Map<NodeId, u64>,
    now: u64,
) -> Map<u128, TombstoneView> {
    if !m.contains_key(entity_id) || clock_lt(m[entity_id].2, clock) {
        m.insert(entity_id, (entity_id, node, clock, now))
    } else {
        m
    }
}

/// Whether an operation with clock `op` on `entity_id` is to be ignored: the
/// entity has a tombstone and the deletion did not happen before the
/// operation.
pub open spec fn ignores_operation(m: Map<u128, TombstoneView>, entity_id: u128, op: Map<NodeId, u64>) -> bool {
    m.contains_key(entity_id) && !clock_lt(m[entity_id].2, op)
}

/// Registry of tombstones for deleted entities.
pub struct TombstoneRegistry {
    /// Map from entity ID to tombstone.
    tombstones: HashMap<u128, Tombstone>,
}

impl View for TombstoneRegistry {
    type V = Map<u128, TombstoneView>;

    closed spec fn view(&self) -> Map<u128, TombstoneView> {
        self.tombstones@.map_values(|t: Tombstone| t@)
    }
}

impl TombstoneRegistry {
    /// Create a new tombstone registry.
    pub fn new() -> (r: Self)
        ensures
            r@ == Map::<u128, TombstoneView>::empty(),
    {
        let r = TombstoneRegistry { tombstones: HashMap::new() };
        assert(r@ =~= Map::<u128, TombstoneView>::empty());
        r
    }

    /// Check if an entity is deleted.
    pub fn is_deleted(&self, entity_id: u128) -> (r: bool)
        ensures
            r == self@.contains_key(entity_id),
    {
        self.tombstones.contains_key(&entity_id)
    }

    /// The tombstone for an entity, if it has one.
    pub fn get_tombstone(&self, entity_id: u128) -> (r: Option<&Tombstone>)
        ensures
            r matches Some(t) ==> self@.contains_key(entity_id) && t@ == self@[entity_id],
            r is None ==> !self@.contains_key(entity_id),
    {
        self.tombstones.get(&entity_id)
    }

    /// Record a deletion at time `now`: a new tombstone when the entity has
    /// none, a replacement when this deletion happened after the recorded one.
    pub fn record_deletion_at(
        &mut self,
        entity_id: u128,
        deleting_node: NodeId,
        deletion_clock: VectorClock,
        now: u64,
    )
        ensures
            final(self)@ == recorded_deletion(old(self)@, entity_id, deleting_node, deletion_clock@, now),
    {
        let replace = match self.tombstones.get(&entity_id) {
            Some(existing) => existing.deletion_clock.happened_before(&deletion_clock),
            None => true,
        };
        if replace {
            let t = Tombstone { entity_id, deleting_node, deletion_clock, timestamp: now };
            self.tombstones.insert(entity_id, t);
        }
        assert(self@ =~= recorded_deletion(old(self)@, entity_id, deleting_node, deletion_clock@, now));
    }

    /// Record a deletion now. The tombstone's clock never goes back: an older
    /// or concurrent deletion leaves the recorded one in place.
    pub fn record_deletion(&mut self, entity_id: u128, deleting_node: NodeId, deletion_clock: VectorClock)
        ensures
            exists|now: u64|
                final(self)@ == recorded_deletion(
                    old(self)@,
                    entity_id,
                    deleting_node,
                    deletion_clock@,
                    now,
                ),
            final(self)@.contains_key(entity_id),
            old(self)@.contains_key(entity_id) ==> !clock_lt(
                final(self)@[entity_id].2,
                old(self)@[entity_id].2,
            ),
    {
        let now = now_millis();
        let ghost c = deletion_clock@;
        self.record_deletion_at(entity_id, deleting_node, deletion_clock, now);
        proof {
            if old(self)@.contains_key(entity_id) {
                lemma_clock_lt_asymmetric(old(self)@[entity_id].2, c);
            }
        }
    }

    /// Check if an operation should be ignored because the entity is deleted:
    /// it has a tombstone and the deletion did not happen before the
    /// operation (a concurrent deletion wins).
    pub fn should_ignore_operation(&self, entity_id: u128, operation_clock: &VectorClock) -> (r: bool)
        ensures
            r == ignores_operation(self@, entity_id, operation_clock@),
    {
        match self.tombstones.get(&entity_id) {
            Some(t) => !t.deletion_clock.happened_before(operation_clock),
            None => false,
        }
    }

    /// Remove the tombstones whose grace period is over at time `now`.
    pub fn garbage_collect_at(&mut self, now: u64)
        ensures
            final(self)@ == fresh_tombstones(old(self)@, now),
    {
        let ghost m = self@;
        let mut doomed: Vec<u128> = Vec::new();
        let ghost v = vstd::std_specs::hash::spec_hash_map_iter(&self.tombstones).remaining();
        let ghost mut visited: int = 0;
        for pair in it: self.tombstones.iter()
            invariant
                it.seq() == v,
                v == vstd::std_specs::hash::spec_hash_map_iter(&self.tombstones).remaining(),
                visited == it.index(),
                m == self@,
                forall|x: u128|
                    doomed@.contains(x) <==> (m.contains_key(x) && !tombstone_fresh(m[x].3, now)
                        && exists|i: int| 0 <= i < visited && *v[i].0 == x),
        {
            let (id, t) = pair;
            proof {
                assert(pair == v[visited]);
                assert(self.tombstones@.contains_key(*v[visited].0) && self.tombstones@[*v[visited].0]
                    == *v[visited].1);
            }
            let ghost before = doomed@;
            let age = elapsed_millis(now, t.timestamp);
            if age >= TOMBSTONE_TTL_SECS * 1000 {
                doomed.push(*id);
            }
            proof {
                assert forall|x: u128|
                    doomed@.contains(x) <==> (m.contains_key(x) && !tombstone_fresh(m[x].3, now)
                        && exists|i: int| 0 <= i < visited + 1 && *v[i].0 == x) by {
                    if doomed@.contains(x) && doomed@.len() > before.len() {
                        let j = choose|j: int| 0 <= j < doomed@.len() && doomed@[j] == x;
                        if j < before.len() {
                            assert(before[j] == x);
                        }
                    }
                    if doomed@.contains(x) && doomed@.len() == before.len() {
                        assert(doomed@ == before);
                    }
                    if before.contains(x) {
                        let j = choose|j: int| 0 <= j < before.len() && before[j] == x;
                        assert(doomed@[j] == x);
                    }
                    if x == *id {
                        assert(*v[visited].0 == x);
                        if doomed@.len() > before.len() {
                            assert(doomed@[doomed@.len() - 1] == x);
                        }
                    } else if exists|i: int| 0 <= i < visited + 1 && *v[i].0 == x {
                        let i = choose|i: int| 0 <= i < visited + 1 && *v[i].0 == x;
                        assert(i < visited);
                    }
                }
                visited = visited + 1;
            }
        }
        proof {
            assert(self.tombstones@.dom() =~= m.dom());
            assert forall|x: u128| m.contains_key(x) && !tombstone_fresh(m[x].3, now) implies doomed@.contains(x) by {
                lemma_iter_covers(&self.tombstones, x);
            }
        }
        let mut j: usize = 0;
        while j < doomed.len()
            invariant
                j <= doomed.len(),
                self@ == m.remove_keys(doomed@.take(j as int).to_set()),
            decreases doomed.len() - j,
        {
            let k = doomed[j];
            let ghost before = self@;
            self.tombstones.remove(&k);
            proof {
                assert(self@ =~= before.remove(k));
                assert(doomed@.take(j + 1) =~= doomed@.take(j as int).push(k));
                doomed@.take(j as int).lemma_push_to_set_commute(k);
                assert(m.remove_keys(doomed@.take(j as int).to_set().insert(k)) =~= m.remove_keys(
                    doomed@.take(j as int).to_set(),
                ).remove(k));
            }
            j = j + 1;
        }
        proof {
            assert(doomed@.take(doomed.len() as int) =~= doomed@);
            assert(m.remove_keys(doomed@.to_set()) =~= fresh_tombstones(m, now));
        }
    }

    /// Remove the tombstones whose grace period is over now.
    pub fn garbage_collect(&mut self)
        ensures
            exists|now: u64| final(self)@ == fresh_tombstones(old(self)@, now),
    {
        let now = now_millis();
        self.garbage_collect_at(now);
    }

    /// The number of tombstones.
    pub fn num_tombstones(&self) -> (n: usize)
        ensures
            n == self@.dom().len(),
    {
        proof {
            assert(self@.dom() =~= self.tombstones@.dom());
        }
        self.tombstones.len()
    }
}

impl Default for TombstoneRegistry {
    fn default() -> (r: Self)
        ensures
            r@ == Map::<u128, TombstoneView>::empty(),
    {
        TombstoneRegistry::new()
    }
}

/// An operation concurrent with a recorded deletion is ignored: deletion
/// wins over concurrent updates.
pub proof fn lemma_concurrent_deletion_wins(
    m: Map<u128, TombstoneView>,
    entity_id: u128,
    op: Map<NodeId, u64>,
)
    requires
        m.contains_key(entity_id),
        !clock_lt(m[entity_id].2, op),
        !clock_lt(op, m[entity_id].2),
    ensures
        ignores_operation(m, entity_id, op),
{
}

/// An operation that happened after the deletion is applied again, and one
/// on an entity without a tombstone is never ignored.
pub proof fn lemma_later_operation_applies(m: Map<u128, TombstoneView>, entity_id: u128, op: Map<NodeId, u64>)
    requires
        !m.contains_key(entity_id) || clock_lt(m[entity_id].2, op),
    ensures
        !ignores_operation(m, entity_id, op),
{
}

/// After a deletion is recorded, every operation that happened before it is
/// ignored on that entity.
pub proof fn lemma_recorded_deletion_ignores_older(
    m: Map<u128, TombstoneView>,
    entity_id: u128,
    node: NodeId,
    clock: Map<NodeId, u64>,
    now: u64,
    op: Map<NodeId, u64>,
)
    requires
        clock_lt(op, clock),
    ensures
        ignores_operation(recorded_deletion(m, entity_id, node, clock, now), entity_id, op),
{
    let r = recorded_deletion(m, entity_id, node, clock, now);
    if m.contains_key(entity_id) && !clock_lt(m[entity_id].2, clock) {
        // the recorded clock is not before `clock`; were it before `op`, it
        // would be before `clock` too
        if clock_lt(m[entity_id].2, op) {
            crate::networking::vector_clock::lemma_clock_lt_transitive(m[entity_id].2, op, clock);
        }
    } else {
        lemma_clock_lt_asymmetric(op, clock);
    }
}

/// Delete a local entity at time `now`: tick the node's clock, record a
/// tombstone with the ticked clock, and return the delta that announces the
/// deletion. Its one `Delete` operation is built from the ticked clock, which
/// the builder advances once more.
pub fn delete_local_entity_at(
    node_clock: &mut NodeVectorClock,
    tombstones: &mut TombstoneRegistry,
    network_id: u128,
    now: u64,
) -> (delta: EntityDelta)
    requires
        count(old(node_clock).clock@, old(node_clock).node_id) + 1 < u64::MAX,
    ensures
        final(node_clock).node_id == old(node_clock).node_id,
        final(node_clock).clock@ == old(node_clock).clock@.insert(
            old(node_clock).node_id,
            (count(old(node_clock).clock@, old(node_clock).node_id) + 1) as u64,
        ),
        final(tombstones)@ == recorded_deletion(
            old(tombstones)@,
            network_id,
            old(node_clock).node_id,
            final(node_clock).clock@,
            now,
        ),
        delta.entity_id == network_id,
        delta.node_id == old(node_clock).node_id,
        delta.vector_clock@ == final(node_clock).clock@,
        delta.operations@.len() == 1,
        delta.operations@[0] matches ComponentOp::Delete { vector_clock } && vector_clock@ == ticked(
            (old(node_clock).node_id, final(node_clock).clock@),
        ),
{
    node_clock.tick();
    let op = ComponentOpBuilder::new(node_clock.node_id, node_clock.clock.clone()).delete();
    tombstones.record_deletion_at(network_id, node_clock.node_id, node_clock.clock.clone(), now);
    EntityDelta::new(network_id, node_clock.node_id, node_clock.clock.clone(), vec![op])
}

/// Delete a local entity now.
pub fn delete_local_entity(
    node_clock: &mut NodeVectorClock,
    tombstones: &mut TombstoneRegistry,
    network_id: u128,
) -> (delta: EntityDelta)
    requires
        count(old(node_clock).clock@, old(node_clock).node_id) + 1 < u64::MAX,
    ensures
        final(node_clock).node_id == old(node_clock).node_id,
        final(node_clock).clock@ == old(node_clock).clock@.insert(
            old(node_clock).node_id,
            (count(old(node_clock).clock@, old(node_clock).node_id) + 1) as u64,
        ),
        exists|now: u64|
            final(tombstones)@ == recorded_deletion(
                old(tombstones)@,
                network_id,
                old(node_clock).node_id,
                final(node_clock).clock@,
                now,
            ),
        delta.entity_id == network_id,
        delta.node_id == old(node_clock).node_id,
        delta.vector_clock@ == final(node_clock).clock@,
        delta.operations@.len() == 1,
        delta.operations@[0] matches ComponentOp::Delete { vector_clock } && vector_clock@ == ticked(
            (old(node_clock).node_id, final(node_clock).clock@),
        ),
{
    delete_local_entity_at(node_clock, tombstones, network_id, now_millis())
}

} // verus!
