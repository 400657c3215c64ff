//! The vector clock of the last write of each component, for deciding
//! whether a remote write wins.

use vstd::prelude::*;

use crate::ids::NodeId;
use crate::networking::session_sync::{lww_after, remote_write_wins, should_apply_remote};
use crate::networking::delta_generation::NodeVectorClock;
use crate::networking::messages::EntityDelta;
use crate::networking::operations::ComponentOp;
use crate::networking::tombstones::{ignores_operation, recorded_deletion, TombstoneRegistry};
use crate::networking::vector_clock::{clock_join, VectorClock};
use crate::time::now_millis;
use crate::text::str_eq;

verus! {

/// A component of an entity: the entity and the component type name.
pub type ComponentKey = (u128, Seq<char>);

/// A record: the component, and the clock and writer of its last write.
pub type ClockEntry = (ComponentKey, Map<NodeId, u64>, NodeId);

/// The index of the first record of component `k` (`s.len()` if none).
pub open spec fn key_index(s: Seq<ClockEntry>, k: ComponentKey) -> int
    decreases s.len(),
{
    if s.len() == 0 {
        0
    } else if s[0].0 == k {
        0
    } else {
        1 + key_index(s.drop_first(), k)
    }
}

/// The clock and writer recorded for component `k`.
pub open spec fn lookup(s: Seq<ClockEntry>, k: ComponentKey) -> Option<(Map<NodeId, u64>, NodeId)> {
    if key_index(s, k) < s.len() {
        Some((s[key_index(s, k)].1, s[key_index(s, k)].2))
    } else {
        None
    }
}

/// `key_index` is the first index whose record is of `k`.
proof fn lemma_key_index(s: Seq<ClockEntry>, k: ComponentKey, j: int)
    requires
        0 <= j <= s.len(),
        forall|q: int| 0 <= q < j ==> s[q].0 != k,
        j == s.len() || s[j].0 == k,
    ensures
        key_index(s, k) == j,
    decreases j,
{
    if j > 0 {
        lemma_key_index(s.drop_first(), k, j - 1);
    }
}

/// `key_index` lies in range, and no record before it is of `k`.
proof fn lemma_key_index_props(s: Seq<ClockEntry>, k: ComponentKey)
    ensures
        0 <= key_index(s, k) <= s.len(),
        key_index(s, k) < s.len() ==> s[key_index(s, k)].0 == k,
        forall|q: int| 0 <= q < key_index(s, k) ==> s[q].0 != k,
    decreases s.len(),
{
    if s.len() > 0 && s[0].0 != k {
        lemma_key_index_props(s.drop_first(), k);
        assert forall|q: int| 0 <= q < key_index(s, k) implies s[q].0 != k by {
            if q > 0 {
                assert(s[q] == s.drop_first()[q - 1]);
            }
        }
    }
}

/// The records of the last writes of components.
#[derive(Debug)]
pub struct ComponentVectorClocks {
    clocks: Vec<(u128, String, (VectorClock, NodeId))>,
}

/// The abstract form of a stored record.
pub open spec fn entry_view(e: (u128, String, (VectorClock, NodeId))) -> ClockEntry {
    ((e.0, e.1@), e.2.0@, e.2.1)
}

impl ComponentVectorClocks {
    /// The records, in order.
    pub closed spec fn entries(&self) -> Seq<ClockEntry> {
        self.clocks@.map_values(|e: (u128, String, (VectorClock, NodeId))| entry_view(e))
    }

    /// No record yet.
    pub fn new() -> (c: Self)
        ensures
            c.entries().len() == 0,
    {
        ComponentVectorClocks { clocks: Vec::new() }
    }

    /// The index of the first record of a component.
    fn find(&self, entity_id: u128, component_type: &str) -> (r: Option<usize>)
        ensures
            r matches Some(i) ==> i as int == key_index(self.entries(), (entity_id, component_type@))
                && i < self.entries().len(),
            r is None ==> key_index(self.entries(), (entity_id, component_type@)) == self.entries().len(),
    {
        let ghost k = (entity_id, component_type@);
        let mut i: usize = 0;
        while i < self.clocks.len()
            invariant
                i <= self.clocks@.len(),
                k == (entity_id, component_type@),
                forall|j: int| 0 <= j < i ==> self.entries()[j].0 != k,
            decreases self.clocks@.len() - i,
        {
            assert(self.entries()[i as int] == entry_view(self.clocks@[i as int]));
            if self.clocks[i].0 == entity_id && str_eq(self.clocks[i].1.as_str(), component_type) {
                proof {
                    lemma_key_index(self.entries(), k, i as int);
                }
                return Some(i);
            }
            i = i + 1;
        }
        proof {
            lemma_key_index(self.entries(), k, i as int);
        }
        None
    }

    /// The clock and writer of the last write of a component.
    pub fn get(&self, entity_id: u128, component_type: &str) -> (r: Option<&(VectorClock, NodeId)>)
        ensures
            lookup(self.entries(), (entity_id, component_type@)) == match r {
                Some(p) => Some((p.0@, p.1)),
                None => None,
            },
    {
        match self.find(entity_id, component_type) {
            Some(i) => Some(&self.clocks[i].2),
            None => None,
        }
    }

    /// Record the clock and writer of a write of a component.
    pub fn set(&mut self, entity_id: u128, component_type: String, clock: VectorClock, node_id: NodeId)
        ensures
            lookup(final(self).entries(), (entity_id, component_type@)) == Some((clock@, node_id)),
            forall|k: ComponentKey|
                k != (entity_id, component_type@) ==> #[trigger] lookup(final(self).entries(), k) == lookup(
                    old(self).entries(),
                    k,
                ),
    {
        let ghost k0 = (entity_id, component_type@);
        let ghost before = self.entries();
        let ghost e = ((entity_id, component_type@), clock@, node_id);
        match self.find(entity_id, component_type.as_str()) {
            Some(i) => {
                self.clocks.set(i, (entity_id, component_type, (clock, node_id)));
                proof {
                    assert(self.entries() =~= before.update(i as int, e));
                    lemma_key_index_props(before, k0);
                    lemma_key_index(self.entries(), k0, i as int);
                    assert forall|k: ComponentKey| k != k0 implies #[trigger] lookup(self.entries(), k) == lookup(before, k) by {
                        lemma_key_index_props(before, k);
                        let j = key_index(before, k);
                        assert forall|q: int| 0 <= q < j implies self.entries()[q].0 != k by {
                            if q != i {
                                assert(self.entries()[q] == before[q]);
                            }
                        }
                        if j < before.len() {
                            assert(j != i);
                            assert(self.entries()[j] == before[j]);
                        }
                        lemma_key_index(self.entries(), k, j);
                    }
                }
            },
            None => {
                self.clocks.push((entity_id, component_type, (clock, node_id)));
                proof {
                    assert(self.entries() =~= before.push(e));
                    lemma_key_index_props(before, k0);
                    lemma_key_index(self.entries(), k0, before.len() as int);
                    assert forall|k: ComponentKey| k != k0 implies #[trigger] lookup(self.entries(), k) == lookup(before, k) by {
                        lemma_key_index_props(before, k);
                        let j = key_index(before, k);
                        assert forall|q: int| 0 <= q < j implies self.entries()[q].0 != k by {
                            assert(self.entries()[q] == before[q]);
                        }
                        if j < before.len() {
                            assert(self.entries()[j] == before[j]);
                            lemma_key_index(self.entries(), k, j);
                        } else {
                            lemma_key_index(self.entries(), k, (before.len() + 1) as int);
                        }
                    }
                }
            },
        }
    }

    /// Last-write-wins on a remote write of a component: whether it replaces
    /// the recorded last write (see `remote_write_wins`); when it does, it is
    /// recorded as the last write.
    pub fn accept_remote_write(
        &mut self,
        entity_id: u128,
        component_type: String,
        clock: &VectorClock,
        node_id: NodeId,
    ) -> (applied: bool)
        ensures
            applied == remote_write_wins(
                lookup(old(self).entries(), (entity_id, component_type@)),
                clock@,
                node_id,
            ),
            lookup(final(self).entries(), (entity_id, component_type@)) == lww_after(
                lookup(old(self).entries(), (entity_id, component_type@)),
                clock@,
                node_id,
            ),
            forall|k: ComponentKey|
                k != (entity_id, component_type@) ==> #[trigger] lookup(final(self).entries(), k)
                    == lookup(old(self).entries(), k),
            !applied ==> final(self).entries() == old(self).entries(),
    {
        let applied = should_apply_remote(self.get(entity_id, component_type.as_str()), clock, node_id);
        if applied {
            self.set(entity_id, component_type, clock.clone(), node_id);
        }
        applied
    }

    /// Forget every component of an entity.
    pub fn remove_entity(&mut self, entity_id: u128)
        ensures
            final(self).entries() == old(self).entries().filter(|e: ClockEntry| e.0.0 != entity_id),
    {
        let mut all: Vec<(u128, String, (VectorClock, NodeId))> = Vec::new();
        std::mem::swap(&mut all, &mut self.clocks);
        let ghost orig = all@;
        let ghost vw = |e: (u128, String, (VectorClock, NodeId))| entry_view(e);
        let ghost pred = |e: ClockEntry| e.0.0 != entity_id;
        let mut kept: Vec<(u128, String, (VectorClock, NodeId))> = Vec::new();
        let ghost mut i: int = 0;
        while all.len() > 0
            invariant
                0 <= i <= orig.len(),
                all@ == orig.skip(i),
                vw == (|e: (u128, String, (VectorClock, NodeId))| entry_view(e)),
                pred == (|e: ClockEntry| e.0.0 != entity_id),
                kept@.map_values(vw) == orig.take(i).map_values(vw).filter(pred),
            decreases all@.len(),
        {
            let e = all.remove(0);
            proof {
                assert(e == orig[i]);
                assert(all@ =~= orig.skip(i + 1));
                assert(orig.take(i + 1).map_values(vw) =~= orig.take(i).map_values(vw).push(vw(e)));
                orig.take(i).map_values(vw).lemma_filter_push(vw(e), pred);
            }
            let keep = e.0 != entity_id;
            let ghost before = kept@;
            if keep {
                kept.push(e);
                proof {
                    assert(kept@.map_values(vw) =~= before.map_values(vw).push(vw(e)));
                }
            }
            proof {
                i = i + 1;
            }
        }
        proof {
            assert(i == orig.len());
            assert(orig.take(i) =~= orig);
        }
        self.clocks = kept;
    }
}

/// What a node does with a received entity delta.
#[derive(Clone, Copy, PartialEq, Eq, Structural, Debug)]
pub enum DeltaOutcome {
    /// The delta deletes the entity: a tombstone was recorded and the entity
    /// is despawned; its other operations are dropped.
    EntityDeleted,
    /// The entity is deleted and the delta did not happen after the deletion.
    Ignored,
    /// The delta's operations are applied to the entity.
    Apply,
}

/// The clock of the first `Delete` operation of a delta, if any.
pub open spec fn first_delete_clock(ops: Seq<ComponentOp>) -> Option<Map<NodeId, u64>>
    decreases ops.len(),
{
    if ops.len() == 0 {
        None
    } else {
        match ops[0] {
            ComponentOp::Delete { vector_clock } => Some(vector_clock@),
            _ => first_delete_clock(ops.drop_first()),
        }
    }
}

/// Admit a received entity delta at time `now`: merge its clock into the
/// node's clock; a delta with a `Delete` operation records a tombstone with
/// the first such operation's clock and deletes the entity; any other delta
/// is ignored when a tombstone says so, applied otherwise.
pub fn admit_entity_delta_at(
    delta: &EntityDelta,
    node_clock: &mut NodeVectorClock,
    tombstones: &mut TombstoneRegistry,
    now: u64,
) -> (outcome: DeltaOutcome)
    ensures
        final(node_clock).node_id == old(node_clock).node_id,
        final(node_clock).clock@ == clock_join(old(node_clock).clock@, delta.vector_clock@),
        first_delete_clock(delta.operations@) matches Some(c) ==> outcome == DeltaOutcome::EntityDeleted
            && final(tombstones)@ == recorded_deletion(
            old(tombstones)@,
            delta.entity_id,
            delta.node_id,
            c,
            now,
        ),
        first_delete_clock(delta.operations@) is None ==> final(tombstones)@ == old(tombstones)@
            && outcome == (if ignores_operation(old(tombstones)@, delta.entity_id, delta.vector_clock@) {
            DeltaOutcome::Ignored
        } else {
            DeltaOutcome::Apply
        }),
{
    node_clock.clock.merge(&delta.vector_clock);
    let ghost ops = delta.operations@;
    let mut i: usize = 0;
    assert(ops.skip(0) =~= ops);
    while i < delta.operations.len()
        invariant
            i <= ops.len(),
            ops == delta.operations@,
            node_clock.node_id == old(node_clock).node_id,
            node_clock.clock@ == clock_join(old(node_clock).clock@, delta.vector_clock@),
            first_delete_clock(ops) == first_delete_clock(ops.skip(i as int)),
            tombstones@ == old(tombstones)@,
        decreases ops.len() - i,
    {
        assert(ops.skip(i as int)[0] == ops[i as int]);
        if let ComponentOp::Delete { vector_clock } = &delta.operations[i] {
            tombstones.record_deletion_at(delta.entity_id, delta.node_id, vector_clock.clone(), now);
            return DeltaOutcome::EntityDeleted;
        }
        assert(ops.skip(i as int).drop_first() =~= ops.skip(i + 1));
        i = i + 1;
    }
    assert(ops.skip(i as int).len() == 0);
    if tombstones.should_ignore_operation(delta.entity_id, &delta.vector_clock) {
        DeltaOutcome::Ignored
    } else {
        DeltaOutcome::Apply
    }
}

/// Admit a received entity delta now.
pub fn admit_entity_delta(
    delta: &EntityDelta,
    node_clock: &mut NodeVectorClock,
    tombstones: &mut TombstoneRegistry,
) -> (outcome: DeltaOutcome)
    ensures
        final(node_clock).node_id == old(node_clock).node_id,
        final(node_clock).clock@ == clock_join(old(node_clock).clock@, delta.vector_clock@),
        first_delete_clock(delta.operations@) matches Some(c) ==> outcome == DeltaOutcome::EntityDeleted
            && exists|now: u64|
            final(tombstones)@ == recorded_deletion(
                old(tombstones)@,
                delta.entity_id,
                delta.node_id,
                c,
                now,
            ),
        first_delete_clock(delta.operations@) is None ==> final(tombstones)@ == old(tombstones)@
            && outcome == (if ignores_operation(old(tombstones)@, delta.entity_id, delta.vector_clock@) {
            DeltaOutcome::Ignored
        } else {
            DeltaOutcome::Apply
        }),
{
    let now = now_millis();
    admit_entity_delta_at(delta, node_clock, tombstones, now)
}

} // verus!
