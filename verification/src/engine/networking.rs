//! The lock bookkeeping of the networking engine: the lock registry, and the
//! locks this node holds, which it keeps alive with heartbeats.

use std::collections::HashSet;
use vstd::prelude::*;
use vstd::std_specs::iter::IteratorSpec;

use crate::ids::NodeId;
use crate::networking::messages::SyncMessage;
use crate::networking::locks::{acquire_outcome, lock_expired, renewed, EntityLockRegistry, LockMap, LockMessage};

verus! {

broadcast use vstd::std_specs::hash::group_hash_axioms;

/// What the engine reports to the editor after a lock message.
#[derive(Clone, Copy, PartialEq, Eq, Structural, Debug)]
pub enum EngineLockEvent {
    /// A node acquired a lock.
    LockAcquired { entity_id: u128, holder: NodeId },
    /// A lock request was refused; the lock stays with `current_holder`.
    LockDenied { entity_id: u128, current_holder: NodeId },
    /// A lock was released.
    LockReleased { entity_id: u128 },
}

/// The abstract engine lock state: the node, its lock registry, and the
/// entities whose locks it holds.
pub type EngineLockView = (NodeId, LockMap, Set<u128>);

/// What a lock message received at `now` does to the engine's locks, and
/// what it reports.
///
/// A request is tried; when it succeeds for this node the entity joins this
/// node's locks. A heartbeat renews its holder's lock. A release removes the
/// lock when the sender holds it, drops the entity from this node's locks
/// when the sender is this node, and is reported in any case. Confirmations
/// change nothing.
pub open spec fn engine_lock_step(s: EngineLockView, msg: LockMessage, now: u64) -> (EngineLockView, Option<EngineLockEvent>) {
    let (node, m, ours) = s;
    match msg {
        LockMessage::LockRequest { entity_id, node_id } => {
            let (r, after) = acquire_outcome(m, entity_id, node_id, now);
            match r {
                Ok(()) => (
                    (node, after, if node_id == node { ours.insert(entity_id) } else { ours }),
                    Some(EngineLockEvent::LockAcquired { entity_id, holder: node_id }),
                ),
                Err(holder) => (
                    (node, after, ours),
                    Some(EngineLockEvent::LockDenied { entity_id, current_holder: holder }),
                ),
            }
        },
        LockMessage::LockHeartbeat { entity_id, holder } => (
            (
                node,
                if m.contains_key(entity_id) && m[entity_id].1 == holder {
                    m.insert(entity_id, (m[entity_id].0, holder, now, m[entity_id].3))
                } else {
                    m
                },
                ours,
            ),
            None,
        ),
        LockMessage::LockRelease { entity_id, node_id } => (
            (
                node,
                if m.contains_key(entity_id) && m[entity_id].1 == node_id {
                    m.remove(entity_id)
                } else {
                    m
                },
                if node_id == node { ours.remove(entity_id) } else { ours },
            ),
            Some(EngineLockEvent::LockReleased { entity_id }),
        ),
        _ => (s, None),
    }
}

/// The engine's lock state.
pub struct EngineLocks {
    node_id: NodeId,
    locks: EntityLockRegistry,
    our_locks: HashSet<u128>,
}

impl View for EngineLocks {
    type V = EngineLockView;

    closed spec fn view(&self) -> EngineLockView {
        (self.node_id, self.locks@, self.our_locks@)
    }
}

impl EngineLocks {
    /// The registry is well formed.
    pub closed spec fn wf(&self) -> bool {
        self.locks.wf()
    }

    /// The lock state of a node that holds no lock.
    pub fn new(node_id: NodeId) -> (e: Self)
        ensures
            e.wf(),
            e@ == (node_id, Map::<u128, (u128, NodeId, u64, u64)>::empty(), Set::<u128>::empty()),
    {
        EngineLocks { node_id, locks: EntityLockRegistry::new(), our_locks: HashSet::new() }
    }

    /// Handle a lock message received at `now`; returns what to report.
    pub fn handle_lock_message_at(&mut self, msg: LockMessage, now: u64) -> (event: Option<EngineLockEvent>)
        requires
            old(self).wf(),
        ensures
            final(self).wf(),
            (final(self)@, event) == engine_lock_step(old(self)@, msg, now),
    {
        match msg {
            LockMessage::LockRequest { entity_id, node_id } => {
                match self.locks.try_acquire_at(entity_id, node_id, now) {
                    Ok(()) => {
                        if node_id == self.node_id {
                            self.our_locks.insert(entity_id);
                        }
                        Some(EngineLockEvent::LockAcquired { entity_id, holder: node_id })
                    },
                    Err(current_holder) => Some(EngineLockEvent::LockDenied { entity_id, current_holder }),
                }
            },
            LockMessage::LockHeartbeat { entity_id, holder } => {
                self.locks.renew_heartbeat_at(entity_id, holder, now);
                None
            },
            LockMessage::LockRelease { entity_id, node_id } => {
                self.locks.release(entity_id, node_id);
                if node_id == self.node_id {
                    self.our_locks.remove(&entity_id);
                }
                Some(EngineLockEvent::LockReleased { entity_id })
            },
            _ => None,
        }
    }

    /// Handle a synchronization message received at `now`: lock messages go
    /// to `handle_lock_message_at`; the engine handles no other kind.
    pub fn handle_sync_message_at(&mut self, message: SyncMessage, now: u64) -> (event: Option<EngineLockEvent>)
        requires
            old(self).wf(),
        ensures
            final(self).wf(),
            message matches SyncMessage::Lock(m) ==> (final(self)@, event) == engine_lock_step(old(self)@, m, now),
            !(message is Lock) ==> final(self)@ == old(self)@ && event is None,
    {
        match message {
            SyncMessage::Lock(m) => self.handle_lock_message_at(m, now),
            _ => None,
        }
    }

    /// Renew at `now` the heartbeats of this node's locks; returns the
    /// entities to send heartbeats for: all of this node's locks, each once.
    pub fn renew_our_locks_at(&mut self, now: u64) -> (ids: Vec<u128>)
        requires
            old(self).wf(),
        ensures
            final(self).wf(),
            ids@.no_duplicates(),
            ids@.to_set() == old(self)@.2,
            final(self)@ == (
                old(self)@.0,
                renewed(
                    old(self)@.1,
                    old(self)@.2.filter(|e: u128| old(self)@.1.contains_key(e) && old(self)@.1[e].1 == old(self)@.0),
                    now,
                ),
                old(self)@.2,
            ),
    {
        let mut ids: Vec<u128> = Vec::new();
        let ghost v = vstd::std_specs::hash::spec_hash_keys_iter(&self.our_locks).remaining();
        for id in it: self.our_locks.iter()
            invariant
                it.seq() == v,
                v == vstd::std_specs::hash::spec_hash_keys_iter(&self.our_locks).remaining(),
                v.unref().no_duplicates(),
                ids@ == v.take(it.index()).unref(),
        {
            proof {
                assert(v.take(it.index() + 1).unref() =~= v.take(it.index()).unref().push(*id));
            }
            ids.push(*id);
        }
        proof {
            assert(v.take(v.len() as int) =~= v);
        }
        let ghost m0 = self.locks@;
        let ghost node = self.node_id;
        let ghost held = |e: u128| m0.contains_key(e) && m0[e].1 == node;
        let mut i: usize = 0;
        while i < ids.len()
            invariant
                self.locks.wf(),
                self.node_id == node,
                self.our_locks@ == old(self).our_locks@,
                m0 == old(self).locks@,
                node == old(self).node_id,
                held == (|e: u128| m0.contains_key(e) && m0[e].1 == node),
                ids@.no_duplicates(),
                i <= ids@.len(),
                self.locks@ == renewed(m0, ids@.take(i as int).to_set().filter(held), now),
            decreases ids@.len() - i,
        {
            let e = ids[i];
            self.locks.renew_heartbeat_at(e, self.node_id, now);
            proof {
                assert(ids@.take(i + 1) =~= ids@.take(i as int).push(e));
                ids@.take(i as int).lemma_push_to_set_commute(e);
                assert(!ids@.take(i as int).contains(e));
                assert(self.locks@ =~= renewed(m0, ids@.take(i + 1).to_set().filter(held), now));
            }
            i = i + 1;
        }
        proof {
            assert(ids@.take(ids@.len() as int) =~= ids@);
            assert(ids@.to_set().filter(held) =~= old(self)@.2.filter(
                |e: u128| old(self)@.1.contains_key(e) && old(self)@.1[e].1 == old(self)@.0,
            ));
        }
        ids
    }

    /// Crash recovery at `now`: release the expired locks of other nodes;
    /// returns the released entities (each reported as expired), each once.
    /// This node's own locks are kept.
    pub fn cleanup_expired_locks_at(&mut self, now: u64) -> (released: Vec<u128>)
        requires
            old(self).wf(),
        ensures
            final(self).wf(),
            released@.no_duplicates(),
            forall|e: u128|
                released@.contains(e) <==> (old(self)@.1.contains_key(e) && lock_expired(old(self)@.1[e], now)
                    && old(self)@.1[e].1 != old(self)@.0),
            final(self)@ == (old(self)@.0, old(self)@.1.remove_keys(released@.to_set()), old(self)@.2),
    {
        self.locks.release_expired_remote_locks_at(self.node_id, now)
    }

    /// The entities whose locks this node holds.
    pub fn our_locks(&self) -> (ids: Vec<u128>)
        ensures
            ids@.no_duplicates(),
            ids@.to_set() == self@.2,
    {
        let mut ids: Vec<u128> = Vec::new();
        let ghost v = vstd::std_specs::hash::spec_hash_keys_iter(&self.our_locks).remaining();
        for id in it: self.our_locks.iter()
            invariant
                it.seq() == v,
                v == vstd::std_specs::hash::spec_hash_keys_iter(&self.our_locks).remaining(),
                v.unref().no_duplicates(),
                ids@ == v.take(it.index()).unref(),
        {
            proof {
                assert(v.take(it.index() + 1).unref() =~= v.take(it.index()).unref().push(*id));
            }
            ids.push(*id);
        }
        proof {
            assert(v.take(v.len() as int) =~= v);
        }
        ids
    }

    /// The lock registry.
    pub fn registry(&self) -> (r: &EntityLockRegistry)
        ensures
            r@ == self@.1,
            r.wf() == self.wf(),
    {
        &self.locks
    }
}


/// A heartbeat from the holder of a lock renews it: the lock stays with its
/// holder, its last heartbeat becomes the time of the message, and it is
/// live for every observer until its timeout has run from then. Other locks,
/// the node and this node's locks are untouched; a heartbeat from anyone
/// else changes nothing.
pub proof fn lemma_engine_heartbeat_renews(s: EngineLockView, entity_id: u128, holder: NodeId, now: u64)
    ensures
        ({
            let after = engine_lock_step(s, LockMessage::LockHeartbeat { entity_id, holder }, now);
            &&& after.1 is None
            &&& after.0.0 == s.0
            &&& after.0.2 == s.2
            &&& forall|e: u128| e != entity_id ==> after.0.1.contains_key(e) == s.1.contains_key(e) && (
                s.1.contains_key(e) ==> #[trigger] after.0.1[e] == s.1[e])
            &&& after.0.1.contains_key(entity_id) == s.1.contains_key(entity_id)
            &&& s.1.contains_key(entity_id) && s.1[entity_id].1 == holder ==> {
                &&& after.0.1[entity_id] == (s.1[entity_id].0, holder, now, s.1[entity_id].3)
                &&& forall|observer: NodeId, t: u64|
                    now <= t < now + s.1[entity_id].3 ==> #[trigger] crate::networking::locks::lock_live(
                        after.0.1,
                        entity_id,
                        observer,
                        t,
                    )
            }
            &&& !(s.1.contains_key(entity_id) && s.1[entity_id].1 == holder) ==> after.0.1 == s.1
        }),
{
}

} // verus!
