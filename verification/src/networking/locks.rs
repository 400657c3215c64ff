//! Entity locks for collaborative editing.
//!
//! A node that selects an entity takes a lock on it; others cannot take it
//! until it is released or expires. A lock expires when no heartbeat came for
//! its timeout (crash recovery); a node's own locks never expire from its own
//! point of view. Each node holds at most `MAX_LOCKS_PER_NODE` locks.
//!
//! Time is read once per public call; each decision that depends on time has
//! a variant taking the time (milliseconds since the Unix epoch) as argument.

use std::collections::{HashMap, HashSet};
use vstd::prelude::*;
use vstd::std_specs::iter::IteratorSpec;

use crate::ids::NodeId;
use crate::networking::vector_clock::lemma_iter_covers;
use crate::time::{elapsed, elapsed_millis, now_millis};

verus! {

broadcast use vstd::std_specs::hash::group_hash_axioms;

/// Time without heartbeat before a lock expires, in milliseconds.
pub const LOCK_TIMEOUT: u64 = 5000;

/// Maximum number of concurrent locks per node (rate limiting).
pub const MAX_LOCKS_PER_NODE: usize = 100;

/// Lock acquisition and release messages.
#[derive(Clone, Copy, PartialEq, Eq, Structural, Debug)]
pub enum LockMessage {
    /// Request to acquire a lock on an entity.
    LockRequest { entity_id: u128, node_id: NodeId },
    /// Confirmation that a lock was successfully acquired.
    LockAcquired { entity_id: u128, holder: NodeId },
    /// Lock acquisition failed (already locked by another node).
    LockRejected { entity_id: u128, requester: NodeId, current_holder: NodeId },
    /// Heartbeat to renew a held lock.
    LockHeartbeat { entity_id: u128, holder: NodeId },
    /// Request to release a lock.
    LockRelease { entity_id: u128, node_id: NodeId },
    /// Confirmation that a lock was released.
    LockReleased { entity_id: u128 },
}

/// The abstract content of a lock: entity, holder, time of the last
/// heartbeat and timeout (both in milliseconds).
pub type LockView = (u128, NodeId, u64, u64);

/// The locks of a registry by entity.
pub type LockMap = Map<u128, LockView>;

/// Information about an active entity lock.
#[derive(Clone, Copy, Debug)]
pub struct EntityLock {
    /// ID of the entity being locked.
    pub entity_id: u128,
    /// Node that holds the lock.
    pub holder: NodeId,
    /// When the last heartbeat was received (or the lock acquired), in
    /// milliseconds since the Unix epoch.
    pub last_heartbeat: u64,
    /// Milliseconds without heartbeat after which the lock expires.
    pub timeout: u64,
}

impl View for EntityLock {
    type V = LockView;

    open spec fn view(&self) -> LockView {
        (self.entity_id, self.holder, self.last_heartbeat, self.timeout)
    }
}

/// Whether a lock has gone without heartbeat for its timeout at time `now`.
pub open spec fn lock_expired(l: LockView, now: u64) -> bool {
    elapsed(now, l.2) >= l.3
}

/// Which locks a listing keeps: expired ones (0), expired ones of nodes
/// other than `node` (1), or live ones of `node` (2).
pub open spec fn lock_selected(tag: u8, l: LockView, node: NodeId, now: u64) -> bool {
    if tag == 0 {
        lock_expired(l, now)
    } else if tag == 1 {
        lock_expired(l, now) && l.1 != node
    } else {
        !lock_expired(l, now) && l.1 == node
    }
}

/// The entities whose locks have expired at `now`.
pub open spec fn expired_locks(m: LockMap, now: u64) -> Set<u128> {
    m.dom().filter(|e: u128| lock_expired(m[e], now))
}

/// The entities whose locks `n` holds.
pub open spec fn held_by(m: LockMap, n: NodeId) -> Set<u128> {
    m.dom().filter(|e: u128| m[e].1 == n)
}

/// Whether `e` counts as locked for node `local` at time `now`: its lock is
/// `local`'s own, or has not expired.
pub open spec fn lock_live(m: LockMap, e: u128, local: NodeId, now: u64) -> bool {
    m.contains_key(e) && (m[e].1 == local || !lock_expired(m[e], now))
}

/// The locks after the heartbeats of the locks of `entities` were renewed at
/// `now`.
pub open spec fn renewed(m: LockMap, entities: Set<u128>, now: u64) -> LockMap {
    Map::new(
        |e: u128| m.contains_key(e),
        |e: u128|
            if entities.contains(e) {
                (m[e].0, m[e].1, now, m[e].3)
            } else {
                m[e]
            },
    )
}

/// What acquiring a lock on `e` for `n` at time `now` answers, and what the
/// locks become: a live lock of another holder refuses with that holder; an
/// expired one is dropped first; a node at its limit is refused with its own
/// ID; otherwise the lock is taken with a fresh heartbeat.
pub open spec fn acquire_outcome(m: LockMap, e: u128, n: NodeId, now: u64) -> (Result<(), NodeId>, LockMap) {
    if m.contains_key(e) && !lock_expired(m[e], now) {
        (Err(m[e].1), m)
    } else {
        let base = m.remove(e);
        if held_by(base, n).len() >= MAX_LOCKS_PER_NODE {
            (Err(n), base)
        } else {
            (Ok(()), base.insert(e, (e, n, now, LOCK_TIMEOUT)))
        }
    }
}

/// The locks after the heartbeat of the lock on `e` (if any) is moved ten
/// seconds back from `now`.
pub open spec fn heartbeat_moved_back(m: LockMap, e: u128, now: u64) -> LockMap {
    if m.contains_key(e) {
        m.insert(e, (m[e].0, m[e].1, (if now >= 10000 { (now - 10000) as u64 } else { 0u64 }), m[e].3))
    } else {
        m
    }
}

impl EntityLock {
    /// A lock on `entity_id` for `holder` with its heartbeat at `now`.
    pub fn new_at(entity_id: u128, holder: NodeId, now: u64) -> (l: Self)
        ensures
            l@ == (entity_id, holder, now, LOCK_TIMEOUT),
    {
        EntityLock { entity_id, holder, last_heartbeat: now, timeout: LOCK_TIMEOUT }
    }

    /// Create a new entity lock with its heartbeat now.
    pub fn new(entity_id: u128, holder: NodeId) -> (l: Self)
        ensures
            l.entity_id == entity_id,
            l.holder == holder,
            l.timeout == LOCK_TIMEOUT,
    {
        EntityLock::new_at(entity_id, holder, now_millis())
    }

    /// Renew the lock with a heartbeat at `now`.
    pub fn renew_at(&mut self, now: u64)
        ensures
            final(self)@ == (old(self).entity_id, old(self).holder, now, old(self).timeout),
    {
        self.last_heartbeat = now;
    }

    /// Renew the lock with a heartbeat now.
    pub fn renew(&mut self)
        ensures
            final(self).entity_id == old(self).entity_id,
            final(self).holder == old(self).holder,
            final(self).timeout == old(self).timeout,
    {
        self.renew_at(now_millis());
    }

    /// Whether the lock has gone without heartbeat for its timeout at `now`.
    pub fn is_expired_at(&self, now: u64) -> (r: bool)
        ensures
            r == lock_expired(self@, now),
    {
        elapsed_millis(now, self.last_heartbeat) >= self.timeout
    }

    /// Whether the lock has gone without heartbeat for its timeout now.
    pub fn is_expired(&self) -> (r: bool)
        ensures
            exists|now: u64| r == lock_expired(self@, now),
    {
        let now = now_millis();
        let r = self.is_expired_at(now);
        assert(r == lock_expired(self@, now));
        r
    }

    /// Check if this lock is held by the given node.
    pub fn is_held_by(&self, node_id: NodeId) -> (r: bool)
        ensures
            r == (self.holder == node_id),
    {
        self.holder == node_id
    }
}

/// Registry of all active entity locks.
pub struct EntityLockRegistry {
    /// Map of entity ID to lock info.
    locks: HashMap<u128, EntityLock>,
    /// Count of locks held by each node (for rate limiting).
    locks_per_node: HashMap<NodeId, usize>,
}

impl View for EntityLockRegistry {
    type V = LockMap;

    closed spec fn view(&self) -> LockMap {
        self.locks@.map_values(|l: EntityLock| l@)
    }
}

/// Adding a lock of a new entity adds it to its holder's set only.
proof fn lemma_held_insert(m: LockMap, e: u128, l: LockView, k: NodeId)
    requires
        !m.contains_key(e),
        m.dom().finite(),
    ensures
        held_by(m.insert(e, l), k) == (if l.1 == k { held_by(m, k).insert(e) } else { held_by(m, k) }),
        held_by(m.insert(e, l), k).len() == held_by(m, k).len() + (if l.1 == k { 1int } else { 0int }),
{
    assert(held_by(m.insert(e, l), k) =~= (if l.1 == k { held_by(m, k).insert(e) } else { held_by(m, k) }));
    vstd::set_lib::lemma_set_subset_finite(m.dom(), held_by(m, k));
}

/// Removing a lock removes it from its holder's set only.
proof fn lemma_held_remove(m: LockMap, e: u128, k: NodeId)
    requires
        m.contains_key(e),
        m.dom().finite(),
    ensures
        held_by(m.remove(e), k) == (if m[e].1 == k { held_by(m, k).remove(e) } else { held_by(m, k) }),
        held_by(m.remove(e), k).len() + (if m[e].1 == k { 1int } else { 0int }) == held_by(m, k).len(),
{
    assert(held_by(m.remove(e), k) =~= (if m[e].1 == k { held_by(m, k).remove(e) } else { held_by(m, k) }));
    vstd::set_lib::lemma_set_subset_finite(m.dom(), held_by(m, k));
}

/// Replacing a lock by one of the same holder changes no holder's set.
proof fn lemma_held_same_holder(m: LockMap, e: u128, l: LockView, k: NodeId)
    requires
        m.contains_key(e),
        m[e].1 == l.1,
    ensures
        held_by(m.insert(e, l), k) == held_by(m, k),
{
    assert(held_by(m.insert(e, l), k) =~= held_by(m, k));
}

impl EntityLockRegistry {
    /// The per-node counts are the numbers of locks each node holds, none is
    /// zero, and no node holds more than its limit.
    pub closed spec fn wf(&self) -> bool {
        &&& forall|n: NodeId|
            #[trigger] self.locks_per_node@.contains_key(n) ==> self.locks_per_node@[n] > 0
        &&& forall|n: NodeId|
            #[trigger] held_by(self@, n).len() == (if self.locks_per_node@.contains_key(n) {
                self.locks_per_node@[n] as int
            } else {
                0int
            })
        &&& forall|n: NodeId| #[trigger] held_by(self@, n).len() <= MAX_LOCKS_PER_NODE
    }

    /// Create a new empty lock registry.
    pub fn new() -> (r: Self)
        ensures
            r.wf(),
            r@ == Map::<u128, LockView>::empty(),
    {
        let r = EntityLockRegistry { locks: HashMap::new(), locks_per_node: HashMap::new() };
        assert(r@ =~= Map::<u128, LockView>::empty());
        assert forall|n: NodeId| #[trigger] held_by(r@, n).len() == 0 by {
            assert(held_by(r@, n) =~= Set::<u128>::empty());
        }
        r
    }

    /// The registry's view has the locks' entities as its finite domain.
    proof fn lemma_view_finite(&self)
        ensures
            self@.dom().finite(),
            self@.dom() == self.locks@.dom(),
    {
        assert(self@.dom() =~= self.locks@.dom());
    }

    /// The number of locks `n` holds.
    fn count_of(&self, n: NodeId) -> (c: usize)
        requires
            self.wf(),
        ensures
            c == held_by(self@, n).len(),
    {
        match self.locks_per_node.get(&n) {
            Some(c) => *c,
            None => 0,
        }
    }

    /// Remove a lock and update bookkeeping.
    fn remove_lock(&mut self, entity_id: u128)
        requires
            old(self).wf(),
        ensures
            final(self).wf(),
            final(self)@ == old(self)@.remove(entity_id),
    {
        let ghost m = self@;
        proof {
            self.lemma_view_finite();
        }
        match self.locks.remove(&entity_id) {
            Some(lock) => {
                let h = lock.holder;
                proof {
                    assert(m.contains_key(entity_id) && m[entity_id].1 == h);
                    assert(self@ =~= m.remove(entity_id));
                    assert forall|k: NodeId| true implies held_by(self@, k).len() + (if h == k { 1int } else { 0int }) == held_by(m, k).len() by {
                        lemma_held_remove(m, entity_id, k);
                    }
                    assert(held_by(m, h).len() > 0) by {
                        lemma_held_remove(m, entity_id, h);
                    }
                }
                let c = self.locks_per_node.get(&h).unwrap();
                let c = *c;
                if c <= 1 {
                    self.locks_per_node.remove(&h);
                } else {
                    self.locks_per_node.insert(h, c - 1);
                }
                proof {
                    assert forall|n: NodeId| #[trigger] self.locks_per_node@.contains_key(n) implies self.locks_per_node@[n] > 0 by {
                        if n != h {
                            assert(old(self).locks_per_node@.contains_key(n));
                        }
                    }
                    assert forall|n: NodeId| #[trigger] held_by(self@, n).len() == (if self.locks_per_node@.contains_key(n) {
                        self.locks_per_node@[n] as int
                    } else {
                        0int
                    }) by {
                        lemma_held_remove(m, entity_id, n);
                        assert(held_by(m, n).len() == (if old(self).locks_per_node@.contains_key(n) {
                            old(self).locks_per_node@[n] as int
                        } else {
                            0int
                        }));
                    }
                    assert forall|n: NodeId| #[trigger] held_by(self@, n).len() <= MAX_LOCKS_PER_NODE by {
                        lemma_held_remove(m, entity_id, n);
                        assert(held_by(m, n).len() <= MAX_LOCKS_PER_NODE);
                    }
                }
            },
            None => {
                assert(self@ =~= m);
                assert(self@ =~= m.remove(entity_id));
            },
        }
    }

    /// Try to acquire a lock on an entity at time `now`.
    ///
    /// Returns `Ok(())` when the lock was taken; `Err` with the current holder
    /// when a live lock of it is in the way, or with `node_id` itself when the
    /// node is at its lock limit.
    pub fn try_acquire_at(&mut self, entity_id: u128, node_id: NodeId, now: u64) -> (r: Result<(), NodeId>)
        requires
            old(self).wf(),
        ensures
            final(self).wf(),
            (r, final(self)@) == acquire_outcome(old(self)@, entity_id, node_id, now),
    {
        match self.locks.get(&entity_id) {
            Some(existing) => {
                if !existing.is_expired_at(now) {
                    return Err(existing.holder);
                }
                self.remove_lock(entity_id);
            },
            None => {
                assert(self@ =~= old(self)@.remove(entity_id));
            },
        }
        let count = self.count_of(node_id);
        if count >= MAX_LOCKS_PER_NODE {
            return Err(node_id);
        }
        let ghost m = self@;
        proof {
            self.lemma_view_finite();
        }
        let lock = EntityLock::new_at(entity_id, node_id, now);
        self.locks.insert(entity_id, lock);
        let c = match self.locks_per_node.get(&node_id) {
            Some(c) => *c,
            None => 0,
        };
        self.locks_per_node.insert(node_id, c + 1);
        proof {
            assert(self@ =~= m.insert(entity_id, (entity_id, node_id, now, LOCK_TIMEOUT)));
            assert forall|n: NodeId| #[trigger] held_by(self@, n).len() == (if self.locks_per_node@.contains_key(n) {
                self.locks_per_node@[n] as int
            } else {
                0int
            }) by {
                lemma_held_insert(m, entity_id, (entity_id, node_id, now, LOCK_TIMEOUT), n);
            }
            assert forall|n: NodeId| #[trigger] held_by(self@, n).len() <= MAX_LOCKS_PER_NODE by {
                lemma_held_insert(m, entity_id, (entity_id, node_id, now, LOCK_TIMEOUT), n);
            }
        }
        Ok(())
    }

    /// Try to acquire a lock on an entity now.
    pub fn try_acquire(&mut self, entity_id: u128, node_id: NodeId) -> (r: Result<(), NodeId>)
        requires
            old(self).wf(),
        ensures
            final(self).wf(),
            exists|now: u64| (r, final(self)@) == acquire_outcome(old(self)@, entity_id, node_id, now),
    {
        let now = now_millis();
        let r = self.try_acquire_at(entity_id, node_id, now);
        assert((r, self@) == acquire_outcome(old(self)@, entity_id, node_id, now));
        r
    }

    /// Release a lock on an entity; only its holder can.
    pub fn release(&mut self, entity_id: u128, node_id: NodeId) -> (r: bool)
        requires
            old(self).wf(),
        ensures
            final(self).wf(),
            r == (old(self)@.contains_key(entity_id) && old(self)@[entity_id].1 == node_id),
            final(self)@ == (if r { old(self)@.remove(entity_id) } else { old(self)@ }),
    {
        let holds = match self.locks.get(&entity_id) {
            Some(lock) => lock.holder == node_id,
            None => false,
        };
        if holds {
            self.remove_lock(entity_id);
            true
        } else {
            false
        }
    }

    /// Force release a lock, whoever holds it.
    pub fn force_release(&mut self, entity_id: u128)
        requires
            old(self).wf(),
        ensures
            final(self).wf(),
            final(self)@ == old(self)@.remove(entity_id),
    {
        self.remove_lock(entity_id);
    }

    /// Whether an entity counts as locked for `local_node_id` at `now`: a
    /// lock of its own never expires, another node's lock does.
    pub fn is_locked_at(&self, entity_id: u128, local_node_id: NodeId, now: u64) -> (r: bool)
        ensures
            r == lock_live(self@, entity_id, local_node_id, now),
    {
        match self.locks.get(&entity_id) {
            Some(lock) => lock.holder == local_node_id || !lock.is_expired_at(now),
            None => false,
        }
    }

    /// Whether an entity counts as locked for `local_node_id` now.
    pub fn is_locked(&self, entity_id: u128, local_node_id: NodeId) -> (r: bool)
        ensures
            exists|now: u64| r == lock_live(self@, entity_id, local_node_id, now),
    {
        let now = now_millis();
        let r = self.is_locked_at(entity_id, local_node_id, now);
        assert(r == lock_live(self@, entity_id, local_node_id, now));
        r
    }

    /// Whether `node_id` holds a lock on the entity that counts for
    /// `local_node_id` at `now`.
    pub fn is_locked_by_at(&self, entity_id: u128, node_id: NodeId, local_node_id: NodeId, now: u64) -> (r: bool)
        ensures
            r == (lock_live(self@, entity_id, local_node_id, now) && self@[entity_id].1 == node_id),
    {
        match self.locks.get(&entity_id) {
            Some(lock) => {
                if lock.holder != node_id {
                    false
                } else if lock.holder == local_node_id {
                    true
                } else {
                    !lock.is_expired_at(now)
                }
            },
            None => false,
        }
    }

    /// Whether `node_id` holds a lock on the entity that counts for
    /// `local_node_id` now.
    pub fn is_locked_by(&self, entity_id: u128, node_id: NodeId, local_node_id: NodeId) -> (r: bool)
        ensures
            exists|now: u64|
                r == (lock_live(self@, entity_id, local_node_id, now) && self@[entity_id].1 == node_id),
    {
        let now = now_millis();
        let r = self.is_locked_by_at(entity_id, node_id, local_node_id, now);
        assert(r == (lock_live(self@, entity_id, local_node_id, now) && self@[entity_id].1 == node_id));
        r
    }

    /// The holder of a lock that counts for `local_node_id` at `now`.
    pub fn get_holder_at(&self, entity_id: u128, local_node_id: NodeId, now: u64) -> (r: Option<NodeId>)
        ensures
            r == (if lock_live(self@, entity_id, local_node_id, now) {
                Some(self@[entity_id].1)
            } else {
                None
            }),
    {
        match self.locks.get(&entity_id) {
            Some(lock) => {
                if lock.holder == local_node_id || !lock.is_expired_at(now) {
                    Some(lock.holder)
                } else {
                    None
                }
            },
            None => None,
        }
    }

    /// The holder of a lock that counts for `local_node_id` now.
    pub fn get_holder(&self, entity_id: u128, local_node_id: NodeId) -> (r: Option<NodeId>)
        ensures
            exists|now: u64|
                r == (if lock_live(self@, entity_id, local_node_id, now) {
                    Some(self@[entity_id].1)
                } else {
                    None
                }),
    {
        let now = now_millis();
        let r = self.get_holder_at(entity_id, local_node_id, now);
        assert(r == (if lock_live(self@, entity_id, local_node_id, now) {
            Some(self@[entity_id].1)
        } else {
            None
        }));
        r
    }

    /// Renew the heartbeat of a lock held by `node_id` at `now`; false when
    /// there is no such lock.
    pub fn renew_heartbeat_at(&mut self, entity_id: u128, node_id: NodeId, now: u64) -> (r: bool)
        requires
            old(self).wf(),
        ensures
            final(self).wf(),
            r == (old(self)@.contains_key(entity_id) && old(self)@[entity_id].1 == node_id),
            final(self)@ == (if r {
                old(self)@.insert(
                    entity_id,
                    (old(self)@[entity_id].0, node_id, now, old(self)@[entity_id].3),
                )
            } else {
                old(self)@
            }),
    {
        let ghost m = self@;
        match self.locks.remove(&entity_id) {
            Some(lock) => {
                if lock.holder == node_id {
                    let mut renewed = lock;
                    renewed.renew_at(now);
                    self.locks.insert(entity_id, renewed);
                    proof {
                        assert(self@ =~= m.insert(entity_id, renewed@));
                        assert forall|n: NodeId| #[trigger] held_by(self@, n) == held_by(m, n) by {
                            lemma_held_same_holder(m, entity_id, renewed@, n);
                        }
                    }
                    true
                } else {
                    self.locks.insert(entity_id, lock);
                    assert(self@ =~= m);
                    false
                }
            },
            None => {
                assert(self@ =~= m);
                false
            },
        }
    }

    /// Renew the heartbeat of a lock held by `node_id` now.
    pub fn renew_heartbeat(&mut self, entity_id: u128, node_id: NodeId) -> (r: bool)
        requires
            old(self).wf(),
        ensures
            final(self).wf(),
            r == (old(self)@.contains_key(entity_id) && old(self)@[entity_id].1 == node_id),
            final(self)@.dom() == old(self)@.dom(),
            r ==> final(self)@[entity_id].1 == node_id,
    {
        let r = self.renew_heartbeat_at(entity_id, node_id, now_millis());
        assert(self@.dom() =~= old(self)@.dom());
        r
    }

    /// The entities among the locks that satisfy `keep`, each once.
    fn entities_where(&self, tag: u8, node: NodeId, now: u64) -> (r: Vec<u128>)
        ensures
            r@.no_duplicates(),
            forall|e: u128| r@.contains(e) <==> (self@.contains_key(e) && lock_selected(tag, self@[e], node, now)),
    {
        let mut out: Vec<u128> = Vec::new();
        let ghost v = vstd::std_specs::hash::spec_keys_iter(&self.locks).remaining();
        let ghost mut visited: int = 0;
        for k in it: self.locks.keys()
            invariant
                it.seq() == v,
                v == vstd::std_specs::hash::spec_keys_iter(&self.locks).remaining(),
                v.no_duplicates(),
                v.unref().to_set() == self.locks@.dom(),
                visited == it.index(),
                0 <= visited <= v.len(),
                out@.no_duplicates(),
                forall|e: u128|
                    out@.contains(e) <==> (self@.contains_key(e) && lock_selected(tag, self@[e], node, now) && exists|i: int|
                        0 <= i < visited && *v[i] == e),
        {
            proof {
                assert(v.unref()[visited] == *v[visited]);
                assert(v.unref().to_set().contains(*k));
            }
            let lock = self.locks.get(k).unwrap();
            let expired = lock.is_expired_at(now);
            let take = if tag == 0 {
                expired
            } else if tag == 1 {
                expired && lock.holder != node
            } else {
                !expired && lock.holder == node
            };
            assert(take == lock_selected(tag, self@[*k], node, now));
            let ghost before = out@;
            if take {
                proof {
                    if before.contains(*k) {
                        let i = choose|i: int| 0 <= i < visited && *v[i] == *k;
                        assert(v[i] == v[visited]);
                    }
                }
                out.push(*k);
            }
            proof {
                assert forall|e: u128|
                    out@.contains(e) <==> (self@.contains_key(e) && lock_selected(tag, self@[e], node, now) && exists|i: int|
                        0 <= i < visited + 1 && *v[i] == e) by {
                    if out@.contains(e) && out@.len() > before.len() {
                        let j = choose|j: int| 0 <= j < out@.len() && out@[j] == e;
                        if j < before.len() {
                            assert(before[j] == e);
                        }
                    }
                    if out@.contains(e) && out@.len() == before.len() {
                        assert(out@ == before);
                    }
                    if before.contains(e) {
                        let j = choose|j: int| 0 <= j < before.len() && before[j] == e;
                        assert(out@[j] == e);
                    }
                    if e == *k {
                        assert(*v[visited] == e);
                        if out@.len() > before.len() {
                            assert(out@[out@.len() - 1] == e);
                        }
                    } else if exists|i: int| 0 <= i < visited + 1 && *v[i] == e {
                        let i = choose|i: int| 0 <= i < visited + 1 && *v[i] == e;
                        assert(i < visited);
                    }
                }
                visited = visited + 1;
            }
        }
        proof {
            assert forall|e: u128| self@.contains_key(e) && lock_selected(tag, self@[e], node, now) implies out@.contains(e) by {
                assert(v.unref().to_set().contains(e));
                let i = choose|i: int| 0 <= i < v.unref().len() && v.unref()[i] == e;
                assert(*v[i] == e);
            }
        }
        out
    }

    /// The entities whose locks have expired at `now`, each once.
    pub fn get_expired_locks_at(&self, now: u64) -> (r: Vec<u128>)
        ensures
            r@.no_duplicates(),
            forall|e: u128| r@.contains(e) <==> (self@.contains_key(e) && lock_expired(self@[e], now)),
    {
        self.entities_where(0, 0, now)
    }

    /// The entities whose locks have expired now, each once.
    pub fn get_expired_locks(&self) -> (r: Vec<u128>)
        ensures
            r@.no_duplicates(),
            exists|now: u64| r@.to_set() == #[trigger] expired_locks(self@, now),
    {
        let now = now_millis();
        let r = self.get_expired_locks_at(now);
        assert(r@.to_set() =~= expired_locks(self@, now));
        r
    }

    /// The expired locks of nodes other than `local_node_id` at `now`: those
    /// that crash recovery releases.
    pub fn expired_remote_locks_at(&self, local_node_id: NodeId, now: u64) -> (r: Vec<u128>)
        ensures
            r@.no_duplicates(),
            forall|e: u128|
                r@.contains(e) <==> (self@.contains_key(e) && lock_expired(self@[e], now)
                    && self@[e].1 != local_node_id),
    {
        self.entities_where(1, local_node_id, now)
    }

    /// The live locks that `node_id` holds at `now`: those it sends
    /// heartbeats for.
    pub fn live_locks_of_at(&self, node_id: NodeId, now: u64) -> (r: Vec<u128>)
        ensures
            r@.no_duplicates(),
            forall|e: u128|
                r@.contains(e) <==> (self@.contains_key(e) && !lock_expired(self@[e], now)
                    && self@[e].1 == node_id),
    {
        self.entities_where(2, node_id, now)
    }

    /// The locks `node_id` holds on entities that are no longer selected:
    /// those released on deselection.
    pub fn locks_to_release(&self, node_id: NodeId, selected: &HashSet<u128>) -> (r: Vec<u128>)
        ensures
            r@.no_duplicates(),
            forall|e: u128|
                r@.contains(e) <==> (self@.contains_key(e) && self@[e].1 == node_id
                    && !selected@.contains(e)),
    {
        let mut out: Vec<u128> = Vec::new();
        let ghost v = vstd::std_specs::hash::spec_keys_iter(&self.locks).remaining();
        let ghost mut visited: int = 0;
        for k in it: self.locks.keys()
            invariant
                it.seq() == v,
                v == vstd::std_specs::hash::spec_keys_iter(&self.locks).remaining(),
                v.no_duplicates(),
                v.unref().to_set() == self.locks@.dom(),
                visited == it.index(),
                0 <= visited <= v.len(),
                out@.no_duplicates(),
                forall|e: u128|
                    out@.contains(e) <==> (self@.contains_key(e) && self@[e].1 == node_id
                        && !selected@.contains(e) && exists|i: int| 0 <= i < visited && *v[i] == e),
        {
            proof {
                assert(v.unref()[visited] == *v[visited]);
                assert(v.unref().to_set().contains(*k));
            }
            let lock = self.locks.get(k).unwrap();
            let take = lock.holder == node_id && !selected.contains(k);
            let ghost before = out@;
            if take {
                proof {
                    if before.contains(*k) {
                        let i = choose|i: int| 0 <= i < visited && *v[i] == *k;
                        assert(v[i] == v[visited]);
                    }
                }
                out.push(*k);
            }
            proof {
                assert forall|e: u128|
                    out@.contains(e) <==> (self@.contains_key(e) && self@[e].1 == node_id
                        && !selected@.contains(e) && exists|i: int| 0 <= i < visited + 1 && *v[i] == e) by {
                    if out@.contains(e) && out@.len() > before.len() {
                        let j = choose|j: int| 0 <= j < out@.len() && out@[j] == e;
                        if j < before.len() {
                            assert(before[j] == e);
                        }
                    }
                    if out@.contains(e) && out@.len() == before.len() {
                        assert(out@ == before);
                    }
                    if before.contains(e) {
                        let j = choose|j: int| 0 <= j < before.len() && before[j] == e;
                        assert(out@[j] == e);
                    }
                    if e == *k {
                        assert(*v[visited] == e);
                        if out@.len() > before.len() {
                            assert(out@[out@.len() - 1] == e);
                        }
                    } else if exists|i: int| 0 <= i < visited + 1 && *v[i] == e {
                        let i = choose|i: int| 0 <= i < visited + 1 && *v[i] == e;
                        assert(i < visited);
                    }
                }
                visited = visited + 1;
            }
        }
        proof {
            assert forall|e: u128|
                self@.contains_key(e) && self@[e].1 == node_id && !selected@.contains(e) implies out@.contains(e) by {
                assert(v.unref().to_set().contains(e));
                let i = choose|i: int| 0 <= i < v.unref().len() && v.unref()[i] == e;
                assert(*v[i] == e);
            }
        }
        out
    }

    /// Release the locks of the given entities, whoever holds them.
    fn release_all(&mut self, ids: &Vec<u128>)
        requires
            old(self).wf(),
        ensures
            final(self).wf(),
            final(self)@ == old(self)@.remove_keys(ids@.to_set()),
    {
        let mut i: usize = 0;
        while i < ids.len()
            invariant
                self.wf(),
                i <= ids@.len(),
                self@ == old(self)@.remove_keys(ids@.take(i as int).to_set()),
            decreases ids@.len() - i,
        {
            let ghost before = self@;
            self.force_release(ids[i]);
            proof {
                assert(ids@.take(i + 1) =~= ids@.take(i as int).push(ids@[i as int]));
                ids@.take(i as int).lemma_push_to_set_commute(ids@[i as int]);
                assert(self@ =~= old(self)@.remove_keys(ids@.take(i + 1).to_set()));
            }
            i = i + 1;
        }
        assert(ids@.take(ids@.len() as int) =~= ids@);
    }

    /// Renew at `now` the heartbeats of the given locks of `node_id`.
    fn renew_all_at(&mut self, ids: &Vec<u128>, node_id: NodeId, now: u64)
        requires
            old(self).wf(),
            forall|e: u128| #[trigger] ids@.contains(e) ==> old(self)@.contains_key(e) && old(self)@[e].1 == node_id,
        ensures
            final(self).wf(),
            final(self)@ == renewed(old(self)@, ids@.to_set(), now),
    {
        let mut i: usize = 0;
        while i < ids.len()
            invariant
                self.wf(),
                i <= ids@.len(),
                forall|e: u128| #[trigger] ids@.contains(e) ==> old(self)@.contains_key(e) && old(self)@[e].1 == node_id,
                self@ == renewed(old(self)@, ids@.take(i as int).to_set(), now),
            decreases ids@.len() - i,
        {
            let ghost before = self@;
            let e = ids[i];
            assert(ids@.contains(e));
            self.renew_heartbeat_at(e, node_id, now);
            proof {
                assert(ids@.take(i + 1) =~= ids@.take(i as int).push(e));
                ids@.take(i as int).lemma_push_to_set_commute(e);
                assert(self@ =~= renewed(old(self)@, ids@.take(i + 1).to_set(), now));
            }
            i = i + 1;
        }
        assert(ids@.take(ids@.len() as int) =~= ids@);
    }

    /// Crash recovery at `now`: release the expired locks of other nodes;
    /// returns the released entities, each once.
    pub fn release_expired_remote_locks_at(&mut self, local_node_id: NodeId, now: u64) -> (released: Vec<u128>)
        requires
            old(self).wf(),
        ensures
            final(self).wf(),
            released@.no_duplicates(),
            forall|e: u128|
                released@.contains(e) <==> (old(self)@.contains_key(e) && lock_expired(old(self)@[e], now)
                    && old(self)@[e].1 != local_node_id),
            final(self)@ == old(self)@.remove_keys(released@.to_set()),
    {
        let ids = self.expired_remote_locks_at(local_node_id, now);
        self.release_all(&ids);
        ids
    }

    /// Release the locks that `node_id` holds on entities no longer
    /// selected; returns the released entities, each once.
    pub fn release_deselected_locks(&mut self, node_id: NodeId, selected: &HashSet<u128>) -> (released: Vec<u128>)
        requires
            old(self).wf(),
        ensures
            final(self).wf(),
            released@.no_duplicates(),
            forall|e: u128|
                released@.contains(e) <==> (old(self)@.contains_key(e) && old(self)@[e].1 == node_id
                    && !selected@.contains(e)),
            final(self)@ == old(self)@.remove_keys(released@.to_set()),
    {
        let ids = self.locks_to_release(node_id, selected);
        self.release_all(&ids);
        ids
    }

    /// Renew at `now` the heartbeats of the live locks of `node_id`; returns
    /// the renewed entities (those to send heartbeats for), each once.
    pub fn renew_live_locks_at(&mut self, node_id: NodeId, now: u64) -> (renewed_ids: Vec<u128>)
        requires
            old(self).wf(),
        ensures
            final(self).wf(),
            renewed_ids@.no_duplicates(),
            forall|e: u128|
                renewed_ids@.contains(e) <==> (old(self)@.contains_key(e) && !lock_expired(old(self)@[e], now)
                    && old(self)@[e].1 == node_id),
            final(self)@ == renewed(old(self)@, renewed_ids@.to_set(), now),
    {
        let ids = self.live_locks_of_at(node_id, now);
        self.renew_all_at(&ids, node_id, now);
        ids
    }

    /// Number of locks held by a node.
    pub fn get_node_lock_count(&self, node_id: NodeId) -> (c: usize)
        requires
            self.wf(),
        ensures
            c == held_by(self@, node_id).len(),
    {
        self.count_of(node_id)
    }

    /// Total number of locks.
    pub fn total_locks(&self) -> (n: usize)
        ensures
            n == self@.dom().len(),
    {
        assert(self@.dom() =~= self.locks@.dom());
        self.locks.len()
    }

    /// Set a lock's timeout, in milliseconds.
    pub fn set_lock_timeout(&mut self, entity_id: u128, timeout: u64)
        requires
            old(self).wf(),
        ensures
            final(self).wf(),
            final(self)@ == (if old(self)@.contains_key(entity_id) {
                old(self)@.insert(
                    entity_id,
                    (old(self)@[entity_id].0, old(self)@[entity_id].1, old(self)@[entity_id].2, timeout),
                )
            } else {
                old(self)@
            }),
    {
        let ghost m = self@;
        match self.locks.remove(&entity_id) {
            Some(lock) => {
                let mut changed = lock;
                changed.timeout = timeout;
                self.locks.insert(entity_id, changed);
                proof {
                    assert(self@ =~= m.insert(entity_id, changed@));
                    assert forall|n: NodeId| #[trigger] held_by(self@, n) == held_by(m, n) by {
                        lemma_held_same_holder(m, entity_id, changed@, n);
                    }
                }
            },
            None => {
                assert(self@ =~= m);
            },
        }
    }

    /// Make a lock look expired by moving its heartbeat ten seconds back from
    /// `now`.
    pub fn expire_lock_at(&mut self, entity_id: u128, now: u64)
        requires
            old(self).wf(),
        ensures
            final(self).wf(),
            final(self)@ == heartbeat_moved_back(old(self)@, entity_id, now),
    {
        let ghost m = self@;
        let back = if now >= 10000 { now - 10000 } else { 0 };
        match self.locks.remove(&entity_id) {
            Some(lock) => {
                let mut changed = lock;
                changed.last_heartbeat = back;
                self.locks.insert(entity_id, changed);
                proof {
                    assert(self@ =~= m.insert(entity_id, changed@));
                    assert forall|n: NodeId| #[trigger] held_by(self@, n) == held_by(m, n) by {
                        lemma_held_same_holder(m, entity_id, changed@, n);
                    }
                }
            },
            None => {
                assert(self@ =~= m);
            },
        }
    }

    /// Make a lock look expired by moving its heartbeat ten seconds back.
    pub fn expire_lock_for_testing(&mut self, entity_id: u128)
        requires
            old(self).wf(),
        ensures
            final(self).wf(),
            exists|now: u64| final(self)@ == #[trigger] heartbeat_moved_back(old(self)@, entity_id, now),
    {
        let now = now_millis();
        self.expire_lock_at(entity_id, now);
    }
}

impl Default for EntityLockRegistry {
    fn default() -> (r: Self)
        ensures
            r@ == Map::<u128, LockView>::empty(),
    {
        EntityLockRegistry::new()
    }
}

/// A live lock of another node refuses every acquisition: the lock stays
/// with its holder, and the answer names it.
pub proof fn lemma_live_lock_excludes(m: LockMap, e: u128, n: NodeId, now: u64)
    requires
        m.contains_key(e),
        !lock_expired(m[e], now),
    ensures
        acquire_outcome(m, e, n, now) == (Err::<(), NodeId>(m[e].1), m),
{
}

/// A successful acquisition leaves the entity locked by the acquiring node
/// with a fresh heartbeat, live for every observer until its timeout.
pub proof fn lemma_acquire_then_locked(m: LockMap, e: u128, n: NodeId, now: u64, local: NodeId)
    requires
        acquire_outcome(m, e, n, now).0 is Ok,
    ensures
        acquire_outcome(m, e, n, now).1.contains_key(e),
        acquire_outcome(m, e, n, now).1[e].1 == n,
        lock_live(acquire_outcome(m, e, n, now).1, e, local, now),
{
}

/// Acquisition never lets a node hold more than `MAX_LOCKS_PER_NODE` locks.
pub proof fn lemma_acquire_respects_limit(m: LockMap, e: u128, n: NodeId, now: u64, k: NodeId)
    requires
        m.dom().finite(),
        held_by(m, k).len() <= MAX_LOCKS_PER_NODE,
    ensures
        held_by(acquire_outcome(m, e, n, now).1, k).len() <= MAX_LOCKS_PER_NODE,
{
    if m.contains_key(e) && !lock_expired(m[e], now) {
    } else {
        let base = m.remove(e);
        if m.contains_key(e) {
            lemma_held_remove(m, e, k);
        } else {
            assert(base =~= m);
        }
        if held_by(base, n).len() < MAX_LOCKS_PER_NODE {
            lemma_held_insert(base, e, (e, n, now, LOCK_TIMEOUT), k);
        }
    }
}

/// A released lock no longer counts as locked for anyone.
pub proof fn lemma_release_unlocks(m: LockMap, e: u128, local: NodeId, now: u64)
    ensures
        !lock_live(m.remove(e), e, local, now),
{
}

/// After the release on deselection, every lock that the node still holds is
/// on a selected entity, and the locks of other nodes are untouched.
pub proof fn lemma_deselection_keeps_selected(m: LockMap, node: NodeId, selected: Set<u128>, released: Set<u128>)
    requires
        forall|e: u128| released.contains(e) <==> (m.contains_key(e) && m[e].1 == node && !selected.contains(e)),
    ensures
        forall|e: u128|
            #[trigger] m.remove_keys(released).contains_key(e) && m.remove_keys(released)[e].1 == node
                ==> selected.contains(e),
        forall|e: u128|
            m.contains_key(e) && m[e].1 != node ==> #[trigger] m.remove_keys(released).contains_key(e)
                && m.remove_keys(released)[e] == m[e],
{
}

/// After crash recovery at `now`, no lock of another node is expired at
/// `now`, and the node's own locks are untouched.
pub proof fn lemma_recovery_clears_expired(m: LockMap, local: NodeId, now: u64, released: Set<u128>)
    requires
        forall|e: u128|
            released.contains(e) <==> (m.contains_key(e) && lock_expired(m[e], now) && m[e].1 != local),
    ensures
        forall|e: u128|
            #[trigger] m.remove_keys(released).contains_key(e) && m.remove_keys(released)[e].1 != local
                ==> !lock_expired(m.remove_keys(released)[e], now),
        forall|e: u128|
            m.contains_key(e) && m[e].1 == local ==> #[trigger] m.remove_keys(released).contains_key(e),
{
}

} // verus!
