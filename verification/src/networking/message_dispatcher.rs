//! The decisions a node takes on a received message: whether a join request
//! is admitted and what answers it, and what a lock message does to the lock
//! registry and which lock message goes back out.

use vstd::prelude::*;

use crate::networking::apply_ops::{admit_entity_delta_at, first_delete_clock, DeltaOutcome};
use crate::networking::delta_generation::NodeVectorClock;
use crate::networking::join_protocol::{apply_full_state_at, full_state_tombstones, is_live};
use crate::networking::locks::{acquire_outcome, EntityLockRegistry, LockMap, LockMessage};
use crate::networking::messages::{
    counter_step, message_nonce, EntityDelta, EntityState, JoinType, NonceCounter, SyncMessage, VersionedMessage,
};
use crate::networking::tombstones::{ignores_operation, recorded_deletion, TombstoneRegistry, TombstoneView};
use crate::networking::vector_clock::clock_join;
use crate::ids::NodeId;
use crate::time::now_millis;

verus! {

/// A rejoining node that misses fewer than this many deltas receives them;
/// from this many on, it receives the full state.
pub const MAX_REJOIN_DELTAS: usize = 1000;

/// Whether a join request is admitted.
#[derive(Clone, Copy, PartialEq, Eq, Structural, Debug)]
pub enum JoinAdmission {
    /// The request is answered.
    Admitted,
    /// A secret is configured and the request carries a wrong one.
    InvalidSecret,
    /// A secret is configured and the request carries none.
    MissingSecret,
}

/// How a join request is answered.
#[derive(Clone, Copy, PartialEq, Eq, Structural, Debug)]
pub enum JoinResponse {
    /// With the whole world state.
    FullState,
    /// With the deltas the joining node misses.
    MissingDeltas,
}

/// Admission of a join request. Without a configured secret every request is
/// admitted, with or without a secret of its own; with one, the request must
/// carry a secret and the secret must be valid.
pub fn admit_join_request(
    secret_configured: bool,
    secret_provided: bool,
    provided_secret_valid: bool,
) -> (a: JoinAdmission)
    ensures
        a == (if !secret_configured {
            JoinAdmission::Admitted
        } else if !secret_provided {
            JoinAdmission::MissingSecret
        } else if !provided_secret_valid {
            JoinAdmission::InvalidSecret
        } else {
            JoinAdmission::Admitted
        }),
{
    if !secret_configured {
        JoinAdmission::Admitted
    } else if !secret_provided {
        JoinAdmission::MissingSecret
    } else if !provided_secret_valid {
        JoinAdmission::InvalidSecret
    } else {
        JoinAdmission::Admitted
    }
}

/// The answer to an admitted join request. A fresh join, or a join without a
/// last known clock, gets the full state; a rejoin with a clock gets the
/// deltas it misses when they are fewer than `MAX_REJOIN_DELTAS`, the full
/// state otherwise.
pub fn choose_join_response(join_type: JoinType, has_last_known_clock: bool, missing_deltas: usize) -> (r:
    JoinResponse)
    ensures
        r == (if join_type is Rejoin && has_last_known_clock && missing_deltas
            < MAX_REJOIN_DELTAS {
            JoinResponse::MissingDeltas
        } else {
            JoinResponse::FullState
        }),
{
    match join_type {
        JoinType::Rejoin { .. } => if has_last_known_clock && missing_deltas < MAX_REJOIN_DELTAS {
            JoinResponse::MissingDeltas
        } else {
            JoinResponse::FullState
        },
        JoinType::Fresh => JoinResponse::FullState,
    }
}

/// What a received lock message does to the locks at time `now`, and the lock
/// message the node broadcasts in answer.
///
/// A lock request is tried: it is answered `LockAcquired` when the lock was
/// taken, `LockRejected` with the refusing holder otherwise. A heartbeat
/// renews the lock of its holder. A release by the holder removes the lock and
/// is answered `LockReleased`. The confirmations change nothing.
pub open spec fn lock_dispatch(m: LockMap, msg: LockMessage, now: u64) -> (LockMap, Option<LockMessage>) {
    match msg {
        LockMessage::LockRequest { entity_id, node_id } => {
            let (r, after) = acquire_outcome(m, entity_id, node_id, now);
            (
                after,
                Some(
                    match r {
                        Ok(()) => LockMessage::LockAcquired { entity_id, holder: node_id },
                        Err(holder) => LockMessage::LockRejected {
                            entity_id,
                            requester: node_id,
                            current_holder: holder,
                        },
                    },
                ),
            )
        },
        LockMessage::LockHeartbeat { entity_id, holder } => (
            if m.contains_key(entity_id) && m[entity_id].1 == holder {
                m.insert(entity_id, (m[entity_id].0, holder, now, m[entity_id].3))
            } else {
                m
            },
            None,
        ),
        LockMessage::LockRelease { entity_id, node_id } => if m.contains_key(entity_id)
            && m[entity_id].1 == node_id {
            (m.remove(entity_id), Some(LockMessage::LockReleased { entity_id }))
        } else {
            (m, None)
        },
        _ => (m, None),
    }
}

/// Handle a received lock message at time `now`; returns the lock message to
/// broadcast in answer, if any.
pub fn dispatch_lock_message_at(registry: &mut EntityLockRegistry, msg: LockMessage, now: u64) -> (reply:
    Option<LockMessage>)
    requires
        old(registry).wf(),
    ensures
        final(registry).wf(),
        (final(registry)@, reply) == lock_dispatch(old(registry)@, msg, now),
{
    match msg {
        LockMessage::LockRequest { entity_id, node_id } => {
            match registry.try_acquire_at(entity_id, node_id, now) {
                Ok(()) => Some(LockMessage::LockAcquired { entity_id, holder: node_id }),
                Err(current_holder) => Some(
                    LockMessage::LockRejected { entity_id, requester: node_id, current_holder },
                ),
            }
        },
        LockMessage::LockHeartbeat { entity_id, holder } => {
            registry.renew_heartbeat_at(entity_id, holder, now);
            None
        },
        LockMessage::LockRelease { entity_id, node_id } => {
            if registry.release(entity_id, node_id) {
                Some(LockMessage::LockReleased { entity_id })
            } else {
                None
            }
        },
        _ => None,
    }
}

/// Handle a received lock message now.
pub fn dispatch_lock_message(registry: &mut EntityLockRegistry, msg: LockMessage) -> (reply: Option<
    LockMessage,
>)
    requires
        old(registry).wf(),
    ensures
        final(registry).wf(),
        exists|now: u64| (final(registry)@, reply) == lock_dispatch(old(registry)@, msg, now),
{
    let now = now_millis();
    let reply = dispatch_lock_message_at(registry, msg, now);
    assert((registry@, reply) == lock_dispatch(old(registry)@, msg, now));
    reply
}

/// Every lock request is answered, and an answer `LockAcquired` means that
/// the requester now holds the lock, with a fresh heartbeat.
pub proof fn lemma_lock_request_answered(m: LockMap, entity_id: u128, node_id: NodeId, now: u64)
    ensures
        lock_dispatch(m, LockMessage::LockRequest { entity_id, node_id }, now).1 is Some,
        lock_dispatch(m, LockMessage::LockRequest { entity_id, node_id }, now).1 == Some(
            LockMessage::LockAcquired { entity_id, holder: node_id },
        ) ==> lock_dispatch(m, LockMessage::LockRequest { entity_id, node_id }, now).0.contains_key(
            entity_id,
        ) && lock_dispatch(m, LockMessage::LockRequest { entity_id, node_id }, now).0[entity_id].1
            == node_id && lock_dispatch(
            m,
            LockMessage::LockRequest { entity_id, node_id },
            now,
        ).0[entity_id].2 == now,
{
}

/// Only the holder's release is confirmed, and a confirmed release leaves the
/// entity unlocked.
pub proof fn lemma_release_confirmed_by_holder(m: LockMap, entity_id: u128, node_id: NodeId, now: u64)
    ensures
        (lock_dispatch(m, LockMessage::LockRelease { entity_id, node_id }, now).1 is Some) == (
        m.contains_key(entity_id) && m[entity_id].1 == node_id),
        !lock_dispatch(m, LockMessage::LockRelease { entity_id, node_id }, now).0.contains_key(
            entity_id,
        ) || lock_dispatch(m, LockMessage::LockRelease { entity_id, node_id }, now).1 is None,
{
}


/// A received heartbeat from the holder of a lock renews it: the lock stays
/// with its holder, its last heartbeat becomes the time of the message, and
/// it is live for every observer until its timeout has run from then; other
/// locks are untouched and nothing is answered. A heartbeat from anyone else
/// changes nothing.
pub proof fn lemma_heartbeat_renews(m: LockMap, entity_id: u128, holder: NodeId, now: u64)
    ensures
        ({
            let (after, reply) = lock_dispatch(m, LockMessage::LockHeartbeat { entity_id, holder }, now);
            &&& reply is None
            &&& forall|e: u128| e != entity_id ==> after.contains_key(e) == m.contains_key(e) && (
                m.contains_key(e) ==> #[trigger] after[e] == m[e])
            &&& after.contains_key(entity_id) == m.contains_key(entity_id)
            &&& m.contains_key(entity_id) && m[entity_id].1 == holder ==> {
                &&& after[entity_id] == (m[entity_id].0, holder, now, m[entity_id].3)
                &&& forall|observer: NodeId, t: u64|
                    now <= t < now + m[entity_id].3 ==> #[trigger] crate::networking::locks::lock_live(
                        after,
                        entity_id,
                        observer,
                        t,
                    )
            }
            &&& !(m.contains_key(entity_id) && m[entity_id].1 == holder) ==> after == m
        }),
{
}

/// The replicated state a node keeps while it receives messages: its clock,
/// its entity tombstones and the entity locks.
pub struct SyncNode {
    /// The node's identity and vector clock.
    pub node_clock: NodeVectorClock,
    /// Tombstones of deleted entities.
    pub tombstones: TombstoneRegistry,
    /// Entity locks.
    pub locks: EntityLockRegistry,
    /// The counter of the node's lock messages.
    pub nonce: NonceCounter,
}

/// What handling a received message decided.
pub enum Dispatched {
    /// An entity delta: what is done with the entity.
    Delta(DeltaOutcome),
    /// A full state: the entities that are not deleted, to be spawned.
    FullState(Vec<EntityState>),
    /// A join request: whether it is admitted and, if so, how it is answered.
    Join { admission: JoinAdmission, response: Option<JoinResponse> },
    /// A lock message: the lock message broadcast in answer, if any.
    Lock(Option<VersionedMessage>),
    /// A request for, or a batch of, logged operations: left to the
    /// operation log.
    OperationLog,
}

/// The tombstones after admitting a delta of `entity_id` from `node_id`
/// stamped `clock` with operations `ops` at time `now`, and what is done with
/// it: a `Delete` operation records a tombstone and deletes the entity; any
/// other delta is ignored when a tombstone says so, applied otherwise.
pub open spec fn delta_step(
    m: Map<u128, TombstoneView>,
    entity_id: u128,
    node_id: NodeId,
    clock: Map<NodeId, u64>,
    ops: Seq<crate::networking::operations::ComponentOp>,
    now: u64,
) -> (Map<u128, TombstoneView>, DeltaOutcome) {
    match first_delete_clock(ops) {
        Some(c) => (recorded_deletion(m, entity_id, node_id, c, now), DeltaOutcome::EntityDeleted),
        None => (m, if ignores_operation(m, entity_id, clock) {
            DeltaOutcome::Ignored
        } else {
            DeltaOutcome::Apply
        }),
    }
}

/// Handle a received message at time `now`, as the node's message
/// dispatcher does: an entity delta is admitted against the tombstones, a
/// full state is merged, a join request is admitted (given whether a secret
/// is configured and whether the one it carries is valid) and answered
/// (given how many deltas the requester misses), and a lock message updates
/// the locks and may be answered. Every message that carries a clock merges
/// it into the node's clock; nothing else changes.
pub fn dispatch_message_at(
    node: &mut SyncNode,
    message: SyncMessage,
    secret_configured: bool,
    provided_secret_valid: bool,
    missing_deltas: usize,
    now: u64,
) -> (out: Dispatched)
    requires
        old(node).locks.wf(),
    ensures
        final(node).locks.wf(),
        final(node).node_clock.node_id == old(node).node_clock.node_id,
        match message {
            SyncMessage::EntityDelta { entity_id, node_id, vector_clock, operations } => {
                let (t, o) = delta_step(
                    old(node).tombstones@,
                    entity_id,
                    node_id,
                    vector_clock@,
                    operations@,
                    now,
                );
                &&& out == Dispatched::Delta(o)
                &&& final(node).tombstones@ == t
                &&& final(node).node_clock.clock@ == clock_join(old(node).node_clock.clock@, vector_clock@)
                &&& final(node).locks@ == old(node).locks@
                &&& final(node).nonce == old(node).nonce
            },
            SyncMessage::FullState { entities, vector_clock } => {
                &&& out matches Dispatched::FullState(live) && live@ == entities@.filter(
                    |e: EntityState| is_live(e),
                )
                &&& final(node).tombstones@ == full_state_tombstones(old(node).tombstones@, entities@, now)
                &&& final(node).node_clock.clock@ == clock_join(old(node).node_clock.clock@, vector_clock@)
                &&& final(node).locks@ == old(node).locks@
                &&& final(node).nonce == old(node).nonce
            },
            SyncMessage::JoinRequest { session_secret, last_known_clock, join_type, .. } => {
                let admission = if !secret_configured {
                    JoinAdmission::Admitted
                } else if session_secret is None {
                    JoinAdmission::MissingSecret
                } else if !provided_secret_valid {
                    JoinAdmission::InvalidSecret
                } else {
                    JoinAdmission::Admitted
                };
                &&& out == (Dispatched::Join {
                    admission,
                    response: if admission == JoinAdmission::Admitted {
                        Some(
                            if join_type is Rejoin && last_known_clock is Some && missing_deltas
                                < MAX_REJOIN_DELTAS {
                                JoinResponse::MissingDeltas
                            } else {
                                JoinResponse::FullState
                            },
                        )
                    } else {
                        None
                    },
                })
                &&& final(node).tombstones@ == old(node).tombstones@
                &&& final(node).node_clock.clock@ == old(node).node_clock.clock@
                &&& final(node).locks@ == old(node).locks@
                &&& final(node).nonce == old(node).nonce
            },
            SyncMessage::Lock(msg) => {
                let (l, reply) = lock_dispatch(old(node).locks@, msg, now);
                &&& out matches Dispatched::Lock(r) && (r is Some <==> reply is Some) && (r matches Some(
                    v,
                ) ==> v.message == SyncMessage::Lock(reply->0) && exists|millis: u32|
                    v.nonce == #[trigger] message_nonce(v.message, old(node).nonce.next, millis))
                &&& final(node).nonce.next == (if reply is Some {
                    counter_step(old(node).nonce.next)
                } else {
                    old(node).nonce.next
                })
                &&& final(node).locks@ == l
                &&& final(node).tombstones@ == old(node).tombstones@
                &&& final(node).node_clock.clock@ == old(node).node_clock.clock@
            },
            _ => {
                &&& out == Dispatched::OperationLog
                &&& final(node).tombstones@ == old(node).tombstones@
                &&& final(node).node_clock.clock@ == old(node).node_clock.clock@
                &&& final(node).locks@ == old(node).locks@
                &&& final(node).nonce == old(node).nonce
            },
        },
{
    match message {
        SyncMessage::EntityDelta { entity_id, node_id, vector_clock, operations } => {
            let delta = EntityDelta { entity_id, node_id, vector_clock, operations };
            let o = admit_entity_delta_at(&delta, &mut node.node_clock, &mut node.tombstones, now);
            Dispatched::Delta(o)
        },
        SyncMessage::FullState { entities, vector_clock } => {
            let live = apply_full_state_at(
                entities,
                &vector_clock,
                &mut node.node_clock,
                &mut node.tombstones,
                now,
            );
            Dispatched::FullState(live)
        },
        SyncMessage::JoinRequest { session_secret, last_known_clock, join_type, .. } => {
            let admission = admit_join_request(
                secret_configured,
                session_secret.is_some(),
                provided_secret_valid,
            );
            let response = if admission == JoinAdmission::Admitted {
                Some(choose_join_response(join_type, last_known_clock.is_some(), missing_deltas))
            } else {
                None
            };
            Dispatched::Join { admission, response }
        },
        SyncMessage::Lock(msg) => {
            let reply = dispatch_lock_message_at(&mut node.locks, msg, now);
            match reply {
                Some(r) => Dispatched::Lock(Some(VersionedMessage::new(SyncMessage::Lock(r), &mut node.nonce))),
                None => Dispatched::Lock(None),
            }
        },
        _ => Dispatched::OperationLog,
    }
}

} // verus!
