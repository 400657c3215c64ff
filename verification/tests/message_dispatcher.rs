use libmarathon::networking::apply_ops::DeltaOutcome;
use libmarathon::networking::delta_generation::NodeVectorClock;
use libmarathon::networking::message_dispatcher::{dispatch_message_at, Dispatched, SyncNode};
use libmarathon::networking::messages::{NonceCounter, SyncMessage};
use libmarathon::networking::operations::ComponentOp;
use libmarathon::networking::tombstones::TombstoneRegistry;
use libmarathon::networking::vector_clock::VectorClock;
use libmarathon::networking::locks::{EntityLockRegistry, LockMessage};
use libmarathon::networking::message_dispatcher::{
    admit_join_request,
    choose_join_response,
    dispatch_lock_message,
    dispatch_lock_message_at,
    JoinAdmission,
    JoinResponse,
    MAX_REJOIN_DELTAS,
};
use libmarathon::networking::messages::JoinType;

#[test]
fn join_admission_follows_configured_secret() {
    assert_eq!(admit_join_request(false, false, false), JoinAdmission::Admitted);
    assert_eq!(admit_join_request(false, true, false), JoinAdmission::Admitted);
    assert_eq!(admit_join_request(true, false, false), JoinAdmission::MissingSecret);
    assert_eq!(admit_join_request(true, true, false), JoinAdmission::InvalidSecret);
    assert_eq!(admit_join_request(true, true, true), JoinAdmission::Admitted);
}

#[test]
fn fresh_join_gets_full_state() {
    assert_eq!(choose_join_response(JoinType::Fresh, true, 0), JoinResponse::FullState);
    assert_eq!(choose_join_response(JoinType::Fresh, false, 0), JoinResponse::FullState);
}

#[test]
fn rejoin_gets_deltas_below_threshold() {
    let rejoin = JoinType::Rejoin { last_active: 1234567890, entity_count: 42 };
    assert_eq!(MAX_REJOIN_DELTAS, 1000);
    assert_eq!(choose_join_response(rejoin, true, 0), JoinResponse::MissingDeltas);
    assert_eq!(choose_join_response(rejoin, true, 999), JoinResponse::MissingDeltas);
    assert_eq!(choose_join_response(rejoin, true, 1000), JoinResponse::FullState);
    assert_eq!(choose_join_response(rejoin, true, 1001), JoinResponse::FullState);
    assert_eq!(choose_join_response(rejoin, false, 0), JoinResponse::FullState);
}

#[test]
fn lock_messages_update_registry_and_answer() {
    let mut registry = EntityLockRegistry::new();
    let (entity, a, b) = (7u128, 1u128, 2u128);
    let now = 1_000_000u64;

    let reply = dispatch_lock_message_at(&mut registry, LockMessage::LockRequest { entity_id: entity, node_id: a }, now);
    assert_eq!(reply, Some(LockMessage::LockAcquired { entity_id: entity, holder: a }));

    let reply = dispatch_lock_message_at(&mut registry, LockMessage::LockRequest { entity_id: entity, node_id: b }, now + 1);
    assert_eq!(
        reply,
        Some(LockMessage::LockRejected { entity_id: entity, requester: b, current_holder: a })
    );

    let reply = dispatch_lock_message_at(&mut registry, LockMessage::LockHeartbeat { entity_id: entity, holder: a }, now + 2);
    assert_eq!(reply, None);
    assert!(registry.is_locked_by_at(entity, a, b, now + 2 + 4999));

    let reply = dispatch_lock_message_at(&mut registry, LockMessage::LockRelease { entity_id: entity, node_id: b }, now + 3);
    assert_eq!(reply, None);
    assert_eq!(registry.total_locks(), 1);

    let reply = dispatch_lock_message_at(&mut registry, LockMessage::LockRelease { entity_id: entity, node_id: a }, now + 4);
    assert_eq!(reply, Some(LockMessage::LockReleased { entity_id: entity }));
    assert_eq!(registry.total_locks(), 0);

    let reply = dispatch_lock_message_at(&mut registry, LockMessage::LockReleased { entity_id: entity }, now + 5);
    assert_eq!(reply, None);
    let reply = dispatch_lock_message_at(&mut registry, LockMessage::LockAcquired { entity_id: entity, holder: b }, now + 6);
    assert_eq!(reply, None);
    assert_eq!(registry.total_locks(), 0);
}

#[test]
fn lock_request_now_is_acquired() {
    let mut registry = EntityLockRegistry::new();
    let reply = dispatch_lock_message(&mut registry, LockMessage::LockRequest { entity_id: 3, node_id: 9 });
    assert_eq!(reply, Some(LockMessage::LockAcquired { entity_id: 3, holder: 9 }));
    assert!(registry.is_locked(3, 9));
}

#[test]
fn session_secret_keeps_its_bytes() {
    let secret = libmarathon::networking::plugin::SessionSecret::new(b"my_secret_key".to_vec());
    assert_eq!(secret.as_bytes(), b"my_secret_key");
    assert_eq!(secret.clone(), secret);
}

#[test]
fn dispatcher_composes_the_per_message_decisions() {
    let mut node = SyncNode {
        node_clock: NodeVectorClock::new(1),
        tombstones: TombstoneRegistry::new(),
        locks: EntityLockRegistry::new(),
        nonce: NonceCounter::new(),
    };
    let now = 1_000_000u64;

    // A lock request is granted and answered.
    let out = dispatch_message_at(&mut node, SyncMessage::Lock(LockMessage::LockRequest { entity_id: 7, node_id: 2 }), false, false, 0, now);
    match out {
        Dispatched::Lock(Some(m)) => {
            assert!(matches!(m.message, SyncMessage::Lock(LockMessage::LockAcquired { entity_id: 7, holder: 2 })))
        },
        _ => panic!("Expected a lock reply"),
    }
    assert!(node.locks.is_locked_by_at(7, 2, 1, now));
    assert_eq!(node.nonce.next, 1);

    // A delete delta records a tombstone and merges the clock.
    let mut clock = VectorClock::new();
    clock.increment(2);
    let delete = SyncMessage::EntityDelta {
        entity_id: 9,
        node_id: 2,
        vector_clock: clock.clone(),
        operations: vec![ComponentOp::Delete { vector_clock: clock.clone() }],
    };
    match dispatch_message_at(&mut node, delete, false, false, 0, now) {
        Dispatched::Delta(o) => assert_eq!(o, DeltaOutcome::EntityDeleted),
        _ => panic!("Expected a delta outcome"),
    }
    assert!(node.tombstones.is_deleted(9));
    assert_eq!(node.node_clock.clock.get(2), 1);

    // A stale update of the deleted entity is ignored.
    let stale = SyncMessage::EntityDelta { entity_id: 9, node_id: 3, vector_clock: VectorClock::new(), operations: vec![] };
    match dispatch_message_at(&mut node, stale, false, false, 0, now) {
        Dispatched::Delta(o) => assert_eq!(o, DeltaOutcome::Ignored),
        _ => panic!("Expected a delta outcome"),
    }

    // A rejoin missing exactly the threshold gets the full state.
    let join = SyncMessage::JoinRequest {
        node_id: 4,
        session_id: libmarathon::networking::session::SessionId::new(),
        session_secret: None,
        last_known_clock: Some(VectorClock::new()),
        join_type: JoinType::Rejoin { last_active: 1, entity_count: 1 },
    };
    match dispatch_message_at(&mut node, join, false, false, MAX_REJOIN_DELTAS, now) {
        Dispatched::Join { admission, response } => {
            assert_eq!(admission, JoinAdmission::Admitted);
            assert_eq!(response, Some(JoinResponse::FullState));
        },
        _ => panic!("Expected a join decision"),
    }
}
