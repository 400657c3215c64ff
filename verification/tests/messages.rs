use libmarathon::networking::locks::LockMessage;
use libmarathon::networking::messages::{
    ComponentData, EntityDelta, JoinType, NonceCounter, SyncMessage, VersionedMessage, BLOB_THRESHOLD,
    CURRENT_VERSION,
};
use libmarathon::networking::session::SessionId;
use libmarathon::networking::vector_clock::VectorClock;

#[test]
fn test_versioned_message_creation() {
    let node_id = uuid::Uuid::new_v4().as_u128();
    let session_id = SessionId::new();
    let message = SyncMessage::JoinRequest {
        node_id,
        session_id,
        session_secret: None,
        last_known_clock: None,
        join_type: JoinType::Fresh,
    };

    let versioned = VersionedMessage::new(message, &mut NonceCounter::new());
    assert_eq!(versioned.version, CURRENT_VERSION);
}

#[test]
fn test_component_data_inline() {
    let data = vec![1, 2, 3, 4];
    let component_data = ComponentData::new(data.clone());

    assert!(!component_data.is_blob());
    assert_eq!(component_data.as_inline(), Some(data.as_slice()));
}

#[test]
fn test_component_data_blob() {
    let data = vec![0u8; BLOB_THRESHOLD + 1];
    let component_data = ComponentData::new(data.clone());

    assert!(component_data.is_blob());
    assert_eq!(component_data.as_inline(), None);
}

#[test]
fn test_entity_delta_creation() {
    let entity_id = uuid::Uuid::new_v4().as_u128();
    let node_id = uuid::Uuid::new_v4().as_u128();
    let vector_clock = VectorClock::new();

    let delta = EntityDelta::new(entity_id, node_id, vector_clock.clone(), vec![]);

    assert_eq!(delta.entity_id, entity_id);
    assert_eq!(delta.node_id, node_id);
    assert_eq!(delta.vector_clock, vector_clock);
}

#[test]
fn component_data_at_threshold_stays_inline() {
    let data = vec![7u8; BLOB_THRESHOLD];
    let component_data = ComponentData::new(data.clone());
    assert!(!component_data.is_blob());
    assert_eq!(component_data.as_blob_ref(), None);
    let big = ComponentData::new(vec![0u8; BLOB_THRESHOLD + 5]);
    assert_eq!(big.as_blob_ref(), Some((&[][..], (BLOB_THRESHOLD + 5) as u64)));
}

#[test]
fn versioned_message_nonce_only_for_locks() {
    let delta = EntityDelta::new(1, 2, VectorClock::new(), vec![]).into_message();
    let m = VersionedMessage::new(delta, &mut NonceCounter::new());
    assert_eq!(m.nonce, 0);
    let lock = SyncMessage::Lock(LockMessage::LockHeartbeat { entity_id: 1, holder: 2 });
    let a = VersionedMessage::with_nonce_inputs(lock.clone(), 5, 6);
    let b = VersionedMessage::with_nonce_inputs(lock, 5, 6);
    assert_eq!(a.nonce, b.nonce);
    let mut hasher = rustc_hash::FxHasher::default();
    std::hash::Hasher::write_u32(&mut hasher, 5);
    std::hash::Hasher::write_u32(&mut hasher, 6);
    assert_eq!(a.nonce, std::hash::Hasher::finish(&hasher) as u32);
}

#[test]
fn entity_delta_into_message_keeps_content() {
    let mut clock = VectorClock::new();
    clock.increment(4);
    let delta = EntityDelta::new(11, 4, clock.clone(), vec![]);
    match delta.into_message() {
        SyncMessage::EntityDelta { entity_id, node_id, vector_clock, operations } => {
            assert_eq!(entity_id, 11);
            assert_eq!(node_id, 4);
            assert_eq!(vector_clock, clock);
            assert!(operations.is_empty());
        },
        _ => panic!("expected an entity delta"),
    }
}

#[test]
fn join_type_rejoin_holds_metadata() {
    let join_type = JoinType::Rejoin { last_active: 1234567890, entity_count: 42 };
    match join_type {
        JoinType::Rejoin { last_active, entity_count } => {
            assert_eq!(last_active, 1234567890);
            assert_eq!(entity_count, 42);
        },
        JoinType::Fresh => panic!("Expected Rejoin"),
    }
}

#[test]
fn lock_nonces_follow_the_counter() {
    let mut counter = NonceCounter::new();
    let lock = SyncMessage::Lock(LockMessage::LockHeartbeat { entity_id: 1, holder: 2 });
    let a = VersionedMessage::new(lock.clone(), &mut counter);
    assert_eq!(counter.next, 1);
    let b = VersionedMessage::new(lock, &mut counter);
    assert_eq!(counter.next, 2);
    assert_ne!(a.nonce, b.nonce);
    let delta = EntityDelta::new(1, 2, VectorClock::new(), vec![]).into_message();
    let c = VersionedMessage::new(delta, &mut counter);
    assert_eq!(c.nonce, 0);
    assert_eq!(counter.next, 2);
    let mut last = NonceCounter { next: u32::MAX };
    VersionedMessage::new(SyncMessage::Lock(LockMessage::LockReleased { entity_id: 3 }), &mut last);
    assert_eq!(last.next, 0);
}

#[test]
fn lock_nonce_is_the_fx_hash_of_counter_and_time() {
    let lock = SyncMessage::Lock(LockMessage::LockHeartbeat { entity_id: 1, holder: 2 });
    let m = VersionedMessage::with_nonce_inputs(lock, 5, 6);
    let mut hasher = rustc_hash::FxHasher::default();
    std::hash::Hasher::write_u32(&mut hasher, 5);
    std::hash::Hasher::write_u32(&mut hasher, 6);
    assert_eq!(m.nonce, std::hash::Hasher::finish(&hasher) as u32);
    if usize::BITS == 64 {
        let k: u64 = 0xf1357aea2e62a9c5;
        let h = (5u64.wrapping_mul(k).wrapping_add(6)).wrapping_mul(k).rotate_left(26);
        assert_eq!(m.nonce, h as u32);
    }
}
