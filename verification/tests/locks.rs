use libmarathon::networking::locks::{EntityLockRegistry, LockMessage, LOCK_TIMEOUT, MAX_LOCKS_PER_NODE};

#[test]
fn test_lock_acquisition() {
    let mut registry = EntityLockRegistry::new();
    let entity_id = uuid::Uuid::new_v4().as_u128();
    let node_id = uuid::Uuid::new_v4().as_u128();

    assert!(registry.try_acquire(entity_id, node_id).is_ok());
    assert!(registry.is_locked(entity_id, node_id));
    assert!(registry.is_locked_by(entity_id, node_id, node_id));
    assert_eq!(registry.get_holder(entity_id, node_id), Some(node_id));
}

#[test]
fn test_lock_conflict() {
    let mut registry = EntityLockRegistry::new();
    let entity_id = uuid::Uuid::new_v4().as_u128();
    let node1 = uuid::Uuid::new_v4().as_u128();
    let node2 = uuid::Uuid::new_v4().as_u128();

    assert!(registry.try_acquire(entity_id, node1).is_ok());

    assert_eq!(registry.try_acquire(entity_id, node2), Err(node1));
}

#[test]
fn test_lock_release() {
    let mut registry = EntityLockRegistry::new();
    let entity_id = uuid::Uuid::new_v4().as_u128();
    let node_id = uuid::Uuid::new_v4().as_u128();

    registry.try_acquire(entity_id, node_id).unwrap();
    assert!(registry.release(entity_id, node_id));
    assert!(!registry.is_locked(entity_id, node_id));
}

#[test]
fn test_wrong_node_cannot_release() {
    let mut registry = EntityLockRegistry::new();
    let entity_id = uuid::Uuid::new_v4().as_u128();
    let node1 = uuid::Uuid::new_v4().as_u128();
    let node2 = uuid::Uuid::new_v4().as_u128();

    registry.try_acquire(entity_id, node1).unwrap();

    assert!(!registry.release(entity_id, node2));
    assert!(registry.is_locked(entity_id, node2));
    assert!(registry.is_locked_by(entity_id, node1, node2));
}

#[test]
fn test_lock_timeout() {
    let mut registry = EntityLockRegistry::new();
    let entity_id = uuid::Uuid::new_v4().as_u128();
    let node_id = uuid::Uuid::new_v4().as_u128();

    registry.try_acquire(entity_id, node_id).unwrap();

    registry.set_lock_timeout(entity_id, 0);

    let expired = registry.get_expired_locks();
    assert_eq!(expired.len(), 1);
    assert_eq!(expired[0], entity_id);
}

#[test]
fn test_force_release() {
    let mut registry = EntityLockRegistry::new();
    let entity_id = uuid::Uuid::new_v4().as_u128();
    let node_id = uuid::Uuid::new_v4().as_u128();

    registry.try_acquire(entity_id, node_id).unwrap();
    registry.force_release(entity_id);
    assert!(!registry.is_locked(entity_id, node_id));
}

#[test]
fn test_rate_limiting() {
    let mut registry = EntityLockRegistry::new();
    let node_id = uuid::Uuid::new_v4().as_u128();

    for _ in 0..MAX_LOCKS_PER_NODE {
        let entity_id = uuid::Uuid::new_v4().as_u128();
        assert!(registry.try_acquire(entity_id, node_id).is_ok());
    }

    let entity_id = uuid::Uuid::new_v4().as_u128();
    assert!(registry.try_acquire(entity_id, node_id).is_err());
}

#[test]
fn test_node_lock_count() {
    let mut registry = EntityLockRegistry::new();
    let node_id = uuid::Uuid::new_v4().as_u128();

    assert_eq!(registry.get_node_lock_count(node_id), 0);

    for _ in 0..3 {
        let entity_id = uuid::Uuid::new_v4().as_u128();
        registry.try_acquire(entity_id, node_id).unwrap();
    }

    assert_eq!(registry.get_node_lock_count(node_id), 3);
    assert_eq!(registry.total_locks(), 3);
}

#[test]
fn test_heartbeat_wrong_node() {
    let mut registry = EntityLockRegistry::new();
    let entity_id = uuid::Uuid::new_v4().as_u128();
    let node1 = uuid::Uuid::new_v4().as_u128();
    let node2 = uuid::Uuid::new_v4().as_u128();

    registry.try_acquire(entity_id, node1).unwrap();

    assert!(!registry.renew_heartbeat(entity_id, node2));
}

#[test]
fn test_heartbeat_expiration() {
    let mut registry = EntityLockRegistry::new();
    let entity_id = uuid::Uuid::new_v4().as_u128();
    let node_id = uuid::Uuid::new_v4().as_u128();

    registry.try_acquire(entity_id, node_id).unwrap();

    registry.set_lock_timeout(entity_id, 0);

    let expired = registry.get_expired_locks();
    assert_eq!(expired.len(), 1);
    assert_eq!(expired[0], entity_id);
}

#[test]
fn lock_messages_compare_by_content() {
    let a = LockMessage::LockRequest { entity_id: 1, node_id: 2 };
    let b = LockMessage::LockRequest { entity_id: 1, node_id: 2 };
    let c = LockMessage::LockReleased { entity_id: 1 };
    assert_eq!(a, b);
    assert_ne!(a, c);
}

#[test]
fn lock_expiry_at_given_times() {
    let mut registry = EntityLockRegistry::new();
    assert_eq!(registry.try_acquire_at(1, 10, 1_000), Ok(()));
    // Another node is refused while the lock is live, and takes it once expired.
    assert_eq!(registry.try_acquire_at(1, 20, 1_000 + LOCK_TIMEOUT - 1), Err(10));
    assert!(registry.is_locked_at(1, 20, 1_000 + LOCK_TIMEOUT - 1));
    assert!(!registry.is_locked_at(1, 20, 1_000 + LOCK_TIMEOUT));
    assert!(registry.is_locked_at(1, 10, 1_000 + LOCK_TIMEOUT));
    assert_eq!(registry.get_holder_at(1, 20, 1_000 + LOCK_TIMEOUT), None);
    assert_eq!(registry.expired_remote_locks_at(20, 1_000 + LOCK_TIMEOUT), vec![1]);
    assert!(registry.expired_remote_locks_at(10, 1_000 + LOCK_TIMEOUT).is_empty());
    assert_eq!(registry.try_acquire_at(1, 20, 1_000 + LOCK_TIMEOUT), Ok(()));
    assert_eq!(registry.get_node_lock_count(10), 0);
    assert_eq!(registry.get_node_lock_count(20), 1);
    assert!(registry.renew_heartbeat_at(1, 20, 9_000));
    assert_eq!(registry.live_locks_of_at(20, 9_000 + LOCK_TIMEOUT - 1), vec![1]);
}

#[test]
fn lock_rate_limit_names_the_requester() {
    let mut registry = EntityLockRegistry::new();
    for e in 0..(MAX_LOCKS_PER_NODE as u128) {
        assert!(registry.try_acquire_at(e, 5, 0).is_ok());
    }
    assert_eq!(registry.try_acquire_at(1000, 5, 0), Err(5));
    assert_eq!(registry.total_locks(), MAX_LOCKS_PER_NODE);
    assert!(registry.release(3, 5));
    assert_eq!(registry.try_acquire_at(1000, 5, 0), Ok(()));
}

#[test]
fn lock_release_on_deselection() {
    let mut registry = EntityLockRegistry::new();
    registry.try_acquire_at(1, 7, 0).unwrap();
    registry.try_acquire_at(2, 7, 0).unwrap();
    registry.try_acquire_at(3, 8, 0).unwrap();
    let mut selected = std::collections::HashSet::new();
    selected.insert(2u128);
    let mut r = registry.locks_to_release(7, &selected);
    r.sort();
    assert_eq!(r, vec![1]);
}

#[test]
fn crash_recovery_releases_expired_remote_locks_only() {
    let mut registry = EntityLockRegistry::new();
    let (local, remote) = (1u128, 2u128);
    assert!(registry.try_acquire_at(10, local, 0).is_ok());
    assert!(registry.try_acquire_at(11, remote, 0).is_ok());
    assert!(registry.try_acquire_at(12, remote, 4_000).is_ok());
    let mut released = registry.release_expired_remote_locks_at(local, 5_000);
    released.sort();
    assert_eq!(released, vec![11]);
    assert_eq!(registry.total_locks(), 2);
    assert!(registry.is_locked_by_at(10, local, local, 5_000));
    assert!(registry.is_locked_by_at(12, remote, local, 5_000));
}

#[test]
fn deselection_releases_unselected_own_locks() {
    let mut registry = EntityLockRegistry::new();
    let (me, other) = (1u128, 2u128);
    for e in [10u128, 11, 12] {
        assert!(registry.try_acquire_at(e, me, 0).is_ok());
    }
    assert!(registry.try_acquire_at(13, other, 0).is_ok());
    let selected: std::collections::HashSet<u128> = [11u128].into_iter().collect();
    let mut released = registry.release_deselected_locks(me, &selected);
    released.sort();
    assert_eq!(released, vec![10, 12]);
    assert_eq!(registry.get_node_lock_count(me), 1);
    assert_eq!(registry.get_node_lock_count(other), 1);
}

#[test]
fn heartbeats_renew_live_own_locks() {
    let mut registry = EntityLockRegistry::new();
    let (me, other) = (1u128, 2u128);
    assert!(registry.try_acquire_at(10, me, 0).is_ok());
    assert!(registry.try_acquire_at(11, me, 0).is_ok());
    assert!(registry.try_acquire_at(12, other, 0).is_ok());
    let mut renewed = registry.renew_live_locks_at(me, 4_000);
    renewed.sort();
    assert_eq!(renewed, vec![10, 11]);
    // renewed at 4000: still live for others at 8999, the other node's lock is not
    assert!(registry.is_locked_by_at(10, me, other, 8_999));
    assert!(!registry.is_locked_at(12, me, 8_999));
    // a lock already expired at `now` is not renewed
    let renewed = registry.renew_live_locks_at(other, 9_000);
    assert!(renewed.is_empty());
}
