use libmarathon::networking::delta_generation::NodeVectorClock;
use libmarathon::networking::operations::ComponentOp;
use libmarathon::networking::tombstones::{delete_local_entity, delete_local_entity_at, TombstoneRegistry};
use libmarathon::networking::vector_clock::VectorClock;

#[test]
fn test_tombstone_registry_creation() {
    let registry = TombstoneRegistry::new();
    assert_eq!(registry.num_tombstones(), 0);
}

#[test]
fn test_record_deletion() {
    let mut registry = TombstoneRegistry::new();
    let entity_id = uuid::Uuid::new_v4().as_u128();
    let node_id = uuid::Uuid::new_v4().as_u128();
    let clock = VectorClock::new();

    registry.record_deletion(entity_id, node_id, clock);

    assert!(registry.is_deleted(entity_id));
    assert_eq!(registry.num_tombstones(), 1);
}

#[test]
fn test_should_ignore_older_operation() {
    let mut registry = TombstoneRegistry::new();
    let entity_id = uuid::Uuid::new_v4().as_u128();
    let node_id = uuid::Uuid::new_v4().as_u128();

    let mut deletion_clock = VectorClock::new();
    deletion_clock.increment(node_id);
    deletion_clock.increment(node_id);

    registry.record_deletion(entity_id, node_id, deletion_clock);

    let mut old_operation_clock = VectorClock::new();
    old_operation_clock.increment(node_id);

    assert!(registry.should_ignore_operation(entity_id, &old_operation_clock));
}

#[test]
fn test_should_not_ignore_newer_operation() {
    let mut registry = TombstoneRegistry::new();
    let entity_id = uuid::Uuid::new_v4().as_u128();
    let node_id = uuid::Uuid::new_v4().as_u128();

    let mut deletion_clock = VectorClock::new();
    deletion_clock.increment(node_id);

    registry.record_deletion(entity_id, node_id, deletion_clock);

    let mut new_operation_clock = VectorClock::new();
    new_operation_clock.increment(node_id);
    new_operation_clock.increment(node_id);

    assert!(!registry.should_ignore_operation(entity_id, &new_operation_clock));
}

#[test]
fn test_concurrent_delete_wins() {
    let mut registry = TombstoneRegistry::new();
    let entity_id = uuid::Uuid::new_v4().as_u128();
    let node1 = uuid::Uuid::new_v4().as_u128();
    let node2 = uuid::Uuid::new_v4().as_u128();

    let mut delete_clock = VectorClock::new();
    delete_clock.increment(node1);

    registry.record_deletion(entity_id, node1, delete_clock);

    let mut concurrent_clock = VectorClock::new();
    concurrent_clock.increment(node2);

    assert!(registry.should_ignore_operation(entity_id, &concurrent_clock));
}

#[test]
fn test_update_tombstone_with_later_deletion() {
    let mut registry = TombstoneRegistry::new();
    let entity_id = uuid::Uuid::new_v4().as_u128();
    let node_id = uuid::Uuid::new_v4().as_u128();

    let mut clock1 = VectorClock::new();
    clock1.increment(node_id);
    registry.record_deletion(entity_id, node_id, clock1.clone());

    let tombstone1 = registry.get_tombstone(entity_id).unwrap();
    assert_eq!(tombstone1.deletion_clock, clock1);

    let mut clock2 = VectorClock::new();
    clock2.increment(node_id);
    clock2.increment(node_id);
    registry.record_deletion(entity_id, node_id, clock2.clone());

    let tombstone2 = registry.get_tombstone(entity_id).unwrap();
    assert_eq!(tombstone2.deletion_clock, clock2);
}

#[test]
fn test_ignore_older_tombstone_update() {
    let mut registry = TombstoneRegistry::new();
    let entity_id = uuid::Uuid::new_v4().as_u128();
    let node_id = uuid::Uuid::new_v4().as_u128();

    let mut clock2 = VectorClock::new();
    clock2.increment(node_id);
    clock2.increment(node_id);
    registry.record_deletion(entity_id, node_id, clock2.clone());

    let mut clock1 = VectorClock::new();
    clock1.increment(node_id);
    registry.record_deletion(entity_id, node_id, clock1);

    let tombstone = registry.get_tombstone(entity_id).unwrap();
    assert_eq!(tombstone.deletion_clock, clock2);
}

#[test]
fn tombstone_garbage_collection_by_age() {
    let mut registry = TombstoneRegistry::new();
    registry.record_deletion_at(1, 9, VectorClock::new(), 1_000);
    registry.record_deletion_at(2, 9, VectorClock::new(), 5_000_000);
    registry.garbage_collect_at(1_000 + 3_600_000);
    assert!(!registry.is_deleted(1));
    assert!(registry.is_deleted(2));
    assert_eq!(registry.num_tombstones(), 1);
    registry.garbage_collect_at(1_000 + 3_600_000 - 1);
    assert!(registry.is_deleted(2));
}

#[test]
fn tombstone_unknown_entity_never_ignored() {
    let registry = TombstoneRegistry::new();
    let mut clock = VectorClock::new();
    clock.increment(3);
    assert!(!registry.should_ignore_operation(77, &clock));
}

#[test]
fn local_deletion_ticks_clock_and_records_tombstone() {
    let mut node_clock = NodeVectorClock::new(4);
    node_clock.clock.increment(4);
    let mut registry = TombstoneRegistry::new();
    let delta = delete_local_entity_at(&mut node_clock, &mut registry, 99, 1234);
    assert_eq!(node_clock.clock.get(4), 2);
    assert_eq!(delta.entity_id, 99);
    assert_eq!(delta.node_id, 4);
    assert_eq!(delta.vector_clock, node_clock.clock);
    assert_eq!(delta.operations.len(), 1);
    match &delta.operations[0] {
        ComponentOp::Delete { vector_clock } => assert_eq!(vector_clock.get(4), 3),
        _ => panic!("Expected Delete"),
    }
    let t = registry.get_tombstone(99).unwrap();
    assert_eq!(t.deletion_clock, node_clock.clock);
    assert_eq!((t.deleting_node, t.timestamp), (4, 1234));

    let delta = delete_local_entity(&mut node_clock, &mut registry, 100);
    assert_eq!(delta.entity_id, 100);
    assert!(registry.is_deleted(100));
    assert_eq!(node_clock.clock.get(4), 3);
}
