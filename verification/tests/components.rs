use libmarathon::networking::change_detection::LastSyncVersions;
use libmarathon::networking::components::{LocalSelection, NetworkedEntity};
use libmarathon::networking::delta_generation::{finish_delta, NodeVectorClock};

#[test]
fn test_networked_entity_new() {
    let node_id = uuid::Uuid::new_v4().as_u128();
    let entity = NetworkedEntity::new(node_id);

    assert_eq!(entity.owner_node_id, node_id);
    assert_ne!(entity.network_id, uuid::Uuid::nil().as_u128());
}

#[test]
fn test_networked_entity_with_id() {
    let network_id = uuid::Uuid::new_v4().as_u128();
    let owner_id = uuid::Uuid::new_v4().as_u128();
    let entity = NetworkedEntity::with_id(network_id, owner_id);

    assert_eq!(entity.network_id, network_id);
    assert_eq!(entity.owner_node_id, owner_id);
}

#[test]
fn test_networked_entity_is_owned_by() {
    let owner_id = uuid::Uuid::new_v4().as_u128();
    let other_id = uuid::Uuid::new_v4().as_u128();
    let entity = NetworkedEntity::new(owner_id);

    assert!(entity.is_owned_by(owner_id));
    assert!(!entity.is_owned_by(other_id));
}

#[test]
fn test_local_selection() {
    let mut selection = LocalSelection::new();
    let id1 = uuid::Uuid::new_v4().as_u128();
    let id2 = uuid::Uuid::new_v4().as_u128();

    assert!(selection.is_empty());

    selection.insert(id1);
    assert_eq!(selection.len(), 1);
    assert!(selection.contains(id1));

    selection.insert(id2);
    assert_eq!(selection.len(), 2);
    assert!(selection.contains(id2));

    selection.remove(id1);
    assert_eq!(selection.len(), 1);
    assert!(!selection.contains(id1));

    selection.clear();
    assert!(selection.is_empty());
}

#[test]
fn test_last_sync_versions() {
    let mut versions = LastSyncVersions::default();
    let id = uuid::Uuid::new_v4().as_u128();

    assert!(versions.should_sync(id, 1));

    versions.update(id, 1);

    assert!(!versions.should_sync(id, 1));

    assert!(!versions.should_sync(id, 0));

    assert!(versions.should_sync(id, 2));

    versions.remove(id);
    assert!(versions.should_sync(id, 2));
}

#[test]
fn test_multiple_entities() {
    let mut versions = LastSyncVersions::default();
    let id1 = uuid::Uuid::new_v4().as_u128();
    let id2 = uuid::Uuid::new_v4().as_u128();

    versions.update(id1, 5);
    versions.update(id2, 3);

    assert!(!versions.should_sync(id1, 4));
    assert!(versions.should_sync(id1, 6));
    assert!(!versions.should_sync(id2, 2));
    assert!(versions.should_sync(id2, 4));
}

#[test]
fn test_node_vector_clock_creation() {
    let node_id = uuid::Uuid::new_v4().as_u128();
    let clock = NodeVectorClock::new(node_id);

    assert_eq!(clock.node_id, node_id);
    assert_eq!(clock.sequence(), 0);
}

#[test]
fn test_node_vector_clock_tick() {
    let node_id = uuid::Uuid::new_v4().as_u128();
    let mut clock = NodeVectorClock::new(node_id);

    assert_eq!(clock.tick(), 1);
    assert_eq!(clock.sequence(), 1);

    assert_eq!(clock.tick(), 2);
    assert_eq!(clock.sequence(), 2);
}

#[test]
fn test_node_vector_clock_multiple_nodes() {
    let node1 = uuid::Uuid::new_v4().as_u128();
    let node2 = uuid::Uuid::new_v4().as_u128();

    let mut clock1 = NodeVectorClock::new(node1);
    let mut clock2 = NodeVectorClock::new(node2);

    clock1.tick();
    clock2.tick();

    assert_eq!(clock1.sequence(), 1);
    assert_eq!(clock2.sequence(), 1);

    clock1.clock.merge(&clock2.clock);
    assert_eq!(clock1.clock.get(node1), 1);
    assert_eq!(clock1.clock.get(node2), 1);
}

#[test]
fn delta_generation_skips_sent_versions() {
    let mut node = NodeVectorClock::new(1);
    let mut versions = LastSyncVersions::new();
    let (seq, clock) = node.begin_delta(&versions, 50).expect("first change is sent");
    assert_eq!(seq, 1);
    assert_eq!(clock.get(1), 1);
    let op = libmarathon::networking::operations::ComponentOpBuilder::new(1, clock.clone()).delete();
    let delta = finish_delta(&mut versions, 50, 1, seq, clock.clone(), vec![op]).expect("delta");
    assert_eq!(delta.entity_id, 50);
    assert!(!versions.should_sync(50, 1));
    // No operations: no delta, and nothing recorded.
    assert!(finish_delta(&mut versions, 60, 1, 2, clock, vec![]).is_none());
    assert!(versions.should_sync(60, 2));
    // Next change of entity 50 is version 2, not yet sent.
    assert!(node.begin_delta(&versions, 50).is_some());
    assert_eq!(node.sequence(), 2);
}

#[test]
fn local_selection_lists_each_entity_once() {
    let mut selection = LocalSelection::new();
    assert!(selection.insert(3));
    assert!(!selection.insert(3));
    assert!(selection.insert(4));
    let mut ids = selection.iter();
    ids.sort();
    assert_eq!(ids, vec![3, 4]);
    assert!(selection.remove(3));
    assert!(!selection.remove(3));
}
