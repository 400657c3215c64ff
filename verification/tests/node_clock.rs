use libmarathon::networking::delta_generation::NodeVectorClock;
use libmarathon::networking::messages::EntityDelta;
use libmarathon::networking::vector_clock::VectorClock;

#[test]
fn test_node_clock_merge() {
    let node_id = uuid::Uuid::new_v4().as_u128();
    let mut node_clock = NodeVectorClock::new(node_id);

    let remote_node = uuid::Uuid::new_v4().as_u128();
    let mut remote_clock = VectorClock::new();
    remote_clock.increment(remote_node);
    remote_clock.increment(remote_node);

    node_clock.clock.merge(&remote_clock);

    assert_eq!(node_clock.clock.get(remote_node), 2);
}

#[test]
fn test_entity_delta_structure() {
    let entity_id = uuid::Uuid::new_v4().as_u128();
    let node_id = uuid::Uuid::new_v4().as_u128();
    let clock = VectorClock::new();

    let delta = EntityDelta::new(entity_id, node_id, clock, vec![]);

    assert_eq!(delta.entity_id, entity_id);
    assert_eq!(delta.node_id, node_id);
    assert_eq!(delta.operations.len(), 0);
}
