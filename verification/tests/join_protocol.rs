use libmarathon::networking::delta_generation::NodeVectorClock;
use libmarathon::networking::components::NetworkedEntity;
use libmarathon::networking::join_protocol::{
    apply_full_state,
    apply_full_state_at,
    build_full_state,
    build_join_request,
    is_networking_marker_type,
};
use libmarathon::networking::messages::{
    ComponentData,
    ComponentState,
    EntityState,
    JoinType,
    SyncMessage,
    CURRENT_VERSION,
};
use libmarathon::networking::session::SessionId;
use libmarathon::networking::tombstones::TombstoneRegistry;
use libmarathon::networking::vector_clock::VectorClock;

#[test]
fn test_build_join_request() {
    let node_id = uuid::Uuid::new_v4().as_u128();
    let session_id = SessionId::new();
    let request = build_join_request(node_id, session_id.clone(), None, None, JoinType::Fresh);

    match request.message {
        SyncMessage::JoinRequest {
            node_id: req_node_id,
            session_id: req_session_id,
            session_secret,
            last_known_clock,
            join_type,
        } => {
            assert_eq!(req_node_id, node_id);
            assert_eq!(req_session_id, session_id);
            assert!(session_secret.is_none());
            assert!(last_known_clock.is_none());
            assert!(matches!(join_type, JoinType::Fresh));
        },
        _ => panic!("Expected JoinRequest"),
    }
}

#[test]
fn test_build_join_request_with_secret() {
    let node_id = uuid::Uuid::new_v4().as_u128();
    let session_id = SessionId::new();
    let secret = vec![1, 2, 3, 4];
    let request = build_join_request(node_id, session_id.clone(), Some(secret.clone()), None, JoinType::Fresh);

    match request.message {
        SyncMessage::JoinRequest {
            node_id: _,
            session_id: req_session_id,
            session_secret,
            last_known_clock,
            join_type,
        } => {
            assert_eq!(req_session_id, session_id);
            assert_eq!(session_secret, Some(secret));
            assert!(last_known_clock.is_none());
            assert!(matches!(join_type, JoinType::Fresh));
        },
        _ => panic!("Expected JoinRequest"),
    }
}

#[test]
fn test_build_join_request_rejoin() {
    let node_id = uuid::Uuid::new_v4().as_u128();
    let session_id = SessionId::new();
    let clock = VectorClock::new();
    let join_type = JoinType::Rejoin { last_active: 1234567890, entity_count: 42 };

    let request = build_join_request(node_id, session_id.clone(), None, Some(clock.clone()), join_type);

    match request.message {
        SyncMessage::JoinRequest {
            node_id: req_node_id,
            session_id: req_session_id,
            session_secret,
            last_known_clock,
            join_type: req_join_type,
        } => {
            assert_eq!(req_node_id, node_id);
            assert_eq!(req_session_id, session_id);
            assert!(session_secret.is_none());
            assert_eq!(last_known_clock, Some(clock));
            assert!(matches!(req_join_type, JoinType::Rejoin { .. }));
        },
        _ => panic!("Expected JoinRequest"),
    }
}

#[test]
fn test_entity_state_structure() {
    let entity_id = uuid::Uuid::new_v4().as_u128();
    let owner_node_id = uuid::Uuid::new_v4().as_u128();

    let state = EntityState {
        entity_id,
        owner_node_id,
        vector_clock: VectorClock::new(),
        components: vec![],
        is_deleted: false,
    };

    assert_eq!(state.entity_id, entity_id);
    assert_eq!(state.owner_node_id, owner_node_id);
    assert_eq!(state.components.len(), 0);
    assert!(!state.is_deleted);
}

#[test]
fn test_apply_full_state_empty() {
    let node_id = uuid::Uuid::new_v4().as_u128();
    let remote_clock = VectorClock::new();
    let mut node_clock = NodeVectorClock::new(node_id);
    let mut tombstones = TombstoneRegistry::new();

    let live = apply_full_state(vec![], &remote_clock, &mut node_clock, &mut tombstones);

    assert!(live.is_empty());
    assert_eq!(node_clock.clock, remote_clock);
}

#[test]
fn join_request_envelope_has_no_nonce() {
    let request = build_join_request(1, SessionId::new(), None, None, JoinType::Fresh);
    assert_eq!(request.version, CURRENT_VERSION);
    assert_eq!(request.nonce, 0);
}

fn entity(entity_id: u128, owner: u128, clock: &[(u128, u64)], is_deleted: bool) -> EntityState {
    let mut vector_clock = VectorClock::new();
    for (node, count) in clock {
        vector_clock.timestamps.insert(*node, *count);
    }
    EntityState {
        entity_id,
        owner_node_id: owner,
        vector_clock,
        components: vec![ComponentState { discriminant: 1, data: ComponentData::Inline(vec![7]) }],
        is_deleted,
    }
}

#[test]
fn full_state_spawns_live_entities_and_records_deletions() {
    let mut node_clock = NodeVectorClock::new(1);
    node_clock.clock.timestamps.insert(1, 5);
    let mut remote = VectorClock::new();
    remote.timestamps.insert(1, 3);
    remote.timestamps.insert(2, 4);
    let mut tombstones = TombstoneRegistry::new();

    let entities = vec![
        entity(10, 2, &[(2, 1)], false),
        entity(11, 2, &[(2, 2)], true),
        entity(12, 3, &[(3, 1)], false),
    ];
    let live = apply_full_state_at(entities, &remote, &mut node_clock, &mut tombstones, 1_000);

    let ids: Vec<u128> = live.iter().map(|e| e.entity_id).collect();
    assert_eq!(ids, vec![10, 12]);
    assert_eq!(node_clock.clock.timestamps.get(&1), Some(&5));
    assert_eq!(node_clock.clock.timestamps.get(&2), Some(&4));
    assert_eq!(node_clock.node_id, 1);
    assert!(tombstones.is_deleted(11));
    assert!(!tombstones.is_deleted(10));
    assert_eq!(tombstones.num_tombstones(), 1);
    assert_eq!(tombstones.get_tombstone(11).map(|t| (t.deleting_node, t.timestamp)), Some((2, 1_000)));
}

fn component(discriminant: u16, byte: u8) -> ComponentState {
    ComponentState { discriminant, data: ComponentData::Inline(vec![byte]) }
}

#[test]
fn full_state_stamps_entities_with_node_clock() {
    let mut node_clock = NodeVectorClock::new(1);
    node_clock.clock.increment(1);
    let entities = vec![
        (NetworkedEntity::with_id(10, 1), vec![component(1, 7)]),
        (NetworkedEntity::with_id(11, 2), vec![]),
    ];
    let m = build_full_state(entities, &node_clock, None);
    assert_eq!(m.version, CURRENT_VERSION);
    assert_eq!(m.nonce, 0);
    match m.message {
        SyncMessage::FullState { entities, vector_clock } => {
            assert_eq!(vector_clock, node_clock.clock);
            assert_eq!(entities.len(), 2);
            assert_eq!((entities[0].entity_id, entities[0].owner_node_id), (10, 1));
            assert_eq!(entities[0].components.len(), 1);
            assert_eq!(entities[0].components[0].discriminant, 1);
            assert_eq!(entities[1].entity_id, 11);
            assert!(entities.iter().all(|e| !e.is_deleted && e.vector_clock == node_clock.clock));
        },
        _ => panic!("Expected FullState"),
    }
}

#[test]
fn full_state_leaves_out_tombstoned_entities() {
    let node_clock = NodeVectorClock::new(1);
    let mut tombstones = TombstoneRegistry::new();
    tombstones.record_deletion_at(10, 2, VectorClock::new(), 0);
    let entities = vec![
        (NetworkedEntity::with_id(10, 1), vec![]),
        (NetworkedEntity::with_id(11, 1), vec![]),
    ];
    let m = build_full_state(entities, &node_clock, Some(&tombstones));
    match m.message {
        SyncMessage::FullState { entities, .. } => {
            let ids: Vec<u128> = entities.iter().map(|e| e.entity_id).collect();
            assert_eq!(ids, vec![11]);
        },
        _ => panic!("Expected FullState"),
    }
}

#[test]
fn networking_markers_are_recognized_by_type_path() {
    assert!(is_networking_marker_type("libmarathon::networking::NetworkedEntity"));
    assert!(is_networking_marker_type("crate::NetworkedTransform"));
    assert!(is_networking_marker_type("a::b::NetworkedSelection"));
    assert!(is_networking_marker_type("x::NetworkedDrawingPath"));
    assert!(!is_networking_marker_type("NetworkedEntity"));
    assert!(!is_networking_marker_type("bevy::Transform"));
    assert!(!is_networking_marker_type("x::NetworkedEntityExtra"));
}
