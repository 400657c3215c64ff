use libmarathon::networking::gossip_bridge::{init_gossip_bridge, GossipBridge};
use libmarathon::networking::locks::LockMessage;
use libmarathon::networking::messages::{JoinType, NonceCounter, SyncMessage, VersionedMessage};
use libmarathon::networking::session::SessionId;

#[test]
fn test_gossip_bridge_creation() {
    let node_id = uuid::Uuid::new_v4().as_u128();
    let bridge = GossipBridge::new(node_id);

    assert_eq!(bridge.node_id(), node_id);
}

#[test]
fn test_send_message() {
    let node_id = uuid::Uuid::new_v4().as_u128();
    let mut bridge = GossipBridge::new(node_id);
    let session_id = SessionId::new();

    let message = SyncMessage::JoinRequest {
        node_id,
        session_id,
        session_secret: None,
        last_known_clock: None,
        join_type: JoinType::Fresh,
    };
    let versioned = VersionedMessage::new(message, &mut NonceCounter::new());

    let result = bridge.send(versioned);
    assert!(result.is_ok());
}

#[test]
fn test_try_recv_empty() {
    let node_id = uuid::Uuid::new_v4().as_u128();
    let mut bridge = GossipBridge::new(node_id);

    assert!(bridge.try_recv().is_none());
}

fn lock_release(entity_id: u128) -> VersionedMessage {
    VersionedMessage::new(SyncMessage::Lock(LockMessage::LockReleased { entity_id }), &mut NonceCounter::new())
}

fn released_entity(m: &VersionedMessage) -> u128 {
    match &m.message {
        SyncMessage::Lock(LockMessage::LockReleased { entity_id }) => *entity_id,
        _ => panic!("Expected LockReleased"),
    }
}

#[test]
fn queues_are_first_in_first_out() {
    let mut bridge = init_gossip_bridge(5);
    bridge.send(lock_release(1)).unwrap();
    bridge.send(lock_release(2)).unwrap();
    bridge.push_incoming(lock_release(3)).unwrap();
    bridge.push_incoming(lock_release(4)).unwrap();
    bridge.push_incoming(lock_release(5)).unwrap();

    assert_eq!(bridge.try_recv_outgoing().map(|m| released_entity(&m)), Some(1));
    assert_eq!(bridge.try_recv().map(|m| released_entity(&m)), Some(3));
    let rest: Vec<u128> = bridge.drain_incoming().iter().map(released_entity).collect();
    assert_eq!(rest, vec![4, 5]);
    assert!(bridge.try_recv().is_none());
    assert_eq!(bridge.try_recv_outgoing().map(|m| released_entity(&m)), Some(2));
    assert!(bridge.try_recv_outgoing().is_none());
}
