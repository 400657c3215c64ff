use libmarathon::networking::messages::SyncMessage;
use libmarathon::engine::events::{
    after_discovery_attempt,
    node_id_from_endpoint,
    DiscoveryResult,
    NetworkingInitStatus,
    DHT_DISCOVERY_ATTEMPTS,
};
use libmarathon::engine::lifecycle::{EngineAction, EngineCommand, EngineCore};
use libmarathon::engine::networking::{EngineLockEvent, EngineLocks};
use libmarathon::networking::session::SessionId;
use libmarathon::networking::locks::LockMessage;

#[test]
fn engine_tracks_own_locks_and_reports_events() {
    let (me, other) = (1u128, 2u128);
    let mut engine = EngineLocks::new(me);

    let event = engine.handle_lock_message_at(LockMessage::LockRequest { entity_id: 10, node_id: me }, 0);
    assert_eq!(event, Some(EngineLockEvent::LockAcquired { entity_id: 10, holder: me }));
    assert_eq!(engine.our_locks(), vec![10]);

    let event = engine.handle_lock_message_at(LockMessage::LockRequest { entity_id: 10, node_id: other }, 1);
    assert_eq!(event, Some(EngineLockEvent::LockDenied { entity_id: 10, current_holder: me }));

    let event = engine.handle_lock_message_at(LockMessage::LockRequest { entity_id: 11, node_id: other }, 1);
    assert_eq!(event, Some(EngineLockEvent::LockAcquired { entity_id: 11, holder: other }));
    assert_eq!(engine.our_locks(), vec![10]);

    let event = engine.handle_lock_message_at(LockMessage::LockHeartbeat { entity_id: 11, holder: other }, 2);
    assert_eq!(event, None);

    let event = engine.handle_lock_message_at(LockMessage::LockRelease { entity_id: 10, node_id: me }, 3);
    assert_eq!(event, Some(EngineLockEvent::LockReleased { entity_id: 10 }));
    assert!(engine.our_locks().is_empty());
    assert_eq!(engine.registry().total_locks(), 1);

    // a release by a node that does not hold the lock is still reported
    let event = engine.handle_lock_message_at(LockMessage::LockRelease { entity_id: 11, node_id: me }, 4);
    assert_eq!(event, Some(EngineLockEvent::LockReleased { entity_id: 11 }));
    assert_eq!(engine.registry().total_locks(), 1);

    let event = engine.handle_lock_message_at(LockMessage::LockReleased { entity_id: 11 }, 5);
    assert_eq!(event, None);
}

#[test]
fn engine_heartbeats_renew_own_locks() {
    let me = 1u128;
    let mut engine = EngineLocks::new(me);
    engine.handle_lock_message_at(LockMessage::LockRequest { entity_id: 10, node_id: me }, 0);
    engine.handle_lock_message_at(LockMessage::LockRequest { entity_id: 12, node_id: me }, 0);
    let mut ids = engine.renew_our_locks_at(4_000);
    ids.sort();
    assert_eq!(ids, vec![10, 12]);
    // renewed at 4000: still live for another node at 8999
    assert!(engine.registry().is_locked_by_at(10, me, 2, 8_999));
    assert!(!engine.registry().is_locked_by_at(10, me, 2, 9_000));
}

#[test]
fn engine_commands_start_and_stop_networking_once() {
    let mut core = EngineCore::new(7);
    let first = SessionId::new();
    let second = SessionId::new();

    let a = core.handle_command(EngineCommand::StartNetworking { session_id: first.clone() });
    assert_eq!(a, vec![EngineAction::SpawnNetworking { session_id: first.clone() }]);
    // already started: nothing
    let a = core.handle_command(EngineCommand::StartNetworking { session_id: second.clone() });
    assert!(a.is_empty());

    // joining another session stops the current networking, then starts anew
    let a = core.handle_command(EngineCommand::JoinSession { session_id: second.clone() });
    assert_eq!(
        a,
        vec![
            EngineAction::CancelNetworking,
            EngineAction::AbortNetworking,
            EngineAction::NetworkingStopped,
            EngineAction::SpawnNetworking { session_id: second.clone() },
        ]
    );

    let a = core.handle_command(EngineCommand::LeaveSession);
    assert_eq!(
        a,
        vec![EngineAction::CancelNetworking, EngineAction::AbortNetworking, EngineAction::NetworkingStopped]
    );
    // stopping again does nothing
    assert!(core.handle_command(EngineCommand::StopNetworking).is_empty());

    // joining while offline just starts
    let a = core.handle_command(EngineCommand::JoinSession { session_id: first.clone() });
    assert_eq!(a, vec![EngineAction::SpawnNetworking { session_id: first }]);

    assert!(core.handle_command(EngineCommand::SaveSession).is_empty());
    assert!(core.handle_command(EngineCommand::LoadSession { session_id: second }).is_empty());
    assert!(core.handle_command(EngineCommand::Other).is_empty());
}

#[test]
fn engine_clock_ticks() {
    let mut core = EngineCore::new(7);
    assert_eq!(core.handle_command(EngineCommand::TickClock), vec![EngineAction::ClockTicked { sequence: 1 }]);
    assert_eq!(core.handle_command(EngineCommand::TickClock), vec![EngineAction::ClockTicked { sequence: 2 }]);
    assert_eq!(core.clock().get(7), 2);
    assert_eq!(core.node_id(), 7);
}

#[test]
fn discovery_stops_on_peers_or_after_last_attempt() {
    assert_eq!(DHT_DISCOVERY_ATTEMPTS, 3);
    assert_eq!(
        after_discovery_attempt(1, DiscoveryResult::Found { count: 2 }),
        (true, Some(NetworkingInitStatus::PeersFound { count: 2 }))
    );
    assert_eq!(after_discovery_attempt(1, DiscoveryResult::Empty), (false, None));
    assert_eq!(after_discovery_attempt(2, DiscoveryResult::Failed), (false, None));
    assert_eq!(after_discovery_attempt(3, DiscoveryResult::Empty), (true, Some(NetworkingInitStatus::NoPeersFound)));
    assert_eq!(after_discovery_attempt(3, DiscoveryResult::Failed), (true, None));
}

#[test]
fn node_id_is_big_endian_prefix_of_endpoint_key() {
    let mut key = [0u8; 32];
    key[15] = 1;
    key[0] = 0x80;
    key[31] = 0xff;
    assert_eq!(node_id_from_endpoint(&key), (0x80u128 << 120) | 1);
    let key: [u8; 32] = core::array::from_fn(|i| i as u8);
    assert_eq!(node_id_from_endpoint(&key), uuid::Uuid::from_bytes(core::array::from_fn(|i| i as u8)).as_u128());
}

#[test]
fn engine_cleanup_releases_expired_remote_locks() {
    let (me, other) = (1u128, 2u128);
    let mut engine = EngineLocks::new(me);
    engine.handle_lock_message_at(LockMessage::LockRequest { entity_id: 10, node_id: me }, 0);
    engine.handle_lock_message_at(LockMessage::LockRequest { entity_id: 11, node_id: other }, 0);
    engine.handle_lock_message_at(LockMessage::LockRequest { entity_id: 12, node_id: other }, 3_000);
    let released = engine.cleanup_expired_locks_at(5_000);
    assert_eq!(released, vec![11]);
    assert_eq!(engine.registry().total_locks(), 2);
    assert_eq!(engine.our_locks(), vec![10]);
}

#[test]
fn engine_handles_only_lock_messages() {
    let mut engine = EngineLocks::new(1);
    let event = engine.handle_sync_message_at(SyncMessage::Lock(LockMessage::LockRequest { entity_id: 3, node_id: 1 }), 0);
    assert_eq!(event, Some(EngineLockEvent::LockAcquired { entity_id: 3, holder: 1 }));
    let event = engine.handle_sync_message_at(SyncMessage::MissingDeltas { deltas: vec![] }, 0);
    assert_eq!(event, None);
    assert_eq!(engine.registry().total_locks(), 1);
}
