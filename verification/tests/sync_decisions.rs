use libmarathon::networking::apply_ops::{admit_entity_delta, admit_entity_delta_at, ComponentVectorClocks, DeltaOutcome};
use libmarathon::networking::delta_generation::NodeVectorClock;
use libmarathon::networking::messages::{ComponentData, EntityDelta};
use libmarathon::networking::operations::ComponentOp;
use libmarathon::networking::tombstones::TombstoneRegistry;
use libmarathon::networking::messages::{JoinType, SyncMessage, CURRENT_VERSION};
use libmarathon::networking::session::{CurrentSession, Session, SessionId, SessionState};
use libmarathon::networking::session_sync::{
    compare_operations, join_request_for, should_apply_remote, transition_session_state, JoinRequestSent,
    MergeDecision, JOIN_REQUEST_WAIT_MS,
};
use libmarathon::networking::vector_clock::VectorClock;

#[test]
fn joining_session_becomes_active() {
    let (s, t) = transition_session_state(SessionState::Joining, None, true, 0, 1, 1_000);
    assert_eq!(s, SessionState::Joining);
    assert_eq!(t, Some(1_000));
    let (s, t) = transition_session_state(SessionState::Joining, t, true, 0, 1, 3_999);
    assert_eq!((s, t), (SessionState::Joining, Some(1_000)));
    let (s, t) = transition_session_state(SessionState::Joining, Some(1_000), true, 0, 1, 4_000);
    assert_eq!((s, t), (SessionState::Active, None));
    let (s, _) = transition_session_state(SessionState::Joining, None, false, 3, 2, 0);
    assert_eq!(s, SessionState::Active);
    let (s, t) = transition_session_state(SessionState::Left, Some(5), true, 3, 2, 0);
    assert_eq!((s, t), (SessionState::Left, None));
}

#[test]
fn remote_writes_decided_by_clock_then_node() {
    let mut a = VectorClock::new();
    a.increment(1);
    let mut b = VectorClock::new();
    b.increment(2);
    assert_eq!(compare_operations(&a, &b), MergeDecision::Concurrent);
    assert!(should_apply_remote(Some(&(a.clone(), 1)), &b, 2));
    assert!(!should_apply_remote(Some(&(b.clone(), 2)), &a, 1));
    let mut c = a.clone();
    c.increment(1);
    assert_eq!(compare_operations(&a, &c), MergeDecision::ApplyRemote);
    assert_eq!(compare_operations(&c, &a), MergeDecision::KeepLocal);
    assert_eq!(compare_operations(&a, &a.clone()), MergeDecision::Equal);
    assert!(!should_apply_remote(Some(&(c.clone(), 9)), &a, 9));
    assert!(should_apply_remote(None, &a, 0));
}

#[test]
fn component_clocks_record_last_write() {
    let mut clocks = ComponentVectorClocks::new();
    let mut a = VectorClock::new();
    a.increment(1);
    clocks.set(7, "Transform".to_string(), a.clone(), 1);
    clocks.set(7, "Color".to_string(), VectorClock::new(), 2);
    clocks.set(8, "Transform".to_string(), VectorClock::new(), 3);
    assert_eq!(clocks.get(7, "Transform").map(|p| p.1), Some(1));
    let mut b = a.clone();
    b.increment(1);
    clocks.set(7, "Transform".to_string(), b.clone(), 4);
    assert_eq!(clocks.get(7, "Transform").map(|p| (p.0.get(1), p.1)), Some((2, 4)));
    clocks.remove_entity(7);
    assert!(clocks.get(7, "Transform").is_none());
    assert!(clocks.get(7, "Color").is_none());
    assert_eq!(clocks.get(8, "Transform").map(|p| p.1), Some(3));
}

#[test]
fn test_join_request_sent_tracking() {
    let mut sent = JoinRequestSent::default();
    assert!(!sent.sent);

    sent.sent = true;
    assert!(sent.sent);
}

#[test]
fn join_request_waits_for_peer_or_timeout() {
    let mut sent = JoinRequestSent::default();
    assert!(!sent.should_send_at(SessionState::Created, 1, 500));
    assert_eq!(sent.wait_started, None);
    assert!(!sent.should_send_at(SessionState::Joining, 1, 500));
    assert_eq!(sent.wait_started, Some(500));
    assert!(!sent.should_send_at(SessionState::Joining, 1, 500 + JOIN_REQUEST_WAIT_MS - 1));
    assert!(sent.should_send_at(SessionState::Joining, 1, 500 + JOIN_REQUEST_WAIT_MS));
    assert_eq!(sent.wait_started, Some(500));
    sent.sent = true;
    assert!(!sent.should_send_at(SessionState::Joining, 3, 10_000));
}

#[test]
fn join_request_goes_out_when_a_peer_is_known() {
    let mut sent = JoinRequestSent::default();
    assert!(sent.should_send_at(SessionState::Joining, 2, 42));
    assert_eq!(sent.wait_started, Some(42));
    let mut other = JoinRequestSent::default();
    assert!(other.should_send(SessionState::Joining, 2));
}

#[test]
fn join_request_for_fresh_and_rejoining_sessions() {
    let id = SessionId::new();
    let mut session = Session::new(id.clone());
    session.entity_count = 7;
    let fresh = CurrentSession::new(session.clone(), VectorClock::new());
    let m = join_request_for(&fresh, 5, None);
    assert_eq!(m.version, CURRENT_VERSION);
    assert_eq!(m.nonce, 0);
    match m.message {
        SyncMessage::JoinRequest { node_id, session_id, session_secret, last_known_clock, join_type } => {
            assert_eq!(node_id, 5);
            assert_eq!(session_id, id);
            assert!(session_secret.is_none());
            assert!(last_known_clock.is_none());
            assert_eq!(join_type, JoinType::Fresh);
        },
        _ => panic!("Expected JoinRequest"),
    }

    let mut clock = VectorClock::new();
    clock.increment(9);
    let rejoining = CurrentSession::new(session.clone(), clock.clone());
    let m = join_request_for(&rejoining, 5, Some(vec![1, 2]));
    match m.message {
        SyncMessage::JoinRequest { session_secret, last_known_clock, join_type, .. } => {
            assert_eq!(session_secret, Some(vec![1, 2]));
            assert_eq!(last_known_clock, Some(clock));
            assert_eq!(
                join_type,
                JoinType::Rejoin { last_active: session.last_active, entity_count: 7 }
            );
        },
        _ => panic!("Expected JoinRequest"),
    }
}

fn clock_of(entries: &[(u128, u64)]) -> VectorClock {
    let mut c = VectorClock::new();
    for (n, k) in entries {
        c.timestamps.insert(*n, *k);
    }
    c
}

#[test]
fn remote_write_replaces_record_when_it_wins() {
    let mut clocks = ComponentVectorClocks::new();
    let first = clock_of(&[(1, 1)]);
    assert!(clocks.accept_remote_write(7, "Transform".to_string(), &first, 1));
    assert_eq!(clocks.get(7, "Transform").map(|r| r.1), Some(1));
    // older write loses
    assert!(!clocks.accept_remote_write(7, "Transform".to_string(), &VectorClock::new(), 2));
    assert_eq!(clocks.get(7, "Transform").map(|r| r.1), Some(1));
    // concurrent write of a greater node wins, of a smaller node loses
    let concurrent = clock_of(&[(2, 1)]);
    assert!(!clocks.accept_remote_write(7, "Transform".to_string(), &concurrent, 0));
    assert!(clocks.accept_remote_write(7, "Transform".to_string(), &concurrent, 2));
    assert_eq!(clocks.get(7, "Transform").map(|r| r.1), Some(2));
    // equal clock loses
    assert!(!clocks.accept_remote_write(7, "Transform".to_string(), &concurrent, 9));
    // a later write wins whatever its node
    let later = clock_of(&[(1, 1), (2, 2)]);
    assert!(clocks.accept_remote_write(7, "Transform".to_string(), &later, 0));
    assert_eq!(clocks.get(7, "Transform").map(|r| r.1), Some(0));
    // other components are untouched
    assert!(clocks.get(7, "Color").is_none());
}

#[test]
fn concurrent_writes_converge_in_either_order() {
    let a = clock_of(&[(1, 1)]);
    let b = clock_of(&[(2, 1)]);
    let mut x = ComponentVectorClocks::new();
    x.accept_remote_write(3, "C".to_string(), &a, 1);
    x.accept_remote_write(3, "C".to_string(), &b, 2);
    let mut y = ComponentVectorClocks::new();
    y.accept_remote_write(3, "C".to_string(), &b, 2);
    y.accept_remote_write(3, "C".to_string(), &a, 1);
    assert_eq!(x.get(3, "C").map(|r| r.1), y.get(3, "C").map(|r| r.1));
    assert_eq!(x.get(3, "C").map(|r| r.1), Some(2));
}

#[test]
fn delta_with_delete_records_tombstone() {
    let mut node_clock = NodeVectorClock::new(1);
    let mut tombstones = TombstoneRegistry::new();
    let delete_clock = clock_of(&[(2, 3)]);
    let delta = EntityDelta::new(
        50,
        2,
        clock_of(&[(2, 4)]),
        vec![
            ComponentOp::SetValue { discriminant: 1, data: ComponentData::Inline(vec![1]), vector_clock: clock_of(&[(2, 2)]) },
            ComponentOp::Delete { vector_clock: delete_clock.clone() },
        ],
    );
    let outcome = admit_entity_delta_at(&delta, &mut node_clock, &mut tombstones, 77);
    assert_eq!(outcome, DeltaOutcome::EntityDeleted);
    assert_eq!(node_clock.clock.get(2), 4);
    let t = tombstones.get_tombstone(50).unwrap();
    assert_eq!(t.deletion_clock, delete_clock);
    assert_eq!((t.deleting_node, t.timestamp), (2, 77));
}

#[test]
fn delta_on_deleted_entity_is_ignored_unless_later() {
    let mut node_clock = NodeVectorClock::new(1);
    let mut tombstones = TombstoneRegistry::new();
    tombstones.record_deletion_at(50, 2, clock_of(&[(2, 3)]), 0);

    let stale = EntityDelta::new(50, 3, clock_of(&[(3, 1)]), vec![]);
    assert_eq!(admit_entity_delta(&stale, &mut node_clock, &mut tombstones), DeltaOutcome::Ignored);

    let later = EntityDelta::new(50, 3, clock_of(&[(2, 3), (3, 1)]), vec![]);
    assert_eq!(admit_entity_delta(&later, &mut node_clock, &mut tombstones), DeltaOutcome::Apply);

    let other = EntityDelta::new(51, 3, clock_of(&[(3, 1)]), vec![]);
    assert_eq!(admit_entity_delta(&other, &mut node_clock, &mut tombstones), DeltaOutcome::Apply);
    assert_eq!(tombstones.num_tombstones(), 1);
    assert_eq!(node_clock.clock.get(3), 1);
}
