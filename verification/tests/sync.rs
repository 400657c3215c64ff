use libmarathon::sync::SyncedValue;

#[test]
fn test_synced_value() {
    let node1 = uuid::Uuid::new_v4().as_u128();
    let mut val = SyncedValue::new(42, node1);
    assert_eq!(*val.get(), 42);

    val.set(100, node1);
    assert_eq!(*val.get(), 100);

    let node2 = uuid::Uuid::new_v4().as_u128();
    let old_time = chrono::Utc::now().timestamp_micros() - 10_000_000;
    val.apply_lww(50, old_time, node2);
    assert_eq!(*val.get(), 100);
}

#[test]
fn test_uuid_comparison() {
    let node1 = uuid::Uuid::from_u128(1).as_u128();
    let node2 = uuid::Uuid::from_u128(2).as_u128();

    assert!(node2 > node1, "UUID from_u128(2) should be > from_u128(1)");
}

#[test]
fn lww_tiebreak_and_merge_at_given_times() {
    let mut a = SyncedValue::new_at(100, 1_000, 1);
    a.apply_lww(200, 1_000, 2);
    assert_eq!(*a.get(), 200);
    a.apply_lww(300, 1_000, 1);
    assert_eq!(*a.get(), 200);
    let b = SyncedValue::new_at(400, 2_000, 0);
    let mut ab = a.clone();
    ab.merge(&b);
    let mut ba = b.clone();
    ba.merge(&a);
    assert_eq!(*ab.get(), 400);
    assert_eq!(*ba.get(), 400);
    assert_eq!(ab.timestamp(), 2_000);
    assert_eq!(ab.node_id(), 0);
}
