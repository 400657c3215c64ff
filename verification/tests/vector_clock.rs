use libmarathon::networking::vector_clock::VectorClock;

#[test]
fn test_new_clock() {
    let clock = VectorClock::new();
    assert_eq!(clock.timestamps.len(), 0);
}

#[test]
fn test_increment() {
    let node = uuid::Uuid::new_v4().as_u128();
    let mut clock = VectorClock::new();

    assert_eq!(clock.increment(node), 1);
    assert_eq!(clock.get(node), 1);

    assert_eq!(clock.increment(node), 2);
    assert_eq!(clock.get(node), 2);
}

#[test]
fn test_get_unknown_node() {
    let clock = VectorClock::new();
    let node = uuid::Uuid::new_v4().as_u128();

    assert_eq!(clock.get(node), 0);
}

#[test]
fn test_merge() {
    let node1 = uuid::Uuid::new_v4().as_u128();
    let node2 = uuid::Uuid::new_v4().as_u128();

    let mut clock1 = VectorClock::new();
    clock1.increment(node1);
    clock1.increment(node1);

    let mut clock2 = VectorClock::new();
    clock2.increment(node2);

    clock1.merge(&clock2);

    assert_eq!(clock1.get(node1), 2);
    assert_eq!(clock1.get(node2), 1);
}

#[test]
fn test_merge_takes_max() {
    let node = uuid::Uuid::new_v4().as_u128();

    let mut clock1 = VectorClock::new();
    clock1.increment(node);

    let mut clock2 = VectorClock::new();
    clock2.increment(node);
    clock2.increment(node);

    clock1.merge(&clock2);
    assert_eq!(clock1.get(node), 2);
}

#[test]
fn test_happened_before() {
    let node = uuid::Uuid::new_v4().as_u128();

    let mut clock1 = VectorClock::new();
    clock1.increment(node);

    let mut clock2 = VectorClock::new();
    clock2.increment(node);
    clock2.increment(node);

    assert!(clock1.happened_before(&clock2));
    assert!(!clock2.happened_before(&clock1));
}

#[test]
fn test_happened_before_multiple_nodes() {
    let node1 = uuid::Uuid::new_v4().as_u128();
    let node2 = uuid::Uuid::new_v4().as_u128();

    let mut clock1 = VectorClock::new();
    clock1.increment(node1);

    let mut clock2 = VectorClock::new();
    clock2.increment(node1);
    clock2.increment(node2);

    assert!(clock1.happened_before(&clock2));
    assert!(!clock2.happened_before(&clock1));
}

#[test]
fn test_concurrent() {
    let node1 = uuid::Uuid::new_v4().as_u128();
    let node2 = uuid::Uuid::new_v4().as_u128();

    let mut clock1 = VectorClock::new();
    clock1.increment(node1);

    let mut clock2 = VectorClock::new();
    clock2.increment(node2);

    assert!(clock1.is_concurrent_with(&clock2));
    assert!(clock2.is_concurrent_with(&clock1));
}

#[test]
fn test_happened_before_with_disjoint_nodes() {
    let node1 = uuid::Uuid::new_v4().as_u128();
    let node2 = uuid::Uuid::new_v4().as_u128();

    let mut clock1 = VectorClock::new();
    clock1.increment(node1);

    let mut clock2 = VectorClock::new();
    clock2.increment(node2);

    assert!(!clock1.happened_before(&clock2));
    assert!(!clock2.happened_before(&clock1));
    assert!(clock1.is_concurrent_with(&clock2));
}

#[test]
fn test_happened_before_with_superset_nodes() {
    let node1 = uuid::Uuid::new_v4().as_u128();
    let node2 = uuid::Uuid::new_v4().as_u128();

    let mut clock1 = VectorClock::new();
    clock1.increment(node1);

    let mut clock2 = VectorClock::new();
    clock2.increment(node1);
    clock2.increment(node2);

    assert!(clock1.happened_before(&clock2));
    assert!(!clock2.happened_before(&clock1));
    assert!(!clock1.is_concurrent_with(&clock2));
}

#[test]
fn test_identical_clocks() {
    let node = uuid::Uuid::new_v4().as_u128();

    let mut clock1 = VectorClock::new();
    clock1.increment(node);

    let mut clock2 = VectorClock::new();
    clock2.increment(node);

    assert_eq!(clock1, clock2);
    assert!(!clock1.happened_before(&clock2));
    assert!(!clock2.happened_before(&clock1));
    assert!(!clock1.is_concurrent_with(&clock2));
}

#[test]
fn test_compare() {
    let node = uuid::Uuid::new_v4().as_u128();

    let mut clock1 = VectorClock::new();
    clock1.increment(node);

    let mut clock2 = VectorClock::new();
    clock2.increment(node);
    clock2.increment(node);

    assert_eq!(clock1.compare(&clock2).unwrap(), std::cmp::Ordering::Less);
    assert_eq!(clock2.compare(&clock1).unwrap(), std::cmp::Ordering::Greater);
    assert_eq!(clock1.compare(&clock1).unwrap(), std::cmp::Ordering::Equal);
}

#[test]
fn test_compare_concurrent() {
    let node1 = uuid::Uuid::new_v4().as_u128();
    let node2 = uuid::Uuid::new_v4().as_u128();

    let mut clock1 = VectorClock::new();
    clock1.increment(node1);

    let mut clock2 = VectorClock::new();
    clock2.increment(node2);

    assert!(clock1.compare(&clock2).is_err());
}

#[test]
fn vector_clock_merge_is_commutative_on_values() {
    let a = 1u128;
    let b = 2u128;
    let mut x = VectorClock::new();
    x.increment(a);
    x.increment(a);
    let mut y = VectorClock::new();
    y.increment(b);
    y.increment(a);
    let mut xy = x.clone();
    xy.merge(&y);
    let mut yx = y.clone();
    yx.merge(&x);
    assert_eq!(xy, yx);
    assert_eq!(xy.get(a), 2);
    assert_eq!(xy.get(b), 1);
    assert_eq!(xy.node_count(), 2);
    let mut xx = x.clone();
    xx.merge(&x);
    assert_eq!(xx, x);
}

#[test]
fn vector_clock_increment_happens_after() {
    let a = 7u128;
    let mut x = VectorClock::new();
    x.increment(a);
    let before = x.clone();
    x.increment(a);
    assert!(before.happened_before(&x));
    assert!(!x.happened_before(&before));
    assert!(!before.is_concurrent_with(&x));
}
