use libmarathon::networking::orset::OrSet;
use std::collections::HashSet;

#[test]
fn test_orset_new() {
    let set: OrSet<String> = OrSet::new();
    assert!(set.is_empty());
    assert_eq!(set.len(), 0);
}

#[test]
fn test_orset_add() {
    let node = uuid::Uuid::new_v4().as_u128();
    let mut set: OrSet<String> = OrSet::new();

    let (_, was_new) = set.add("foo".to_string(), node);
    assert!(was_new);
    assert!(set.contains(&"foo".to_string()));
    assert_eq!(set.len(), 1);
}

#[test]
fn test_orset_add_duplicate() {
    let node = uuid::Uuid::new_v4().as_u128();
    let mut set: OrSet<String> = OrSet::new();

    let (id1, was_new1) = set.add("foo".to_string(), node);
    assert!(was_new1);

    let (id2, was_new2) = set.add("foo".to_string(), node);
    assert!(!was_new2);
    assert_ne!(id1, id2);

    assert_eq!(set.len(), 1);
    let ids = set.get_operation_ids(&"foo".to_string());
    assert_eq!(ids.len(), 2);
}

#[test]
fn test_orset_remove() {
    let node = uuid::Uuid::new_v4().as_u128();
    let mut set: OrSet<String> = OrSet::new();

    let (id, _) = set.add("foo".to_string(), node);
    assert!(set.contains(&"foo".to_string()));

    set.remove(vec![id]);
    assert!(!set.contains(&"foo".to_string()));
    assert_eq!(set.len(), 0);
}

#[test]
fn test_orset_add_remove_add() {
    let node = uuid::Uuid::new_v4().as_u128();
    let mut set: OrSet<String> = OrSet::new();

    let (id1, _) = set.add("foo".to_string(), node);
    assert!(set.contains(&"foo".to_string()));

    set.remove(vec![id1]);
    assert!(!set.contains(&"foo".to_string()));

    let (_id2, was_new) = set.add("foo".to_string(), node);
    assert!(was_new);
    assert!(set.contains(&"foo".to_string()));
}

#[test]
fn test_orset_merge_simple() {
    let node1 = uuid::Uuid::new_v4().as_u128();
    let node2 = uuid::Uuid::new_v4().as_u128();

    let mut set1: OrSet<String> = OrSet::new();
    set1.add("foo".to_string(), node1);

    let mut set2: OrSet<String> = OrSet::new();
    set2.add("bar".to_string(), node2);

    set1.merge(&set2);

    assert_eq!(set1.len(), 2);
    assert!(set1.contains(&"foo".to_string()));
    assert!(set1.contains(&"bar".to_string()));
}

#[test]
fn test_orset_merge_add_wins() {
    let node1 = uuid::Uuid::new_v4().as_u128();
    let node2 = uuid::Uuid::new_v4().as_u128();

    let mut set1: OrSet<String> = OrSet::new();
    let (id, _) = set1.add("foo".to_string(), node1);
    set1.remove(vec![id]);

    let mut set2: OrSet<String> = OrSet::new();
    set2.add("foo".to_string(), node2);

    set1.merge(&set2);

    assert!(set1.contains(&"foo".to_string()));
}

#[test]
fn test_orset_merge_observed_remove() {
    let node1 = uuid::Uuid::new_v4().as_u128();

    let mut set1: OrSet<String> = OrSet::new();
    let (id, _) = set1.add("foo".to_string(), node1);

    let mut set2 = set1.clone();

    set2.remove(vec![id]);

    set1.merge(&set2);

    assert!(!set1.contains(&"foo".to_string()));
}

#[test]
fn test_orset_values() {
    let node = uuid::Uuid::new_v4().as_u128();
    let mut set: OrSet<String> = OrSet::new();

    set.add("foo".to_string(), node);
    set.add("bar".to_string(), node);
    set.add("baz".to_string(), node);

    let values: HashSet<String> = set.values().into_iter().collect();
    assert_eq!(values.len(), 3);
    assert!(values.contains("foo"));
    assert!(values.contains("bar"));
    assert!(values.contains("baz"));
}

#[test]
fn test_orset_garbage_collect() {
    let node = uuid::Uuid::new_v4().as_u128();
    let mut set: OrSet<String> = OrSet::new();

    let (id1, _) = set.add("foo".to_string(), node);
    let (_id2, _) = set.add("bar".to_string(), node);

    set.remove(vec![id1]);

    assert_eq!(set.num_adds(), 2);
    assert_eq!(set.num_tombstones(), 1);

    set.garbage_collect();

    assert_eq!(set.num_adds(), 1);
    assert_eq!(set.num_tombstones(), 1);
    assert!(set.contains(&"bar".to_string()));
    assert!(!set.contains(&"foo".to_string()));
}

#[test]
fn test_orset_clear() {
    let node = uuid::Uuid::new_v4().as_u128();
    let mut set: OrSet<String> = OrSet::new();

    set.add("foo".to_string(), node);
    set.add("bar".to_string(), node);
    assert_eq!(set.len(), 2);

    set.clear();
    assert!(set.is_empty());
    assert_eq!(set.len(), 0);
}

#[test]
fn orset_merge_commutes_on_values() {
    let mut a: OrSet<u32> = OrSet::new();
    let mut b: OrSet<u32> = OrSet::new();
    let (ia, _) = a.add(1, 10);
    b.add(2, 20);
    b.add(1, 20);
    a.remove(vec![ia]);
    let mut ab = a.clone();
    ab.merge(&b);
    let mut ba = b.clone();
    ba.merge(&a);
    let mut x: Vec<u32> = ab.values();
    let mut y: Vec<u32> = ba.values();
    x.sort();
    y.sort();
    assert_eq!(x, vec![1, 2]);
    assert_eq!(x, y);
}

#[test]
fn add_with_fresh_id_adds_exactly_that_id() {
    let mut set: OrSet<String> = OrSet::new();
    assert!(set.add_with_id(10, "foo".to_string(), 1));
    assert!(!set.add_with_id(11, "foo".to_string(), 2));
    assert!(set.add_with_id(12, "bar".to_string(), 1));
    assert_eq!(set.len(), 2);
    let mut ids = set.get_operation_ids(&"foo".to_string());
    ids.sort();
    assert_eq!(ids, vec![10, 11]);
    assert_eq!(set.get_operation_ids(&"bar".to_string()), vec![12]);
}

#[test]
fn second_add_of_a_value_gets_a_new_id() {
    let mut set: OrSet<String> = OrSet::new();
    let (first, new1) = set.add("foo".to_string(), 1);
    let (second, new2) = set.add("foo".to_string(), 1);
    assert!(new1);
    assert!(!new2);
    assert_ne!(first, second);
    assert_eq!(set.len(), 1);
    assert_eq!(set.get_operation_ids(&"foo".to_string()).len(), 2);
}
