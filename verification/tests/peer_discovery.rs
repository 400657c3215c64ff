use libmarathon::engine::peer_discovery::{parse_peer_record, peer_record, records_to_publish};

fn id(first: u8) -> [u8; 32] {
    let mut b = [0u8; 32];
    for (i, x) in b.iter_mut().enumerate() {
        *x = first.wrapping_add(i as u8);
    }
    b
}

#[test]
fn peer_record_is_prefixed_lowercase_hex() {
    let record = peer_record(&[0xab; 32]);
    assert_eq!(record, format!("peer={}", "ab".repeat(32)));
    let record = peer_record(&id(0));
    assert!(record.starts_with("peer=000102030405060708090a0b0c0d0e0f"));
    assert_eq!(record.len(), 5 + 64);
}

#[test]
fn peer_record_parses_back() {
    let e = id(0xf0);
    assert_eq!(parse_peer_record(&peer_record(&e)), Some(e.to_vec()));
    let upper = format!("peer={}", "AB".repeat(32));
    assert_eq!(parse_peer_record(&upper), Some(vec![0xab; 32]));
    let mixed = format!("peer={}{}", "aB".repeat(16), "Cd".repeat(16));
    let mut expected = vec![0xab; 16];
    expected.extend(vec![0xcd; 16]);
    assert_eq!(parse_peer_record(&mixed), Some(expected));
}

#[test]
fn malformed_peer_records_are_rejected() {
    assert_eq!(parse_peer_record(""), None);
    assert_eq!(parse_peer_record("peer="), None);
    assert_eq!(parse_peer_record(&format!("node={}", "ab".repeat(32))), None);
    assert_eq!(parse_peer_record(&format!("peer={}", "ab".repeat(31))), None);
    assert_eq!(parse_peer_record(&format!("peer={}", "ab".repeat(33))), None);
    assert_eq!(parse_peer_record(&format!("peer={}a", "ab".repeat(31))), None);
    assert_eq!(parse_peer_record(&format!("peer={}zz", "ab".repeat(31))), None);
}

#[test]
fn published_records_keep_others_and_add_ours_last() {
    let ours = id(1);
    let existing = vec![id(2), ours, id(3)];
    let records = records_to_publish(&existing, &ours);
    assert_eq!(records, vec![peer_record(&id(2)), peer_record(&id(3)), peer_record(&ours)]);
    let records = records_to_publish(&vec![], &ours);
    assert_eq!(records, vec![peer_record(&ours)]);
}
