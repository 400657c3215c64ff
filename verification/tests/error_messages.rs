use libmarathon::ids::id_to_text;
use libmarathon::networking::error::NetworkingError;
use libmarathon::persistence::error::PersistenceError;
use libmarathon::text::decimal_text;

#[test]
fn decimal_text_writes_digits() {
    assert_eq!(decimal_text(0), "0");
    assert_eq!(decimal_text(7), "7");
    assert_eq!(decimal_text(10), "10");
    assert_eq!(decimal_text(1024), "1024");
    assert_eq!(decimal_text(u64::MAX), "18446744073709551615");
}

#[test]
fn id_text_is_hyphenated_lower_hex() {
    let id: u128 = 0xa1a2a3a4_b1b2_c1c2_d1d2_d3d4d5d6d7d8;
    assert_eq!(id_to_text(id), "a1a2a3a4-b1b2-c1c2-d1d2-d3d4d5d6d7d8");
    assert_eq!(id_to_text(0), "00000000-0000-0000-0000-000000000000");
}

#[test]
fn networking_error_messages() {
    assert_eq!(
        NetworkingError::Serialization("bad".to_string()).message(),
        "Serialization error: bad"
    );
    assert_eq!(NetworkingError::Gossip("down".to_string()).message(), "Gossip error: down");
    assert_eq!(NetworkingError::RateLimitExceeded.message(), "Rate limit exceeded");
    assert_eq!(NetworkingError::Other("plain".to_string()).message(), "plain");
    assert_eq!(
        NetworkingError::EntityNotFound(0x0123456789abcdef0123456789abcdef).message(),
        "Entity not found: 01234567-89ab-cdef-0123-456789abcdef"
    );
}

#[test]
fn persistence_error_messages() {
    assert_eq!(
        PersistenceError::Config("missing key".to_string()).message(),
        "Configuration error: missing key"
    );
    assert_eq!(
        PersistenceError::TypeNotRegistered("Foo".to_string()).message(),
        "Type not registered in type registry: Foo"
    );
    assert_eq!(
        PersistenceError::CircuitBreakerOpen { consecutive_failures: 5, retry_after_secs: 60 }.message(),
        "Circuit breaker open after 5 consecutive failures, retry after 60 seconds"
    );
    assert_eq!(
        PersistenceError::ComponentTooLarge {
            component_type: "HugeComponent".to_string(),
            size_bytes: 1024,
            max_bytes: 100,
        }
        .message(),
        "Component 'HugeComponent' size (1024 bytes) exceeds maximum (100 bytes). This may indicate unbounded data growth or serialization issues."
    );
    assert_eq!(PersistenceError::Other("x".to_string()).message(), "x");
}

#[test]
fn persistence_error_wraps_io_and_database_text() {
    let io = std::io::Error::new(std::io::ErrorKind::Other, "disk gone");
    assert_eq!(PersistenceError::Io(io).message(), "I/O error: disk gone");
    let db = PersistenceError::Database(rusqlite::Error::InvalidQuery);
    assert!(db.message().starts_with("Database error: "));
}
