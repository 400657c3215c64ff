use libmarathon::networking::session_lifecycle::{initial_session, initial_session_at, is_resumable};
use libmarathon::networking::session::{code_from_draws, CurrentSession, Session, SessionId, SessionState};
use libmarathon::networking::vector_clock::VectorClock;

#[test]
fn test_session_id_creation() {
    let id1 = SessionId::new();
    let id2 = SessionId::new();

    assert_ne!(id1, id2);
}

#[test]
fn test_session_code_roundtrip() {
    let id = SessionId::new();
    let code = id.to_code();

    assert_eq!(code.len(), 11);
    assert_eq!(&code[3..4], "-");
    assert_eq!(&code[7..8], "-");

    let parsed = SessionId::from_code(code).expect("Failed to parse code");

    assert_eq!(id, parsed);
}

#[test]
fn test_session_code_deterministic() {
    let code = "abc-def-234";
    let id1 = SessionId::from_code(code).unwrap();
    let id2 = SessionId::from_code(code).unwrap();

    assert_eq!(id1, id2);
}

#[test]
fn test_session_code_case_insensitive() {
    let id1 = SessionId::from_code("abc-def-234").unwrap();
    let id2 = SessionId::from_code("ABC-DEF-234").unwrap();

    assert_eq!(id1, id2);
}

#[test]
fn test_session_code_invalid_format() {
    assert!(SessionId::from_code("abc-def").is_err());
    assert!(SessionId::from_code("abc-def-1234").is_err());
    assert!(SessionId::from_code("abcdef-123").is_err());
    assert!(SessionId::from_code("abc-def123").is_err());
    assert!(SessionId::from_code("ab-cdef-123").is_err());
}

#[test]
fn test_alpn_derivation_deterministic() {
    let id = SessionId::new();
    let alpn1 = id.to_alpn();
    let alpn2 = id.to_alpn();

    assert_eq!(alpn1, alpn2);
}

#[test]
fn test_alpn_derivation_unique() {
    let id1 = SessionId::new();
    let id2 = SessionId::new();

    let alpn1 = id1.to_alpn();
    let alpn2 = id2.to_alpn();

    assert_ne!(alpn1, alpn2);
}

#[test]
fn test_alpn_length() {
    let id = SessionId::new();
    let alpn = id.to_alpn();
    assert_eq!(alpn.len(), 32);
}

#[test]
fn test_session_state_display() {
    assert_eq!(SessionState::Created.to_string(), "created");
    assert_eq!(SessionState::Joining.to_string(), "joining");
    assert_eq!(SessionState::Active.to_string(), "active");
    assert_eq!(SessionState::Disconnected.to_string(), "disconnected");
    assert_eq!(SessionState::Left.to_string(), "left");
}

#[test]
fn test_session_state_from_str() {
    assert_eq!(SessionState::from_str("created"), Some(SessionState::Created));
    assert_eq!(SessionState::from_str("joining"), Some(SessionState::Joining));
    assert_eq!(SessionState::from_str("active"), Some(SessionState::Active));
    assert_eq!(SessionState::from_str("disconnected"), Some(SessionState::Disconnected));
    assert_eq!(SessionState::from_str("left"), Some(SessionState::Left));
    assert_eq!(SessionState::from_str("invalid"), None);
}

#[test]
fn test_session_creation() {
    let id = SessionId::new();
    let session = Session::new(id.clone());

    assert_eq!(session.id, id);
    assert_eq!(session.name, None);
    assert_eq!(session.entity_count, 0);
    assert_eq!(session.state, SessionState::Created);
    assert_eq!(session.secret, None);
    assert!(session.created_at > 0);
    assert_eq!(session.created_at, session.last_active);
}

#[test]
fn test_session_transition() {
    let id = SessionId::new();
    let mut session = Session::new(id);

    let initial_state = session.state;
    let initial_time = session.last_active;

    session.transition_to(SessionState::Joining);

    assert_ne!(session.state, initial_state);
    assert_eq!(session.state, SessionState::Joining);
    assert!(session.last_active >= initial_time);
}

#[test]
fn test_session_display() {
    let id = SessionId::new();
    let code = id.to_code();
    let display = id.to_string();

    assert_eq!(code, &display);
}

#[test]
fn test_current_session_creation() {
    let id = SessionId::new();
    let session = Session::new(id);
    let clock = VectorClock::new();

    let current = CurrentSession::new(session.clone(), clock);

    assert_eq!(current.session.id, session.id);
    assert_eq!(current.session.state, SessionState::Created);
}

#[test]
fn test_current_session_transition() {
    let id = SessionId::new();
    let session = Session::new(id);
    let clock = VectorClock::new();

    let mut current = CurrentSession::new(session, clock);
    current.transition_to(SessionState::Active);

    assert_eq!(current.session.state, SessionState::Active);
}

#[test]
fn session_identifier_is_the_code_digest() {
    let id = SessionId::from_code("abc-def-234").unwrap();
    let mut data = b"/app/v1/session-code/".to_vec();
    data.extend_from_slice(b"abc-def-234");
    let digest = blake3::hash(&data);
    let expected = u128::from_be_bytes(digest.as_bytes()[..16].try_into().unwrap());
    assert_eq!(id.as_uuid(), expected);
    let mut alpn_input = b"/app/v1/session-id/".to_vec();
    alpn_input.extend_from_slice(&expected.to_be_bytes());
    assert_eq!(id.to_alpn(), *blake3::hash(&alpn_input).as_bytes());
}

#[test]
fn session_code_rejects_characters_outside_the_alphabet() {
    // '1', 'i', 'l', 'o' and '0' are left out of codes as look-alikes.
    assert!(SessionId::from_code("abc-def-231").is_err());
    assert!(SessionId::from_code("abc-dei-234").is_err());
    assert!(SessionId::from_code("abc-d f-234").is_err());
    assert!(SessionId::from_code("ABC-DEF-234").unwrap().to_code() == "abc-def-234");
}

#[test]
fn session_pkarr_keypair_is_shared() {
    let a = SessionId::from_code("abc-def-234").unwrap();
    let b = SessionId::from_code("ABC-def-234").unwrap();
    assert!(a.to_pkarr_keypair() == b.to_pkarr_keypair());
    let mut input = b"/app/v1/session-pkarr-key/".to_vec();
    input.extend_from_slice(&a.as_uuid().to_be_bytes());
    assert_eq!(a.to_pkarr_keypair().secret_key(), *blake3::hash(&input).as_bytes());
}

#[test]
fn test_session_roundtrip() {
    let session_id = SessionId::new();
    let mut session = Session::new(session_id.clone());
    session.entity_count = 5;
    session.transition_to(SessionState::Active);

    assert!(session.last_active >= session.created_at);
    assert_eq!(session.state, SessionState::Active);
    assert_eq!(session.entity_count, 5);
}

#[test]
fn test_session_state_transitions() {
    let session_id = SessionId::new();
    let session = Session::new(session_id);
    let mut current = CurrentSession::new(session, VectorClock::new());

    assert_eq!(current.session.state, SessionState::Created);

    current.transition_to(SessionState::Joining);
    assert_eq!(current.session.state, SessionState::Joining);

    current.transition_to(SessionState::Active);
    assert_eq!(current.session.state, SessionState::Active);
}

#[test]
fn cloned_session_id_is_equal() {
    let id = SessionId::new();
    let copy = id.clone();
    assert_eq!(copy, id);
    assert_eq!(copy.to_code(), id.to_code());
}

#[test]
fn startup_resumes_active_or_disconnected_session() {
    for state in [SessionState::Active, SessionState::Disconnected] {
        let id = SessionId::new();
        let mut stored = Session::new_at(id.clone(), 100);
        stored.entity_count = 3;
        stored.state = state;
        let mut clock = VectorClock::new();
        clock.increment(4);
        let current = initial_session_at(Some(stored), Some(clock.clone()), 250);
        assert_eq!(current.session.id, id);
        assert_eq!(current.session.state, SessionState::Joining);
        assert_eq!(current.session.created_at, 100);
        assert_eq!(current.session.last_active, 250);
        assert_eq!(current.session.entity_count, 3);
        assert_eq!(current.last_known_clock, clock);
        assert!(is_resumable(state));
    }
}

#[test]
fn startup_resumes_with_empty_clock_when_none_stored() {
    let mut stored = Session::new_at(SessionId::new(), 100);
    stored.state = SessionState::Active;
    let current = initial_session_at(Some(stored), None, 250);
    assert_eq!(current.session.state, SessionState::Joining);
    assert_eq!(current.last_known_clock, VectorClock::new());
}

#[test]
fn startup_creates_new_session_otherwise() {
    let left_id = SessionId::new();
    let mut stored = Session::new_at(left_id.clone(), 100);
    stored.state = SessionState::Left;
    let current = initial_session_at(Some(stored), None, 250);
    assert_ne!(current.session.id, left_id);
    assert_eq!(current.session.state, SessionState::Created);
    assert_eq!(current.session.created_at, 250);
    assert_eq!(current.session.entity_count, 0);
    assert_eq!(current.last_known_clock, VectorClock::new());
    assert!(!is_resumable(SessionState::Left));
    assert!(!is_resumable(SessionState::Created));
    assert!(!is_resumable(SessionState::Joining));

    let current = initial_session(None, None);
    assert_eq!(current.session.state, SessionState::Created);
}

#[test]
fn session_code_dashes_only_at_group_boundaries() {
    assert!(SessionId::from_code("-----------").is_err());
    assert!(SessionId::from_code("a-c-def-234").is_err());
    assert!(SessionId::from_code("abc-d-f-234").is_err());
    assert!(SessionId::from_code("abc-def-2-4").is_err());
    assert!(SessionId::from_code("abc-def-234").is_ok());
}

#[test]
fn session_code_spells_the_draws() {
    assert_eq!(code_from_draws(&vec![0, 1, 2, 8, 9, 10, 11, 12, 30]), "abc-jkm-np9");
    assert_eq!(code_from_draws(&vec![22, 23, 7, 0, 0, 0, 29, 30, 24]), "z2h-aaa-893");
    let id = SessionId::new();
    let code = id.to_code().to_string();
    assert_eq!(code.len(), 11);
    assert_eq!(&code[3..4], "-");
    assert_eq!(&code[7..8], "-");
    assert!(code.chars().enumerate().all(|(i, c)| i == 3 || i == 7 || "abcdefghjkmnpqrstuvwxyz23456789".contains(c)));
    let back = SessionId::from_code(&code).unwrap();
    assert_eq!(back, id);
}
