//! The session a node starts in: the last session resumed when it was left
//! active or disconnected, a new one otherwise.

use vstd::prelude::*;

use crate::networking::session::{CurrentSession, Session, SessionId, SessionState};
use crate::time::unix_now_secs;
use crate::networking::vector_clock::VectorClock;

verus! {

/// Whether a session found on startup is resumed: it was active or
/// disconnected when the node stopped.
pub open spec fn resumable(state: SessionState) -> bool {
    state == SessionState::Active || state == SessionState::Disconnected
}

/// Whether a session in this state is resumed on startup.
pub fn is_resumable(state: SessionState) -> (r: bool)
    ensures
        r == resumable(state),
{
    match state {
        SessionState::Active | SessionState::Disconnected => true,
        _ => false,
    }
}

/// Whether `c` is the session a node starts in at Unix time `now`, from the
/// last active session found in storage and that session's stored clock.
///
/// A resumable session is rejoined: it moves to `Joining` and keeps the stored
/// clock (an empty one when none could be read). Otherwise a new session is
/// created, with an empty clock.
pub open spec fn starts_in(
    c: CurrentSession,
    last: Option<Session>,
    last_clock: Option<VectorClock>,
    now: i64,
) -> bool {
    if last is Some && resumable(last->0.state) {
        &&& c.session == (Session { state: SessionState::Joining, last_active: now, ..last->0 })
        &&& c.last_known_clock@ == (match last_clock {
            Some(k) => k@,
            None => Map::<u128, u64>::empty(),
        })
    } else {
        &&& c.session.state == SessionState::Created
        &&& c.session.created_at == now
        &&& c.session.last_active == now
        &&& c.session.entity_count == 0
        &&& c.session.name is None
        &&& c.session.secret is None
        &&& c.last_known_clock@ == Map::<u128, u64>::empty()
    }
}

/// The session a node starts in at Unix time `now`; a new session gets a
/// fresh identifier.
pub fn initial_session_at(last: Option<Session>, last_clock: Option<VectorClock>, now: i64) -> (c:
    CurrentSession)
    ensures
        starts_in(c, last, last_clock, now),
{
    match last {
        Some(mut session) => {
            if is_resumable(session.state) {
                session.transition_to_at(SessionState::Joining, now);
                let clock = match last_clock {
                    Some(k) => k,
                    None => VectorClock::new(),
                };
                return CurrentSession::new(session, clock);
            }
        },
        None => {},
    }
    CurrentSession::new(Session::new_at(SessionId::new(), now), VectorClock::new())
}

/// The session a node starts in now.
pub fn initial_session(last: Option<Session>, last_clock: Option<VectorClock>) -> (c: CurrentSession)
    ensures
        exists|now: i64| starts_in(c, last, last_clock, now),
{
    let now = unix_now_secs();
    let c = initial_session_at(last, last_clock, now);
    assert(starts_in(c, last, last_clock, now));
    c
}

} // verus!
