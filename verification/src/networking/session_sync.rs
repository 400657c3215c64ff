//! The decisions of session synchronization: when a joining node becomes
//! active, and which remote writes of a component win.

use vstd::prelude::*;

use crate::ids::NodeId;
use crate::networking::join_protocol::build_join_request;
use crate::networking::messages::{JoinType, SyncMessage, VersionedMessage, CURRENT_VERSION};
use crate::networking::session::{CurrentSession, Session, SessionState};
use crate::networking::vector_clock::{
    clock_concurrent,
    clock_lt,
    lemma_clock_trichotomy,
    VectorClock,
};
use crate::time::{elapsed, elapsed_millis, now_millis};

verus! {

/// How long a joining node waits for peers before it goes active alone, in
/// milliseconds.
pub const JOIN_TIMEOUT_MS: u64 = 3000;

/// One step of the join state machine: the state and join timer after
/// observing, at time `now`, whether the join request was sent, how many
/// networked entities exist and how many nodes the clock knows.
///
/// A joining node starts its timer once the request is sent; it becomes
/// active when it holds entities from at least one peer, or when the timer
/// has run `JOIN_TIMEOUT_MS`. In every other state the timer is cleared and
/// the state kept.
pub open spec fn join_step(
    state: SessionState,
    timer: Option<u64>,
    join_request_sent: bool,
    entity_count: nat,
    clock_node_count: nat,
    now: u64,
) -> (SessionState, Option<u64>) {
    if state == SessionState::Joining {
        let started = if join_request_sent && timer is None {
            Some(now)
        } else {
            timer
        };
        let ready = (entity_count > 0 && clock_node_count > 1) || (started is Some && elapsed(
            now,
            started->0,
        ) >= JOIN_TIMEOUT_MS);
        if ready {
            (SessionState::Active, None)
        } else {
            (SessionState::Joining, started)
        }
    } else {
        (state, None)
    }
}

/// One step of the join state machine.
pub fn transition_session_state(
    state: SessionState,
    timer: Option<u64>,
    join_request_sent: bool,
    entity_count: usize,
    clock_node_count: usize,
    now: u64,
) -> (r: (SessionState, Option<u64>))
    ensures
        r == join_step(state, timer, join_request_sent, entity_count as nat, clock_node_count as nat, now),
{
    match state {
        SessionState::Joining => {
            let started = if join_request_sent && timer.is_none() {
                Some(now)
            } else {
                timer
            };
            let timed_out = match started {
                Some(t) => elapsed_millis(now, t) >= JOIN_TIMEOUT_MS,
                None => false,
            };
            if (entity_count > 0 && clock_node_count > 1) || timed_out {
                (SessionState::Active, None)
            } else {
                (SessionState::Joining, started)
            }
        },
        _ => (state, None),
    }
}

/// An active session stays active, whatever is observed.
pub proof fn lemma_active_stays_active(
    timer: Option<u64>,
    sent: bool,
    entities: nat,
    nodes: nat,
    now: u64,
)
    ensures
        join_step(SessionState::Active, timer, sent, entities, nodes, now) == (
            SessionState::Active,
            None::<u64>,
        ),
{
}

/// A joining node whose request was sent goes active once the timeout has
/// passed since its timer started, peers or not.
pub proof fn lemma_join_times_out(started: u64, entities: nat, nodes: nat, now: u64)
    requires
        now >= started + JOIN_TIMEOUT_MS,
    ensures
        join_step(SessionState::Joining, Some(started), true, entities, nodes, now).0
            == SessionState::Active,
{
}

/// One step of the join state machine applied to the current session at
/// time `now` (milliseconds; `now_secs` is the same moment in Unix seconds):
/// the session after the step and the join timer. When a joining session
/// becomes active, it moves to `Active` with its activity recorded at
/// `now_secs`; otherwise the session is left as it is.
pub open spec fn session_join_step(
    c: CurrentSession,
    timer: Option<u64>,
    join_request_sent: bool,
    entity_count: nat,
    clock_node_count: nat,
    now: u64,
    now_secs: i64,
) -> (CurrentSession, Option<u64>) {
    let (state, t) = join_step(c.session.state, timer, join_request_sent, entity_count, clock_node_count, now);
    if c.session.state == SessionState::Joining && state == SessionState::Active {
        (
            CurrentSession {
                session: Session { state: SessionState::Active, last_active: now_secs, ..c.session },
                last_known_clock: c.last_known_clock,
            },
            t,
        )
    } else {
        (c, t)
    }
}

/// One step of the join state machine applied to the current session at
/// time `now`; returns the join timer after the step.
pub fn advance_session_at(
    current: &mut CurrentSession,
    timer: Option<u64>,
    join_request_sent: bool,
    entity_count: usize,
    clock_node_count: usize,
    now: u64,
    now_secs: i64,
) -> (t: Option<u64>)
    ensures
        (*final(current), t) == session_join_step(
            *old(current),
            timer,
            join_request_sent,
            entity_count as nat,
            clock_node_count as nat,
            now,
            now_secs,
        ),
{
    let (state, t) = transition_session_state(
        current.session.state,
        timer,
        join_request_sent,
        entity_count,
        clock_node_count,
        now,
    );
    if current.session.state == SessionState::Joining && state == SessionState::Active {
        current.session.transition_to_at(SessionState::Active, now_secs);
    }
    t
}

/// One step of the join state machine applied to the current session now;
/// returns the join timer after the step.
pub fn advance_session(
    current: &mut CurrentSession,
    timer: Option<u64>,
    join_request_sent: bool,
    entity_count: usize,
    clock_node_count: usize,
) -> (t: Option<u64>)
    ensures
        exists|now: u64, now_secs: i64|
            (*final(current), t) == #[trigger] session_join_step(
                *old(current),
                timer,
                join_request_sent,
                entity_count as nat,
                clock_node_count as nat,
                now,
                now_secs,
            ),
{
    let now = now_millis();
    let now_secs = (now / 1000) as i64;
    advance_session_at(current, timer, join_request_sent, entity_count, clock_node_count, now, now_secs)
}

/// How long a joining node waits for a peer before it sends its join request
/// anyway (it is probably the first node), in milliseconds.
pub const JOIN_REQUEST_WAIT_MS: u64 = 1000;

/// Whether the join request was sent, and when the node started waiting for
/// peers (milliseconds since the Unix epoch).
#[derive(Clone, Copy, PartialEq, Eq, Structural, Debug)]
pub struct JoinRequestSent {
    pub sent: bool,
    pub wait_started: Option<u64>,
}

impl Default for JoinRequestSent {
    /// Not sent, not waiting.
    fn default() -> (r: Self)
        ensures
            r == (JoinRequestSent { sent: false, wait_started: None }),
    {
        JoinRequestSent { sent: false, wait_started: None }
    }
}

/// Whether to send the join request at time `now`, and the wait timer after
/// the decision. Nothing happens once the request is sent or outside the
/// joining state. Otherwise the timer starts if it has not, and the request
/// goes out when a peer is known (the clock knows more than this node) or
/// the node has waited `JOIN_REQUEST_WAIT_MS`.
pub open spec fn join_send_step(
    sent: bool,
    wait_started: Option<u64>,
    state: SessionState,
    clock_node_count: nat,
    now: u64,
) -> (bool, Option<u64>) {
    if sent || state != SessionState::Joining {
        (false, wait_started)
    } else {
        let started = if wait_started is None {
            now
        } else {
            wait_started->0
        };
        (clock_node_count > 1 || elapsed(now, started) >= JOIN_REQUEST_WAIT_MS, Some(started))
    }
}

impl JoinRequestSent {
    /// Decide at time `now` whether to send the join request, starting the
    /// wait timer when needed. The request is marked sent by the caller once
    /// it went out.
    pub fn should_send_at(&mut self, state: SessionState, clock_node_count: usize, now: u64) -> (send:
        bool)
        ensures
            final(self).sent == old(self).sent,
            (send, final(self).wait_started) == join_send_step(
                old(self).sent,
                old(self).wait_started,
                state,
                clock_node_count as nat,
                now,
            ),
    {
        if self.sent || state != SessionState::Joining {
            return false;
        }
        let started = match self.wait_started {
            Some(t) => t,
            None => now,
        };
        self.wait_started = Some(started);
        clock_node_count > 1 || elapsed_millis(now, started) >= JOIN_REQUEST_WAIT_MS
    }

    /// Decide now whether to send the join request.
    pub fn should_send(&mut self, state: SessionState, clock_node_count: usize) -> (send: bool)
        ensures
            final(self).sent == old(self).sent,
            exists|now: u64|
                (send, final(self).wait_started) == join_send_step(
                    old(self).sent,
                    old(self).wait_started,
                    state,
                    clock_node_count as nat,
                    now,
                ),
    {
        let now = now_millis();
        self.should_send_at(state, clock_node_count, now)
    }
}

/// Whether `m` is the join request of node `node_id` for its current
/// session: a rejoin, with the last known clock, when that clock knows any
/// node; a fresh join without a clock otherwise.
pub open spec fn is_join_request_for(
    m: VersionedMessage,
    current: CurrentSession,
    node_id: NodeId,
    session_secret: Option<Vec<u8>>,
) -> bool {
    &&& m.version == CURRENT_VERSION
    &&& m.nonce == 0
    &&& m.message matches SyncMessage::JoinRequest {
        node_id: n,
        session_id: s,
        session_secret: secret,
        last_known_clock: clock,
        join_type: j,
    } && n == node_id && s == current.session.id && secret == session_secret && (clock is Some
        <==> current.last_known_clock@.dom().len() > 0) && (clock matches Some(c) ==> c@
        == current.last_known_clock@) && j == (if current.last_known_clock@.dom().len() > 0 {
        JoinType::Rejoin {
            last_active: current.session.last_active,
            entity_count: current.session.entity_count,
        }
    } else {
        JoinType::Fresh
    })
}

/// The join request of a node for its current session: a rejoin, with the
/// last known clock, when that clock knows any node; a fresh join without a
/// clock otherwise.
pub fn join_request_for(current: &CurrentSession, node_id: NodeId, session_secret: Option<Vec<u8>>) -> (m:
    VersionedMessage)
    ensures
        is_join_request_for(m, *current, node_id, session_secret),
{
    let rejoin = current.last_known_clock.node_count() > 0;
    let join_type = if rejoin {
        JoinType::Rejoin {
            last_active: current.session.last_active,
            entity_count: current.session.entity_count,
        }
    } else {
        JoinType::Fresh
    };
    let last_known_clock = if rejoin {
        Some(current.last_known_clock.clone())
    } else {
        None
    };
    build_join_request(node_id, current.session.id.clone(), session_secret, last_known_clock, join_type)
}

impl JoinRequestSent {
    /// Sends the join request at most once: at time `now` the decision of
    /// `should_send_at` is taken, and when the request goes out it is marked
    /// sent and returned.
    pub fn send_join_request_once_at(
        &mut self,
        current: &CurrentSession,
        node_id: NodeId,
        session_secret: Option<Vec<u8>>,
        clock_node_count: usize,
        now: u64,
    ) -> (m: Option<VersionedMessage>)
        ensures
            (m is Some, final(self).wait_started) == join_send_step(
                old(self).sent,
                old(self).wait_started,
                current.session.state,
                clock_node_count as nat,
                now,
            ),
            final(self).sent == (old(self).sent || m is Some),
            m matches Some(msg) ==> is_join_request_for(msg, *current, node_id, session_secret),
    {
        if self.should_send_at(current.session.state, clock_node_count, now) {
            self.sent = true;
            Some(join_request_for(current, node_id, session_secret))
        } else {
            None
        }
    }

    /// Sends the join request at most once, deciding now.
    pub fn send_join_request_once(
        &mut self,
        current: &CurrentSession,
        node_id: NodeId,
        session_secret: Option<Vec<u8>>,
        clock_node_count: usize,
    ) -> (m: Option<VersionedMessage>)
        ensures
            exists|now: u64|
                (m is Some, final(self).wait_started) == #[trigger] join_send_step(
                    old(self).sent,
                    old(self).wait_started,
                    current.session.state,
                    clock_node_count as nat,
                    now,
                ),
            final(self).sent == (old(self).sent || m is Some),
            m matches Some(msg) ==> is_join_request_for(msg, *current, node_id, session_secret),
    {
        let now = now_millis();
        self.send_join_request_once_at(current, node_id, session_secret, clock_node_count, now)
    }
}

/// How many of the runs sent a request.
pub open spec fn sends(sent_out: Seq<bool>) -> nat
    decreases sent_out.len(),
{
    if sent_out.len() == 0 {
        0
    } else {
        sends(sent_out.drop_last()) + (if sent_out.last() { 1nat } else { 0nat })
    }
}

/// Whether `flags[i]` and `flags[i + 1]` are the sent flag before and after
/// run `i`, and `sent_out[i]` whether run `i` sent a request, as
/// `send_join_request_once` ensures: nothing is sent once the flag is set,
/// and the flag is set exactly by a sending run.
pub open spec fn runs_of_send_once(flags: Seq<bool>, sent_out: Seq<bool>) -> bool {
    &&& flags.len() == sent_out.len() + 1
    &&& forall|i: int|
        #![trigger sent_out[i]]
        0 <= i < sent_out.len() ==> (sent_out[i] ==> !flags[i]) && flags[i + 1] == (flags[i] || sent_out[i])
}

/// Over any number of runs of the one-shot join request, at most one
/// request goes out, none once the request was marked sent before the first
/// run, and one exactly when the flag ends up set having started clear.
pub proof fn lemma_join_request_sent_once(flags: Seq<bool>, sent_out: Seq<bool>)
    requires
        runs_of_send_once(flags, sent_out),
    ensures
        sends(sent_out) <= 1,
        flags[0] ==> sends(sent_out) == 0,
        sends(sent_out) == (if flags[sent_out.len() as int] && !flags[0] { 1nat } else { 0nat }),
    decreases sent_out.len(),
{
    if sent_out.len() > 0 {
        let n = sent_out.len() - 1;
        let f = flags.take(n + 1);
        let o = sent_out.drop_last();
        assert(runs_of_send_once(f, o)) by {
            assert forall|i: int| #![trigger o[i]] 0 <= i < o.len() implies (o[i] ==> !f[i]) && f[i + 1] == (f[i]
                || o[i]) by {
                assert(o[i] == sent_out[i]);
                assert(f[i] == flags[i] && f[i + 1] == flags[i + 1]);
            }
        }
        lemma_join_request_sent_once(f, o);
        assert(f[0] == flags[0]);
        assert(f[n] == flags[n]);
        assert(sent_out[n] ==> !flags[n]);
        assert(flags[n + 1] == (flags[n] || sent_out[n]));
        lemma_flags_monotone(flags, sent_out, n);
    }
}

/// Once set, the sent flag stays set.
proof fn lemma_flags_monotone(flags: Seq<bool>, sent_out: Seq<bool>, j: int)
    requires
        runs_of_send_once(flags, sent_out),
        0 <= j <= sent_out.len(),
    ensures
        flags[0] ==> flags[j],
    decreases j,
{
    if j > 0 {
        lemma_flags_monotone(flags, sent_out, j - 1);
        let i = j - 1;
        assert(0 <= i < sent_out.len());
        assert((sent_out[i] ==> !flags[i]) && flags[i + 1] == (flags[i] || sent_out[i]));
    }
}

/// The outcome of comparing a remote write of a component with the local
/// one.
#[derive(Clone, Copy, PartialEq, Eq, Structural, Debug)]
pub enum MergeDecision {
    /// The remote write happened after the local one.
    ApplyRemote,
    /// The local write happened after the remote one.
    KeepLocal,
    /// Neither happened before the other.
    Concurrent,
    /// The clocks are equal.
    Equal,
}

/// How a remote write stamped `remote` relates to a local write stamped
/// `local`.
pub open spec fn merge_decision(local: Map<NodeId, u64>, remote: Map<NodeId, u64>) -> MergeDecision {
    if local == remote {
        MergeDecision::Equal
    } else if clock_lt(local, remote) {
        MergeDecision::ApplyRemote
    } else if clock_lt(remote, local) {
        MergeDecision::KeepLocal
    } else {
        MergeDecision::Concurrent
    }
}

/// Whether a remote write of a component replaces the local one: always when
/// there is none; otherwise when it happened after it, or, concurrent with
/// it, comes from a greater node ID.
pub open spec fn remote_write_wins(
    local: Option<(Map<NodeId, u64>, NodeId)>,
    remote: Map<NodeId, u64>,
    remote_node: NodeId,
) -> bool {
    match local {
        None => true,
        Some(l) => match merge_decision(l.0, remote) {
            MergeDecision::ApplyRemote => true,
            MergeDecision::KeepLocal => false,
            MergeDecision::Concurrent => remote_node > l.1,
            MergeDecision::Equal => false,
        },
    }
}

/// Compare a remote write with the local one by their vector clocks.
pub fn compare_operations(local: &VectorClock, remote: &VectorClock) -> (d: MergeDecision)
    ensures
        d == merge_decision(local@, remote@),
{
    if local.same_as(remote) {
        MergeDecision::Equal
    } else if local.happened_before(remote) {
        MergeDecision::ApplyRemote
    } else if remote.happened_before(local) {
        MergeDecision::KeepLocal
    } else {
        MergeDecision::Concurrent
    }
}

/// Whether a remote write of a component replaces the local one.
pub fn should_apply_remote(
    local: Option<&(VectorClock, NodeId)>,
    remote_clock: &VectorClock,
    remote_node: NodeId,
) -> (r: bool)
    ensures
        r == remote_write_wins(
            match local {
                Some(l) => Some((l.0@, l.1)),
                None => None,
            },
            remote_clock@,
            remote_node,
        ),
{
    match local {
        None => true,
        Some(l) => match compare_operations(&l.0, remote_clock) {
            MergeDecision::ApplyRemote => true,
            MergeDecision::KeepLocal => false,
            MergeDecision::Concurrent => remote_node > l.1,
            MergeDecision::Equal => false,
        },
    }
}

/// Of two different writes, exactly one wins against the other when their
/// stamps are concurrent and their nodes differ: every replica keeps the
/// same one.
pub proof fn lemma_concurrent_writes_decided(
    a: Map<NodeId, u64>,
    na: NodeId,
    b: Map<NodeId, u64>,
    nb: NodeId,
)
    requires
        clock_concurrent(a, b),
        na != nb,
    ensures
        remote_write_wins(Some((a, na)), b, nb) != remote_write_wins(Some((b, nb)), a, na),
{
}

/// A write that happened before the local one never replaces it, and one
/// that happened after always does.
pub proof fn lemma_causal_writes_decided(a: Map<NodeId, u64>, na: NodeId, b: Map<NodeId, u64>, nb: NodeId)
    requires
        clock_lt(a, b),
    ensures
        remote_write_wins(Some((a, na)), b, nb),
        !remote_write_wins(Some((b, nb)), a, na),
{
    lemma_clock_trichotomy(a, b);
}

/// The last write of a component recorded after a remote write stamped
/// `clock` by `node` arrives: that write when it wins, the recorded one
/// otherwise.
pub open spec fn lww_after(
    recorded: Option<(Map<NodeId, u64>, NodeId)>,
    clock: Map<NodeId, u64>,
    node: NodeId,
) -> Option<(Map<NodeId, u64>, NodeId)> {
    if remote_write_wins(recorded, clock, node) {
        Some((clock, node))
    } else {
        recorded
    }
}

/// Two writes of a component delivered in either order to a replica without
/// a record of it leave the same last write, so replicas converge. Excluded
/// are the writes whose order no clock decides: equal clocks from different
/// nodes, and concurrent clocks from the same node.
pub proof fn lemma_lww_delivery_order(a: Map<NodeId, u64>, na: NodeId, b: Map<NodeId, u64>, nb: NodeId)
    requires
        a == b ==> na == nb,
        clock_concurrent(a, b) ==> na != nb,
    ensures
        lww_after(lww_after(None, a, na), b, nb) == lww_after(lww_after(None, b, nb), a, na),
{
    lemma_clock_trichotomy(a, b);
    lemma_clock_trichotomy(b, a);
}

} // verus!
