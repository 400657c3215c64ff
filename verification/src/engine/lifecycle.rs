//! The engine's command loop: which networking work a command starts or
//! stops, and the node's clock.
//!
//! The engine runs networking as a background task with a cancellation
//! token. A command turns into actions for the caller to perform; the
//! engine records whether a task and a token are outstanding.

use vstd::prelude::*;

use crate::ids::NodeId;
use crate::networking::session::SessionId;
use crate::networking::vector_clock::{count, VectorClock};

verus! {

/// The commands the engine acts on; every other command (entity and lock
/// operations, shutdown) is `Other` and ignored by the command loop.
#[derive(Clone, PartialEq, Eq, Debug)]
pub enum EngineCommand {
    StartNetworking { session_id: SessionId },
    StopNetworking,
    JoinSession { session_id: SessionId },
    LeaveSession,
    SaveSession,
    LoadSession { session_id: SessionId },
    TickClock,
    Other,
}

/// What the caller performs for a command, in order.
#[derive(Clone, PartialEq, Eq, Debug)]
pub enum EngineAction {
    /// Spawn the networking task for a session, with a fresh cancellation
    /// token.
    SpawnNetworking { session_id: SessionId },
    /// Signal the cancellation token of the networking task.
    CancelNetworking,
    /// Abort the networking task.
    AbortNetworking,
    /// Report that networking stopped.
    NetworkingStopped,
    /// Report the clock after a tick, with the node's new sequence number.
    ClockTicked { sequence: u64 },
}

/// Whether a networking task and its cancellation token are outstanding.
pub type TaskState = (bool, bool);

/// Stopping networking: signal the token if there is one; abort the task and
/// report the stop if there is one.
pub open spec fn stop_step(t: TaskState) -> (TaskState, Seq<EngineAction>) {
    (
        (false, false),
        (if t.1 { seq![EngineAction::CancelNetworking] } else { Seq::empty() }) + (if t.0 {
            seq![EngineAction::AbortNetworking, EngineAction::NetworkingStopped]
        } else {
            Seq::empty()
        }),
    )
}

/// Starting networking for a session: nothing when a task is outstanding;
/// otherwise spawn one, with its token.
pub open spec fn start_step(t: TaskState, session_id: SessionId) -> (TaskState, Seq<EngineAction>) {
    if t.0 {
        (t, Seq::empty())
    } else {
        ((true, true), seq![EngineAction::SpawnNetworking { session_id }])
    }
}

/// The task state and the networking actions after a command. Joining a
/// session stops the current networking, if a task is outstanding, and
/// starts it for the new session. Clock ticks are not networking actions.
pub open spec fn command_step(t: TaskState, cmd: EngineCommand) -> (TaskState, Seq<EngineAction>) {
    match cmd {
        EngineCommand::StartNetworking { session_id } => start_step(t, session_id),
        EngineCommand::StopNetworking | EngineCommand::LeaveSession => stop_step(t),
        EngineCommand::JoinSession { session_id } => if t.0 {
            let (t1, a1) = stop_step(t);
            let (t2, a2) = start_step(t1, session_id);
            (t2, a1 + a2)
        } else {
            start_step(t, session_id)
        },
        _ => (t, Seq::empty()),
    }
}

/// The engine's state: its node, its clock, and its networking task.
pub struct EngineCore {
    node_id: NodeId,
    clock: VectorClock,
    networking_task: bool,
    networking_cancel_token: bool,
}

impl EngineCore {
    /// The node's identity.
    pub closed spec fn node(&self) -> NodeId {
        self.node_id
    }

    /// The node's clock.
    pub closed spec fn clock_view(&self) -> Map<NodeId, u64> {
        self.clock@
    }

    /// Whether a networking task and its token are outstanding.
    pub closed spec fn task_state(&self) -> TaskState {
        (self.networking_task, self.networking_cancel_token)
    }

    /// An engine for a node, offline, with an empty clock.
    pub fn new(node_id: NodeId) -> (e: Self)
        ensures
            e.node() == node_id,
            e.clock_view() == Map::<NodeId, u64>::empty(),
            e.task_state() == (false, false),
    {
        EngineCore { node_id, clock: VectorClock::new(), networking_task: false, networking_cancel_token: false }
    }

    /// The node's clock.
    pub fn clock(&self) -> (c: &VectorClock)
        ensures
            c@ == self.clock_view(),
    {
        &self.clock
    }

    /// The node's identity.
    pub fn node_id(&self) -> (n: NodeId)
        ensures
            n == self.node(),
    {
        self.node_id
    }

    fn stop_networking(&mut self, actions: &mut Vec<EngineAction>)
        ensures
            final(self).node() == old(self).node(),
            final(self).clock_view() == old(self).clock_view(),
            final(self).task_state() == stop_step(old(self).task_state()).0,
            final(actions)@ == old(actions)@ + stop_step(old(self).task_state()).1,
    {
        let ghost before = actions@;
        if self.networking_cancel_token {
            self.networking_cancel_token = false;
            actions.push(EngineAction::CancelNetworking);
        }
        if self.networking_task {
            self.networking_task = false;
            actions.push(EngineAction::AbortNetworking);
            actions.push(EngineAction::NetworkingStopped);
        }
        assert(actions@ =~= before + stop_step(old(self).task_state()).1);
    }

    fn start_networking(&mut self, session_id: SessionId, actions: &mut Vec<EngineAction>)
        ensures
            final(self).node() == old(self).node(),
            final(self).clock_view() == old(self).clock_view(),
            final(self).task_state() == start_step(old(self).task_state(), session_id).0,
            final(actions)@ == old(actions)@ + start_step(old(self).task_state(), session_id).1,
    {
        let ghost before = actions@;
        if !self.networking_task {
            actions.push(EngineAction::SpawnNetworking { session_id });
            self.networking_task = true;
            self.networking_cancel_token = true;
        }
        assert(actions@ =~= before + start_step(old(self).task_state(), session_id).1);
    }

    /// Handle a command: the actions to perform, in order. A clock tick
    /// advances the node's entry and reports the new sequence number.
    pub fn handle_command(&mut self, cmd: EngineCommand) -> (actions: Vec<EngineAction>)
        requires
            cmd == EngineCommand::TickClock ==> count(old(self).clock_view(), old(self).node()) < u64::MAX,
        ensures
            final(self).node() == old(self).node(),
            cmd != EngineCommand::TickClock ==> final(self).clock_view() == old(self).clock_view()
                && (final(self).task_state(), actions@) == command_step(old(self).task_state(), cmd),
            cmd == EngineCommand::TickClock ==> final(self).task_state() == old(self).task_state()
                && final(self).clock_view() == old(self).clock_view().insert(
                old(self).node(),
                (count(old(self).clock_view(), old(self).node()) + 1) as u64,
            ) && actions@ == seq![
                EngineAction::ClockTicked {
                    sequence: (count(old(self).clock_view(), old(self).node()) + 1) as u64,
                },
            ],
    {
        let mut actions: Vec<EngineAction> = Vec::new();
        match cmd {
            EngineCommand::StartNetworking { session_id } => {
                self.start_networking(session_id, &mut actions);
            },
            EngineCommand::StopNetworking | EngineCommand::LeaveSession => {
                self.stop_networking(&mut actions);
            },
            EngineCommand::JoinSession { session_id } => {
                if self.networking_task {
                    self.stop_networking(&mut actions);
                }
                self.start_networking(session_id, &mut actions);
            },
            EngineCommand::TickClock => {
                let sequence = self.clock.increment(self.node_id);
                actions.push(EngineAction::ClockTicked { sequence });
            },
            _ => {},
        }
        actions
    }
}

/// Starting twice spawns one task, and stopping after a start leaves
/// nothing outstanding.
pub proof fn lemma_start_idempotent_then_stop(session_id: SessionId, other: SessionId)
    ensures
        command_step(
            command_step((false, false), EngineCommand::StartNetworking { session_id }).0,
            EngineCommand::StartNetworking { session_id: other },
        ).1 == Seq::<EngineAction>::empty(),
        stop_step(command_step((false, false), EngineCommand::StartNetworking { session_id }).0) == (
            (false, false),
            seq![
                EngineAction::CancelNetworking,
                EngineAction::AbortNetworking,
                EngineAction::NetworkingStopped,
            ],
        ),
{
    assert(stop_step((true, true)).1 =~= seq![
        EngineAction::CancelNetworking,
        EngineAction::AbortNetworking,
        EngineAction::NetworkingStopped,
    ]);
}

} // verus!
