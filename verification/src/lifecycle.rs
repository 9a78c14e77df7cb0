//! The process lifecycle: which phase the server is in, what an event does to
//! it, and what the surrounding program has to do next.

use vstd::prelude::*;

verus! {

/// The phase the server process is in.
#[derive(Clone, Copy, Debug, PartialEq, Eq, Structural)]
pub enum Phase {
    /// The listener is not bound yet.
    Starting,
    /// Connections are accepted and dispatched.
    Serving,
    /// No new connections are accepted; requests in flight run to their end.
    Draining,
    /// The store pool is closed and the process is about to exit.
    Stopped,
}

/// A termination signal of the operating system.
#[derive(Clone, Copy, Debug, PartialEq, Eq, Structural)]
pub enum Signal {
    /// SIGINT.
    Interrupt,
    /// SIGTERM.
    Terminate,
}

/// What the surrounding program reports to the lifecycle.
#[derive(Clone, Copy, Debug, PartialEq, Eq, Structural)]
pub enum Event {
    /// The listener was bound to its address.
    Bound,
    /// A termination signal arrived.
    Signalled(Signal),
    /// The last request in flight has completed.
    Drained,
}

/// What the surrounding program has to do after an event.
#[derive(Clone, Copy, Debug, PartialEq, Eq, Structural)]
pub enum Action {
    /// Nothing changes.
    Ignore,
    /// Start accepting connections.
    Accept,
    /// Stop accepting connections and let the requests in flight finish.
    Drain,
    /// Close the store pool and exit with status 0.
    ClosePool,
}

/// The phase that follows `phase` in the only order the lifecycle knows.
pub open spec fn successor(phase: Phase) -> Phase {
    match phase {
        Phase::Starting => Phase::Serving,
        Phase::Serving => Phase::Draining,
        Phase::Draining => Phase::Stopped,
        Phase::Stopped => Phase::Stopped,
    }
}

/// Whether `event` is the one that moves the lifecycle out of `phase`.
pub open spec fn advances(phase: Phase, event: Event) -> bool {
    match (phase, event) {
        (Phase::Starting, Event::Bound) => true,
        (Phase::Serving, Event::Signalled(_)) => true,
        (Phase::Draining, Event::Drained) => true,
        _ => false,
    }
}

/// The phase after `event` was seen in `phase`.
pub open spec fn next_phase(phase: Phase, event: Event) -> Phase {
    if advances(phase, event) {
        successor(phase)
    } else {
        phase
    }
}

/// What has to be done when `event` is seen in `phase`.
pub open spec fn action_for(phase: Phase, event: Event) -> Action {
    if !advances(phase, event) {
        Action::Ignore
    } else {
        match phase {
            Phase::Starting => Action::Accept,
            Phase::Serving => Action::Drain,
            _ => Action::ClosePool,
        }
    }
}

/// One step of the lifecycle: the phase that follows and the action to take.
///
/// An event that does not belong to the phase changes nothing; this holds in
/// particular for a second termination signal that arrives while draining.
pub fn step(phase: Phase, event: Event) -> (r: (Phase, Action))
    ensures
        r.0 == next_phase(phase, event),
        r.1 == action_for(phase, event),
{
    match (phase, event) {
        (Phase::Starting, Event::Bound) => (Phase::Serving, Action::Accept),
        (Phase::Serving, Event::Signalled(_)) => (Phase::Draining, Action::Drain),
        (Phase::Draining, Event::Drained) => (Phase::Stopped, Action::ClosePool),
        _ => (phase, Action::Ignore),
    }
}

/// The phase that a freshly started process reaches after `events`.
pub open spec fn phase_after(events: Seq<Event>) -> Phase
    decreases events.len(),
{
    if events.len() == 0 {
        Phase::Starting
    } else {
        next_phase(phase_after(events.drop_last()), events.last())
    }
}

/// How often `action` was due while `events` came in, one after another,
/// from the start of the process.
pub open spec fn times_due(action: Action, events: Seq<Event>) -> nat
    decreases events.len(),
{
    if events.len() == 0 {
        0
    } else {
        let earlier = times_due(action, events.drop_last());
        if action_for(phase_after(events.drop_last()), events.last()) == action {
            earlier + 1
        } else {
            earlier
        }
    }
}

/// The lifecycle has no transition but the three from one phase to the next:
/// an event leaves the phase as it is or moves it to its successor, and
/// nothing leaves `Stopped`.
pub proof fn lemma_phases_only_advance(phase: Phase, event: Event)
    ensures
        next_phase(phase, event) == phase || next_phase(phase, event) == successor(phase),
        next_phase(Phase::Stopped, event) == Phase::Stopped,
        next_phase(phase, event) != phase <==> action_for(phase, event) != Action::Ignore,
{
}

/// The two termination signals have the same effect in every phase, and a
/// signal that arrives while draining has none.
pub proof fn lemma_signals_are_alike(phase: Phase, signal: Signal)
    ensures
        next_phase(phase, Event::Signalled(signal)) == next_phase(
            phase,
            Event::Signalled(Signal::Interrupt),
        ),
        action_for(phase, Event::Signalled(signal)) == action_for(
            phase,
            Event::Signalled(Signal::Interrupt),
        ),
        next_phase(Phase::Draining, Event::Signalled(signal)) == Phase::Draining,
        action_for(Phase::Draining, Event::Signalled(signal)) == Action::Ignore,
{
}

/// Whatever events come in, each action is due at most once and in the order
/// of the phases: connections are accepted once the process has left
/// `Starting`, drained once it has left `Serving`, and the pool is closed
/// exactly when the process is `Stopped`.
pub proof fn lemma_each_action_is_due_once(events: Seq<Event>)
    ensures
        times_due(Action::Accept, events) == (if phase_after(events) == Phase::Starting {
            0nat
        } else {
            1nat
        }),
        times_due(Action::Drain, events) == (if phase_after(events) == Phase::Starting
            || phase_after(events) == Phase::Serving {
            0nat
        } else {
            1nat
        }),
        times_due(Action::ClosePool, events) == (if phase_after(events) == Phase::Stopped {
            1nat
        } else {
            0nat
        }),
    decreases events.len(),
{
    if events.len() > 0 {
        lemma_each_action_is_due_once(events.drop_last());
    }
}

/// Why the process gave up.
#[derive(Clone, Copy, Debug, PartialEq, Eq, Structural)]
pub enum Fault {
    /// The configured port is not a port number.
    InvalidPort,
    /// The store could not be reached, or its connection string is malformed.
    StoreUnreachable,
    /// A schema migration failed.
    MigrationFailed,
    /// The listener could not be bound.
    PortUnavailable,
    /// The server stopped with an error while it served.
    ServerFailed,
}

/// How the process ended.
#[derive(Clone, Copy, Debug, PartialEq, Eq, Structural)]
pub enum Exit {
    /// The lifecycle reached `Stopped`.
    Graceful,
    /// The process gave up, at startup or while it served.
    Failed(Fault),
}

/// The exit status for each way the process can end.
pub open spec fn exit_status(exit: Exit) -> u8 {
    match exit {
        Exit::Graceful => 0,
        Exit::Failed(_) => 1,
    }
}

/// The exit status of the process: 0 after a graceful shutdown, 1 after a
/// failure.
pub fn exit_code(exit: Exit) -> (r: u8)
    ensures
        r == exit_status(exit),
        r == 0 <==> exit == Exit::Graceful,
{
    match exit {
        Exit::Graceful => 0,
        Exit::Failed(_) => 1,
    }
}

} // verus!
