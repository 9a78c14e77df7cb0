use svarozhits::lifecycle::{exit_code, step, Action, Event, Exit, Fault, Phase, Signal};

#[test]
fn the_lifecycle_runs_through_its_four_phases() {
    let (phase, action) = step(Phase::Starting, Event::Bound);
    assert_eq!((phase, action), (Phase::Serving, Action::Accept));
    let (phase, action) = step(phase, Event::Signalled(Signal::Terminate));
    assert_eq!((phase, action), (Phase::Draining, Action::Drain));
    let (phase, action) = step(phase, Event::Drained);
    assert_eq!((phase, action), (Phase::Stopped, Action::ClosePool));
    assert_eq!(exit_code(Exit::Graceful), 0);
}

#[test]
fn both_signals_start_the_same_drain() {
    for phase in [Phase::Starting, Phase::Serving, Phase::Draining, Phase::Stopped] {
        assert_eq!(
            step(phase, Event::Signalled(Signal::Interrupt)),
            step(phase, Event::Signalled(Signal::Terminate))
        );
    }
    assert_eq!(
        step(Phase::Serving, Event::Signalled(Signal::Interrupt)),
        (Phase::Draining, Action::Drain)
    );
}

#[test]
fn a_second_signal_while_draining_changes_nothing() {
    assert_eq!(
        step(Phase::Draining, Event::Signalled(Signal::Terminate)),
        (Phase::Draining, Action::Ignore)
    );
    assert_eq!(
        step(Phase::Draining, Event::Signalled(Signal::Interrupt)),
        (Phase::Draining, Action::Ignore)
    );
}

#[test]
fn events_out_of_place_are_ignored() {
    assert_eq!(step(Phase::Starting, Event::Drained), (Phase::Starting, Action::Ignore));
    assert_eq!(
        step(Phase::Starting, Event::Signalled(Signal::Interrupt)),
        (Phase::Starting, Action::Ignore)
    );
    assert_eq!(step(Phase::Serving, Event::Bound), (Phase::Serving, Action::Ignore));
    assert_eq!(step(Phase::Serving, Event::Drained), (Phase::Serving, Action::Ignore));
    assert_eq!(step(Phase::Draining, Event::Bound), (Phase::Draining, Action::Ignore));
    for event in [
        Event::Bound,
        Event::Drained,
        Event::Signalled(Signal::Interrupt),
        Event::Signalled(Signal::Terminate),
    ] {
        assert_eq!(step(Phase::Stopped, event), (Phase::Stopped, Action::Ignore));
    }
}

#[test]
fn the_pool_is_closed_once_in_any_run() {
    let events = [
        Event::Drained,
        Event::Bound,
        Event::Bound,
        Event::Signalled(Signal::Interrupt),
        Event::Signalled(Signal::Terminate),
        Event::Bound,
        Event::Drained,
        Event::Drained,
        Event::Signalled(Signal::Terminate),
    ];
    let mut phase = Phase::Starting;
    let mut actions = Vec::new();
    for event in events {
        let (next, action) = step(phase, event);
        phase = next;
        if action != Action::Ignore {
            actions.push(action);
        }
    }
    assert_eq!(phase, Phase::Stopped);
    assert_eq!(actions, vec![Action::Accept, Action::Drain, Action::ClosePool]);
}

#[test]
fn a_request_in_flight_completes_before_the_process_stops() {
    // The signal arrives while a request is in flight: the server drains and
    // stays in that phase, with the pool open, until the request is done.
    let (phase, _) = step(Phase::Starting, Event::Bound);
    let (phase, action) = step(phase, Event::Signalled(Signal::Terminate));
    assert_eq!(phase, Phase::Draining);
    assert_eq!(action, Action::Drain);
    assert_ne!(action, Action::ClosePool);
    let (phase, action) = step(phase, Event::Drained);
    assert_eq!(phase, Phase::Stopped);
    assert_eq!(action, Action::ClosePool);
    assert_eq!(exit_code(Exit::Graceful), 0);
}

#[test]
fn a_failure_to_start_exits_with_a_nonzero_status() {
    for fault in [
        Fault::InvalidPort,
        Fault::StoreUnreachable,
        Fault::MigrationFailed,
        Fault::PortUnavailable,
        Fault::ServerFailed,
    ] {
        assert_eq!(exit_code(Exit::Failed(fault)), 1);
    }
}
