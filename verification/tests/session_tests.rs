use fanout_bus::bus::{Bus, RecvOutcome};
use fanout_bus::event::Event;
use fanout_bus::session::{session_init, session_step, SessionAction, SessionInput, SessionState};

fn slot(n: u64) -> Event {
    Event::new(n, None, 0)
}

#[test]
fn session_starts_by_registering() {
    assert_eq!(
        session_init(),
        (SessionState::Requested, SessionAction::Register)
    );
}

#[test]
fn happy_path_registers_opens_and_forwards() {
    let (s, a) = session_init();
    assert_eq!(a, SessionAction::Register);
    let (s, a) = session_step(s, SessionInput::BusRegistered);
    assert_eq!((s, a), (SessionState::Registered, SessionAction::OpenStream));
    let (s, a) = session_step(s, SessionInput::StreamOpened);
    assert_eq!((s, a), (SessionState::Streaming, SessionAction::AwaitEvent));
    let e = slot(1);
    let (s, a) = session_step(s, SessionInput::Received(RecvOutcome::Item(e)));
    assert_eq!((s, a), (SessionState::Streaming, SessionAction::Forward(e)));
    let (s, a) = session_step(s, SessionInput::ForwardOk);
    assert_eq!((s, a), (SessionState::Streaming, SessionAction::AwaitEvent));
    let (s, a) = session_step(s, SessionInput::Received(RecvOutcome::Empty));
    assert_eq!((s, a), (SessionState::Streaming, SessionAction::AwaitEvent));
}

#[test]
fn client_disconnect_deregisters_then_terminates() {
    let s = SessionState::Streaming;
    let (s, a) = session_step(s, SessionInput::ForwardFailed);
    assert_eq!(
        (s, a),
        (SessionState::ClientDisconnected, SessionAction::Deregister)
    );
    let (s, a) = session_step(s, SessionInput::Deregistered);
    assert_eq!((s, a), (SessionState::Terminated, SessionAction::Done));
}

#[test]
fn lag_deregisters_and_ends_with_a_distinguishable_indication() {
    let s = SessionState::Streaming;
    let (s, a) = session_step(s, SessionInput::Received(RecvOutcome::Lagged));
    assert_eq!((s, a), (SessionState::Lagged, SessionAction::Deregister));
    let (s, a) = session_step(s, SessionInput::Deregistered);
    assert_eq!((s, a), (SessionState::Terminated, SessionAction::NotifyLag));
}

#[test]
fn bus_shutdown_deregisters_and_closes_cleanly() {
    let s = SessionState::Streaming;
    let (s, a) = session_step(s, SessionInput::Received(RecvOutcome::Closed));
    assert_eq!((s, a), (SessionState::BusClosed, SessionAction::Deregister));
    let (s, a) = session_step(s, SessionInput::Deregistered);
    assert_eq!((s, a), (SessionState::Terminated, SessionAction::CloseStream));
}

#[test]
fn terminated_is_absorbing() {
    let s = SessionState::Terminated;
    for inp in [
        SessionInput::BusRegistered,
        SessionInput::StreamOpened,
        SessionInput::Received(RecvOutcome::Item(slot(1))),
        SessionInput::ForwardOk,
        SessionInput::ForwardFailed,
        SessionInput::Deregistered,
    ] {
        assert_eq!(
            session_step(s, inp),
            (SessionState::Terminated, SessionAction::Done)
        );
    }
}

#[test]
fn inapplicable_inputs_change_nothing() {
    assert_eq!(
        session_step(SessionState::Requested, SessionInput::ForwardOk),
        (SessionState::Requested, SessionAction::Ignore)
    );
    assert_eq!(
        session_step(SessionState::Registered, SessionInput::Deregistered),
        (SessionState::Registered, SessionAction::Ignore)
    );
    assert_eq!(
        session_step(SessionState::Lagged, SessionInput::ForwardOk),
        (SessionState::Lagged, SessionAction::Ignore)
    );
}

#[test]
fn session_driven_against_a_real_bus_releases_registration_once() {
    // Drive the machine by hand against a bus, the way a driver task
    // would, and count deregistrations.
    let mut bus = Bus::new(2);
    let (s, a) = session_init();
    assert_eq!(a, SessionAction::Register);
    let id = bus.subscribe();
    let (s, _) = session_step(s, SessionInput::BusRegistered);
    let (mut s, _) = session_step(s, SessionInput::StreamOpened);
    assert_eq!(s, SessionState::Streaming);

    // Publish past the backlog bound while the consumer stalls.
    bus.publish(slot(1));
    bus.publish(slot(2));
    bus.publish(slot(3));

    let mut deregistrations = 0;
    loop {
        let outcome = bus.recv(id);
        let (next, action) = session_step(s, SessionInput::Received(outcome));
        s = next;
        match action {
            SessionAction::Forward(_) => {
                let (next, _) = session_step(s, SessionInput::ForwardOk);
                s = next;
            }
            SessionAction::Deregister => {
                bus.unsubscribe(id);
                deregistrations += 1;
                let (next, action) = session_step(s, SessionInput::Deregistered);
                s = next;
                assert_eq!(action, SessionAction::NotifyLag);
                break;
            }
            other => panic!("unexpected action {:?}", other),
        }
    }
    assert_eq!(s, SessionState::Terminated);
    assert_eq!(deregistrations, 1);
    assert!(!bus.is_subscribed(id));
}
