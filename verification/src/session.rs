use vstd::prelude::*;

use crate::bus::RecvOutcome;
use crate::event::Event;

verus! {

/// Lifecycle states of one subscriber session, from the arrival of the
/// subscribe request to the release of every resource. The three states
/// before `Terminated` record why the session is winding down.
#[derive(Clone, Copy, PartialEq, Eq, Debug)]
pub enum SessionState {
    /// A subscribe request arrived; nothing is registered yet.
    Requested,
    /// Registered with the bus; the outbound stream is not open yet.
    Registered,
    /// Forwarding events from the bus handle to the outbound stream.
    Streaming,
    /// An outbound send failed: the client went away.
    ClientDisconnected,
    /// The bus shut down: no further event will ever arrive.
    BusClosed,
    /// The session fell behind its backlog bound and is winding down
    /// with a distinguishable lag indication.
    Lagged,
    /// Fully wound down; the bus registration has been released.
    Terminated,
}

/// What the session's driver observed since the last step.
#[derive(Clone, Copy, PartialEq, Eq, Debug)]
pub enum SessionInput {
    /// Registration with the bus completed.
    BusRegistered,
    /// The outbound stream was handed to the client.
    StreamOpened,
    /// One receive on the bus handle yielded this outcome.
    Received(RecvOutcome),
    /// The outbound stream accepted the last forwarded event.
    ForwardOk,
    /// The outbound stream rejected the last forwarded event.
    ForwardFailed,
    /// The bus registration was released.
    Deregistered,
}

/// What the session's driver must do next. Each step returns exactly one
/// action; the driver performs it and reports what it observed as the
/// next input.
#[derive(Clone, Copy, PartialEq, Eq, Debug)]
pub enum SessionAction {
    /// Register with the bus.
    Register,
    /// Hand the outbound stream to the client.
    OpenStream,
    /// Wait for the next receive on the bus handle.
    AwaitEvent,
    /// Send this event on the outbound stream.
    Forward(Event),
    /// Release the bus registration.
    Deregister,
    /// Send the distinguishable lag indication and close the stream.
    NotifyLag,
    /// Close the outbound stream cleanly.
    CloseStream,
    /// Nothing: the input does not apply to the current state.
    Ignore,
    /// The session is fully wound down.
    Done,
}

/// Where a session starts: not yet registered, and the driver's first
/// duty is to register with the bus.
pub open spec fn session_init_spec() -> (SessionState, SessionAction) {
    (SessionState::Requested, SessionAction::Register)
}

/// The transition table of the session lifecycle.
///
/// A streaming session forwards every received event; a receive that
/// reports lag, shutdown, or a failed outbound send moves it into the
/// matching wind-down state, and the single `Deregister` action is
/// emitted on exactly that move. Once deregistration is reported the
/// session terminates, closing the stream cleanly after a bus shutdown
/// and with the lag indication after an overflow. Inputs that do not
/// apply to the current state change nothing.
pub open spec fn session_step_spec(s: SessionState, inp: SessionInput) -> (
    SessionState,
    SessionAction,
) {
    match (s, inp) {
        (SessionState::Requested, SessionInput::BusRegistered) => (
            SessionState::Registered,
            SessionAction::OpenStream,
        ),
        (SessionState::Registered, SessionInput::StreamOpened) => (
            SessionState::Streaming,
            SessionAction::AwaitEvent,
        ),
        (SessionState::Streaming, SessionInput::Received(RecvOutcome::Item(e))) => (
            SessionState::Streaming,
            SessionAction::Forward(e),
        ),
        (SessionState::Streaming, SessionInput::Received(RecvOutcome::Empty)) => (
            SessionState::Streaming,
            SessionAction::AwaitEvent,
        ),
        (SessionState::Streaming, SessionInput::Received(RecvOutcome::Lagged)) => (
            SessionState::Lagged,
            SessionAction::Deregister,
        ),
        (SessionState::Streaming, SessionInput::Received(RecvOutcome::Closed)) => (
            SessionState::BusClosed,
            SessionAction::Deregister,
        ),
        (SessionState::Streaming, SessionInput::ForwardOk) => (
            SessionState::Streaming,
            SessionAction::AwaitEvent,
        ),
        (SessionState::Streaming, SessionInput::ForwardFailed) => (
            SessionState::ClientDisconnected,
            SessionAction::Deregister,
        ),
        (SessionState::ClientDisconnected, SessionInput::Deregistered) => (
            SessionState::Terminated,
            SessionAction::Done,
        ),
        (SessionState::BusClosed, SessionInput::Deregistered) => (
            SessionState::Terminated,
            SessionAction::CloseStream,
        ),
        (SessionState::Lagged, SessionInput::Deregistered) => (
            SessionState::Terminated,
            SessionAction::NotifyLag,
        ),
        (SessionState::Terminated, _) => (SessionState::Terminated, SessionAction::Done),
        (st, _) => (st, SessionAction::Ignore),
    }
}

/// Starts a session.
pub fn session_init() -> (r: (SessionState, SessionAction))
    ensures
        r == session_init_spec(),
{
    (SessionState::Requested, SessionAction::Register)
}

/// Advances a session by one observed input, returning the next state
/// and the one action the driver must perform.
pub fn session_step(s: SessionState, inp: SessionInput) -> (r: (SessionState, SessionAction))
    ensures
        r == session_step_spec(s, inp),
{
    match (s, inp) {
        (SessionState::Requested, SessionInput::BusRegistered) => (
            SessionState::Registered,
            SessionAction::OpenStream,
        ),
        (SessionState::Registered, SessionInput::StreamOpened) => (
            SessionState::Streaming,
            SessionAction::AwaitEvent,
        ),
        (SessionState::Streaming, SessionInput::Received(RecvOutcome::Item(e))) => (
            SessionState::Streaming,
            SessionAction::Forward(e),
        ),
        (SessionState::Streaming, SessionInput::Received(RecvOutcome::Empty)) => (
            SessionState::Streaming,
            SessionAction::AwaitEvent,
        ),
        (SessionState::Streaming, SessionInput::Received(RecvOutcome::Lagged)) => (
            SessionState::Lagged,
            SessionAction::Deregister,
        ),
        (SessionState::Streaming, SessionInput::Received(RecvOutcome::Closed)) => (
            SessionState::BusClosed,
            SessionAction::Deregister,
        ),
        (SessionState::Streaming, SessionInput::ForwardOk) => (
            SessionState::Streaming,
            SessionAction::AwaitEvent,
        ),
        (SessionState::Streaming, SessionInput::ForwardFailed) => (
            SessionState::ClientDisconnected,
            SessionAction::Deregister,
        ),
        (SessionState::ClientDisconnected, SessionInput::Deregistered) => (
            SessionState::Terminated,
            SessionAction::Done,
        ),
        (SessionState::BusClosed, SessionInput::Deregistered) => (
            SessionState::Terminated,
            SessionAction::CloseStream,
        ),
        (SessionState::Lagged, SessionInput::Deregistered) => (
            SessionState::Terminated,
            SessionAction::NotifyLag,
        ),
        (SessionState::Terminated, _) => (SessionState::Terminated, SessionAction::Done),
        (st, _) => (st, SessionAction::Ignore),
    }
}

/// How far along its lifecycle a session is: request, registration,
/// streaming, wind-down, terminated.
pub open spec fn phase(s: SessionState) -> int {
    match s {
        SessionState::Requested => 0,
        SessionState::Registered => 1,
        SessionState::Streaming => 2,
        SessionState::ClientDisconnected => 3,
        SessionState::BusClosed => 3,
        SessionState::Lagged => 3,
        SessionState::Terminated => 4,
    }
}

/// The lifecycle only moves forward: no input ever returns a session to
/// an earlier phase, so each terminal state is entered at most once.
pub proof fn lemma_phase_monotone(s: SessionState, inp: SessionInput)
    ensures
        phase(session_step_spec(s, inp).0) >= phase(s),
{
}

/// The action that releases the bus registration is emitted only on the
/// single move out of `Streaming` into a wind-down state.
pub proof fn lemma_deregister_leaves_streaming(s: SessionState, inp: SessionInput)
    ensures
        session_step_spec(s, inp).1 == SessionAction::Deregister ==> s == SessionState::Streaming
            && phase(session_step_spec(s, inp).0) == 3,
{
}

/// The states and actions a session passes through when driven from
/// state `s` by this sequence of inputs.
pub open spec fn session_trace(s: SessionState, inps: Seq<SessionInput>) -> Seq<
    (SessionState, SessionAction),
>
    decreases inps.len(),
{
    if inps.len() == 0 {
        Seq::empty()
    } else {
        let r = session_step_spec(s, inps[0]);
        seq![r] + session_trace(r.0, inps.drop_first())
    }
}

/// How often a trace releases the bus registration.
pub open spec fn deregister_count(tr: Seq<(SessionState, SessionAction)>) -> int
    decreases tr.len(),
{
    if tr.len() == 0 {
        0
    } else {
        (if tr[0].1 == SessionAction::Deregister {
            1int
        } else {
            0int
        }) + deregister_count(tr.drop_first())
    }
}

/// Along any run of the session lifecycle, whatever the driver observes,
/// the bus registration is released at most once — and never once the
/// session has already left the streaming phase. No double
/// deregistration can be requested.
pub proof fn lemma_deregister_at_most_once(s: SessionState, inps: Seq<SessionInput>)
    ensures
        deregister_count(session_trace(s, inps)) <= 1,
        phase(s) >= 3 ==> deregister_count(session_trace(s, inps)) == 0,
    decreases inps.len(),
{
    if inps.len() > 0 {
        let r = session_step_spec(s, inps[0]);
        lemma_phase_monotone(s, inps[0]);
        lemma_deregister_leaves_streaming(s, inps[0]);
        lemma_deregister_at_most_once(r.0, inps.drop_first());
        assert(session_trace(s, inps).drop_first() =~= session_trace(r.0, inps.drop_first()));
    }
}

/// Law (lifecycle): a run that starts before wind-down and ends
/// terminated released the bus registration exactly once — never zero
/// times (no leaked registration) and never twice (no double
/// deregistration).
pub proof fn lemma_terminated_run_deregisters_exactly_once(
    s: SessionState,
    inps: Seq<SessionInput>,
)
    requires
        phase(s) <= 2,
        inps.len() > 0,
        session_trace(s, inps).last().0 == SessionState::Terminated,
    ensures
        deregister_count(session_trace(s, inps)) == 1,
    decreases inps.len(),
{
    let tr = session_trace(s, inps);
    let r = session_step_spec(s, inps[0]);
    let rest = session_trace(r.0, inps.drop_first());
    assert(tr =~= seq![r] + rest);
    assert(tr.drop_first() =~= rest);
    if r.1 == SessionAction::Deregister {
        lemma_deregister_leaves_streaming(s, inps[0]);
        lemma_deregister_at_most_once(r.0, inps.drop_first());
    } else {
        assert(phase(r.0) <= 2);
        if inps.len() == 1 {
            assert(tr.last() == r);
            assert(false);
        } else {
            assert(rest.len() > 0);
            assert(tr.last() == rest.last());
            lemma_terminated_run_deregisters_exactly_once(r.0, inps.drop_first());
        }
    }
}

} // verus!
