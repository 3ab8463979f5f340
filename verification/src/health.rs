//! Periodic health checking of the real servers: the decisions of the
//! probing loop, as a step from state and event to next state and action.
//!
//! Every `PROBE_INTERVAL_SECS` seconds a round probes each backend in list
//! order: bind a local UDP socket, connect it to the backend, send
//! `PROBE_PAYLOAD`, and wait up to `PROBE_TIMEOUT_SECS` seconds for any
//! reply. The caller performs each action and hands back its outcome.

use vstd::prelude::*;

verus! {

/// Seconds between the starts of two probing rounds.
pub const PROBE_INTERVAL_SECS: u64 = 5;

/// Seconds to wait for a backend's reply.
pub const PROBE_TIMEOUT_SECS: u64 = 1;

/// The datagram sent to each backend.
pub const PROBE_PAYLOAD: [u8; 4] = [0x50, 0x49, 0x4e, 0x47];

/// Where a probing loop stands.
#[derive(Clone, Copy, PartialEq, Eq, Structural, Debug)]
pub enum ProbeState {
    /// Between rounds, waiting for the next tick.
    Idle,
    /// Binding a socket to probe backend `i`.
    Binding(usize),
    /// Connecting the socket to backend `i`.
    Connecting(usize),
    /// Sending the probe to backend `i`.
    Sending(usize),
    /// Waiting for backend `i`'s reply.
    Receiving(usize),
}

/// The outcome of the action last performed.
#[derive(Clone, Copy, PartialEq, Eq, Structural, Debug)]
pub enum ProbeEvent {
    /// The interval timer fired.
    Tick,
    /// Binding a local socket succeeded (or not).
    Bound(bool),
    /// Connecting the socket succeeded (or not).
    Connected(bool),
    /// The probe was handed to the socket (whatever the outcome).
    Sent,
    /// A reply arrived in time (or not: timeout or error).
    Received(bool),
}

/// What the caller does next.
#[derive(Clone, Copy, PartialEq, Eq, Structural, Debug)]
pub enum ProbeAction {
    /// Wait for the next tick of the interval timer.
    WaitTick,
    /// Bind a local UDP socket to an ephemeral port.
    Bind,
    /// Connect the socket to backend `i`.
    Connect(usize),
    /// Send the probe payload to backend `i`.
    SendPing(usize),
    /// Wait (up to the timeout) for a reply from backend `i`.
    Receive(usize),
}

/// What a probe found out about a backend.
#[derive(Clone, Copy, PartialEq, Eq, Structural, Debug)]
pub enum Health {
    /// The backend replied in time.
    Up,
    /// The backend did not reply in time.
    Down,
    /// No local socket could be bound to probe it.
    BindFailed,
}

/// `state` names a backend among `n` (or none).
pub open spec fn probe_state_ok(n: usize, state: ProbeState) -> bool {
    match state {
        ProbeState::Idle => true,
        ProbeState::Binding(i) | ProbeState::Connecting(i) | ProbeState::Sending(i) | ProbeState::Receiving(i) => i < n,
    }
}

/// After backend `i` of `n`: on to the next backend, or, after the last,
/// wait for the next round.
pub open spec fn after(n: usize, i: usize) -> (ProbeState, ProbeAction) {
    if i + 1 < n {
        (ProbeState::Binding((i + 1) as usize), ProbeAction::Bind)
    } else {
        (ProbeState::Idle, ProbeAction::WaitTick)
    }
}

/// One step of the probing loop over `n` backends: the next state, the
/// next action, and the report (backend and finding) the step makes.
/// An event that does not answer the state's action ends the round.
pub open spec fn spec_health_step(n: usize, state: ProbeState, ev: ProbeEvent) -> (ProbeState, ProbeAction, Option<(usize, Health)>) {
    match (state, ev) {
        (ProbeState::Idle, ProbeEvent::Tick) => if n > 0 {
            (ProbeState::Binding(0), ProbeAction::Bind, None)
        } else {
            (ProbeState::Idle, ProbeAction::WaitTick, None)
        },
        (ProbeState::Binding(i), ProbeEvent::Bound(ok)) => if ok {
            (ProbeState::Connecting(i), ProbeAction::Connect(i), None)
        } else {
            (after(n, i).0, after(n, i).1, Some((i, Health::BindFailed)))
        },
        (ProbeState::Connecting(i), ProbeEvent::Connected(ok)) => if ok {
            (ProbeState::Sending(i), ProbeAction::SendPing(i), None)
        } else {
            (after(n, i).0, after(n, i).1, None)
        },
        (ProbeState::Sending(i), ProbeEvent::Sent) => (ProbeState::Receiving(i), ProbeAction::Receive(i), None),
        (ProbeState::Receiving(i), ProbeEvent::Received(ok)) =>
            (after(n, i).0, after(n, i).1, Some((i, if ok { Health::Up } else { Health::Down }))),
        _ => (ProbeState::Idle, ProbeAction::WaitTick, None),
    }
}

fn next_backend(n: usize, i: usize) -> (r: (ProbeState, ProbeAction))
    requires
        i < n,
    ensures
        r == after(n, i),
{
    if i + 1 < n {
        (ProbeState::Binding(i + 1), ProbeAction::Bind)
    } else {
        (ProbeState::Idle, ProbeAction::WaitTick)
    }
}

/// Takes one step of the probing loop over `n` backends.
pub fn health_step(n: usize, state: ProbeState, ev: ProbeEvent) -> (r: (ProbeState, ProbeAction, Option<(usize, Health)>))
    requires
        probe_state_ok(n, state),
    ensures
        r == spec_health_step(n, state, ev),
        probe_state_ok(n, r.0),
{
    match (state, ev) {
        (ProbeState::Idle, ProbeEvent::Tick) => if n > 0 {
            (ProbeState::Binding(0), ProbeAction::Bind, None)
        } else {
            (ProbeState::Idle, ProbeAction::WaitTick, None)
        },
        (ProbeState::Binding(i), ProbeEvent::Bound(ok)) => if ok {
            (ProbeState::Connecting(i), ProbeAction::Connect(i), None)
        } else {
            let (s, a) = next_backend(n, i);
            (s, a, Some((i, Health::BindFailed)))
        },
        (ProbeState::Connecting(i), ProbeEvent::Connected(ok)) => if ok {
            (ProbeState::Sending(i), ProbeAction::SendPing(i), None)
        } else {
            let (s, a) = next_backend(n, i);
            (s, a, None)
        },
        (ProbeState::Sending(i), ProbeEvent::Sent) => (ProbeState::Receiving(i), ProbeAction::Receive(i), None),
        (ProbeState::Receiving(i), ProbeEvent::Received(ok)) => {
            let (s, a) = next_backend(n, i);
            (s, a, Some((i, if ok { Health::Up } else { Health::Down })))
        },
        _ => (ProbeState::Idle, ProbeAction::WaitTick, None),
    }
}

/// The index of the backend a state is on.
pub open spec fn probe_index(state: ProbeState) -> int {
    match state {
        ProbeState::Idle => -1,
        ProbeState::Binding(i) | ProbeState::Connecting(i) | ProbeState::Sending(i) | ProbeState::Receiving(i) => i as int,
    }
}

/// Rounds visit the backends in list order, each at most once: a step stays
/// on the current backend or moves to the next one (a tick starts at the
/// first), any report is about the backend being probed, and the only way
/// back to waiting is finishing the last backend or an event out of turn;
/// waiting for a reply always ends with a finding.
pub proof fn lemma_probe_order(n: usize, state: ProbeState, ev: ProbeEvent)
    requires
        probe_state_ok(n, state),
    ensures
        ({
            let (next, act, report) = spec_health_step(n, state, ev);
            &&& state == ProbeState::Idle && ev == ProbeEvent::Tick && n > 0 ==> next == ProbeState::Binding(0)
            &&& state != ProbeState::Idle && next != ProbeState::Idle ==>
                    probe_index(next) == probe_index(state) || probe_index(next) == probe_index(state) + 1
            &&& report matches Some((i, _)) ==> i == probe_index(state)
            &&& next == ProbeState::Idle <==> act == ProbeAction::WaitTick
            &&& (state matches ProbeState::Receiving(i) && ev matches ProbeEvent::Received(_)) ==> report is Some
        }),
{
}

/// Every socket action a step asks for names the backend the loop is on:
/// connecting, sending and receiving all target the same backend as the
/// state the step started from, and the state the step moves to.
pub proof fn lemma_probe_actions_name_backend(n: usize, state: ProbeState, ev: ProbeEvent)
    requires
        probe_state_ok(n, state),
    ensures
        ({
            let (next, act, _report) = spec_health_step(n, state, ev);
            match act {
                ProbeAction::Connect(j) | ProbeAction::SendPing(j) | ProbeAction::Receive(j) =>
                    j as int == probe_index(state) && j as int == probe_index(next),
                _ => true,
            }
        }),
{
}

/// A round probes every backend: finishing backend `i` in turn (its bind
/// failed, its connect failed, or its reply wait ended) moves on to bind
/// for backend `i + 1` whenever there is one, and only after the last
/// backend does the loop wait for the next tick.
pub proof fn lemma_round_covers_all(n: usize, i: usize, ok: bool)
    requires
        i < n,
    ensures
        ({
            let r1 = spec_health_step(n, ProbeState::Binding(i), ProbeEvent::Bound(false));
            let r2 = spec_health_step(n, ProbeState::Connecting(i), ProbeEvent::Connected(false));
            let r3 = spec_health_step(n, ProbeState::Receiving(i), ProbeEvent::Received(ok));
            if i + 1 < n {
                &&& r1.0 == ProbeState::Binding((i + 1) as usize) && r1.1 == ProbeAction::Bind
                &&& r2.0 == ProbeState::Binding((i + 1) as usize) && r2.1 == ProbeAction::Bind
                &&& r3.0 == ProbeState::Binding((i + 1) as usize) && r3.1 == ProbeAction::Bind
            } else {
                &&& r1.0 == ProbeState::Idle && r1.1 == ProbeAction::WaitTick
                &&& r2.0 == ProbeState::Idle && r2.1 == ProbeAction::WaitTick
                &&& r3.0 == ProbeState::Idle && r3.1 == ProbeAction::WaitTick
            }
        }),
        spec_health_step(n, ProbeState::Binding(i), ProbeEvent::Bound(true))
            == (ProbeState::Connecting(i), ProbeAction::Connect(i), Option::<(usize, Health)>::None),
        spec_health_step(n, ProbeState::Receiving(i), ProbeEvent::Received(ok)).2
            == Some((i, if ok { Health::Up } else { Health::Down })),
{
}

} // verus!
