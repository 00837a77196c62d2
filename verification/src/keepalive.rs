//! The keep-alive monitor: a state machine from (state, event) to (next
//! state, action). The runtime owns the timer and the socket; every
//! decision — when to probe, when to declare the connection failed, and
//! that application traffic seen while waiting is forwarded, never
//! dropped — stands here, verified.

use vstd::prelude::*;

verus! {

/// Where the monitor stands between two events.
#[derive(Clone, Copy, PartialEq, Eq, Structural, Debug)]
pub enum ProbeState {
    /// No probe outstanding.
    Idle,
    /// A probe went out; its reply is due before the next tick.
    AwaitingReply,
}

/// What the runtime reports to the monitor.
pub enum ProbeEvent {
    /// The keep-alive interval elapsed.
    Tick,
    /// The liveness reply arrived.
    PongReceived,
    /// A non-liveness frame arrived while the monitor was watching.
    OtherFrame { text: String },
    /// Receiving failed at the transport level.
    ReceiveFailed,
    /// The peer closed the connection.
    ConnectionClosed,
}

/// What the runtime must do before the next event.
pub enum ProbeAction {
    /// Send a liveness probe.
    SendProbe,
    /// Hand the carried frame to the dispatcher: it is application
    /// traffic, not a liveness reply.
    ForwardFrame { text: String },
    /// Declare the connection failed and trigger one reconnect cycle.
    DeclareFailed,
    /// Nothing to do until the next event.
    Wait,
}

/// One step of the monitor.
///
/// A tick on an idle connection sends a probe; a tick while the reply is
/// still outstanding — a whole interval without one — declares the
/// connection failed, as does any transport failure. The reply itself
/// returns the monitor to idle. Any other frame is forwarded unchanged and
/// leaves the monitor's state alone.
pub fn keepalive_step(state: ProbeState, event: ProbeEvent) -> (r: (ProbeState, ProbeAction))
    ensures
        state is Idle ==> {
            &&& event is Tick ==> r == (ProbeState::AwaitingReply, ProbeAction::SendProbe)
            &&& event is PongReceived ==> r == (ProbeState::Idle, ProbeAction::Wait)
            &&& event matches ProbeEvent::OtherFrame { text } ==> r.0 is Idle && r.1 == (
            ProbeAction::ForwardFrame { text })
            &&& (event is ReceiveFailed || event is ConnectionClosed) ==> r == (
                ProbeState::Idle,
                ProbeAction::DeclareFailed,
            )
        },
        state is AwaitingReply ==> {
            &&& event is Tick ==> r == (ProbeState::Idle, ProbeAction::DeclareFailed)
            &&& event is PongReceived ==> r == (ProbeState::Idle, ProbeAction::Wait)
            &&& event matches ProbeEvent::OtherFrame { text } ==> r.0 is AwaitingReply && r.1 == (
            ProbeAction::ForwardFrame { text })
            &&& (event is ReceiveFailed || event is ConnectionClosed) ==> r == (
                ProbeState::Idle,
                ProbeAction::DeclareFailed,
            )
        },
{
    match event {
        ProbeEvent::Tick => match state {
            ProbeState::Idle => (ProbeState::AwaitingReply, ProbeAction::SendProbe),
            ProbeState::AwaitingReply => (ProbeState::Idle, ProbeAction::DeclareFailed),
        },
        ProbeEvent::PongReceived => (ProbeState::Idle, ProbeAction::Wait),
        ProbeEvent::OtherFrame { text } => (state, ProbeAction::ForwardFrame { text }),
        ProbeEvent::ReceiveFailed | ProbeEvent::ConnectionClosed => (
            ProbeState::Idle,
            ProbeAction::DeclareFailed,
        ),
    }
}

} // verus!
